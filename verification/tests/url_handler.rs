use grrs::url_handler::{
    npm_owner_repo, HandlerStart, NpmJSON, OwnerRepoLookup, URLHandler, UNSUPPORTED_OWNER_REPO,
};

fn entries(pairs: &[(&str, &str)]) -> Vec<(String, String)> {
    pairs.iter().map(|(k, v)| (k.to_string(), v.to_string())).collect()
}

/// The `repository` object that the npm registry publishes for the `request` package.
fn request_registry_document() -> NpmJSON {
    NpmJSON::new(entries(&[
        ("type", "git"),
        ("url", "git+https://github.com/request/request.git"),
    ]))
}

#[test]
fn test_url_handler_github() {
    let url = "https://github.com/openai/gpt-3".to_string();
    let handler = match URLHandler::new(url.clone()) {
        HandlerStart::Ready(handler) => handler,
        HandlerStart::NeedsRegistry(_) => panic!("a GitHub URL needs no registry lookup"),
    };
    assert_eq!(handler.get_url(), url);
    assert_eq!(handler.get_owner_repo(), "openai/gpt-3");
}

#[test]
fn test_url_handler_npm() {
    let url = "https://www.npmjs.com/package/request".to_string();
    let lookup = match URLHandler::new(url.clone()) {
        HandlerStart::NeedsRegistry(lookup) => lookup,
        HandlerStart::Ready(_) => panic!("an npm URL needs its registry document"),
    };
    assert_eq!(lookup.registry_url(), "https://registry.npmjs.org/request");
    let handler = lookup.complete(&request_registry_document()).unwrap();
    assert_eq!(handler.get_url(), url);
    assert_eq!(handler.get_owner_repo(), "request/request");
}

#[test]
fn unsupported_url_gets_placeholder() {
    let url = "https://gitlab.com/some/project".to_string();
    match URLHandler::new(url.clone()) {
        HandlerStart::Ready(handler) => {
            assert_eq!(handler.get_url(), url);
            assert_eq!(handler.get_owner_repo(), "GARBAGE");
            assert_eq!(handler.get_owner_repo(), UNSUPPORTED_OWNER_REPO);
        }
        HandlerStart::NeedsRegistry(_) => panic!("not an npm URL"),
    }
}

#[test]
fn empty_url_is_unsupported() {
    match URLHandler::determine_owner_repo(&String::new()) {
        OwnerRepoLookup::Known(owner_repo) => assert_eq!(owner_repo, "GARBAGE"),
        OwnerRepoLookup::NpmPackage(_) => panic!("not an npm URL"),
    }
}

#[test]
fn github_wins_over_npm() {
    // The URL matches both patterns; GitHub is tried first.
    let url = "https://www.npmjs.com/package/github.com/acme/tool".to_string();
    match URLHandler::determine_owner_repo(&url) {
        OwnerRepoLookup::Known(owner_repo) => assert_eq!(owner_repo, "acme/tool"),
        OwnerRepoLookup::NpmPackage(_) => panic!("GitHub pattern comes first"),
    }
}

#[test]
fn github_needs_something_before_the_host() {
    // `.+` needs at least one character before `github.com/`.
    let url = "github.com/owner/repo".to_string();
    match URLHandler::determine_owner_repo(&url) {
        OwnerRepoLookup::Known(owner_repo) => assert_eq!(owner_repo, "GARBAGE"),
        OwnerRepoLookup::NpmPackage(_) => panic!("not an npm URL"),
    }
}

#[test]
fn github_takes_everything_after_the_last_host() {
    let url = "https://github.com/a/b/tree/main".to_string();
    match URLHandler::determine_owner_repo(&url) {
        OwnerRepoLookup::Known(owner_repo) => assert_eq!(owner_repo, "a/b/tree/main"),
        OwnerRepoLookup::NpmPackage(_) => panic!("not an npm URL"),
    }
}

#[test]
fn npm_package_name_is_read() {
    let url = "https://www.npmjs.com/package/express".to_string();
    match URLHandler::determine_owner_repo(&url) {
        OwnerRepoLookup::NpmPackage(package) => assert_eq!(package, "express"),
        OwnerRepoLookup::Known(_) => panic!("an npm URL"),
    }
}

#[test]
fn npm_over_plain_http_is_unsupported() {
    let url = "http://www.npmjs.com/package/express".to_string();
    match URLHandler::determine_owner_repo(&url) {
        OwnerRepoLookup::Known(owner_repo) => assert_eq!(owner_repo, "GARBAGE"),
        OwnerRepoLookup::NpmPackage(_) => panic!("the npm pattern asks for https"),
    }
}

#[test]
fn registry_document_without_url() {
    let doc = NpmJSON::new(entries(&[("type", "git")]));
    assert_eq!(doc.repository_value("url"), None);
    assert_eq!(npm_owner_repo(&doc), None);
}

#[test]
fn registry_document_with_non_github_url() {
    let doc = NpmJSON::new(entries(&[("url", "git+https://gitlab.com/a/b.git")]));
    assert_eq!(npm_owner_repo(&doc), None);
    let lookup = match URLHandler::new("https://www.npmjs.com/package/b".to_string()) {
        HandlerStart::NeedsRegistry(lookup) => lookup,
        HandlerStart::Ready(_) => panic!("an npm URL"),
    };
    assert!(lookup.complete(&doc).is_none());
}

#[test]
fn registry_document_url_without_git_suffix() {
    // `(.+).git` needs four characters after the repository path.
    let doc = NpmJSON::new(entries(&[("url", "https://github.com/a/b")]));
    assert_eq!(npm_owner_repo(&doc), None);
}

#[test]
fn later_duplicate_key_wins() {
    let doc = NpmJSON::new(entries(&[
        ("url", "git+https://github.com/old/one.git"),
        ("type", "git"),
        ("url", "git+https://github.com/new/two.git"),
    ]));
    assert_eq!(doc.repository_value("url"), Some("git+https://github.com/new/two.git".to_string()));
    assert_eq!(doc.repository_value("type"), Some("git".to_string()));
    assert_eq!(npm_owner_repo(&doc), Some("new/two".to_string()));
}

#[test]
fn display_string_is_the_url() {
    let handler = URLHandler {
        url: "https://github.com/x/y".to_string(),
        owner_repo: "x/y".to_string(),
    };
    assert_eq!(handler.to_display_string(), "https://github.com/x/y");
}
