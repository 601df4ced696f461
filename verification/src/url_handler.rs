//! Resolving a package URL to the `owner/repo` of its GitHub repository.
//!
//! A GitHub URL names its repository directly. An npm package page names a
//! package whose registry document has to be fetched first; the lookup is split
//! in two steps so that the fetch itself stays with the caller.
use vstd::prelude::*;
use crate::pattern::{capture_group, regex_accepts, regex_captures, spec_capture_group};

verus! {

/// Any URL with `github.com/` in it: the repository is what follows.
pub const GITHUB_PATTERN: &'static str = ".+github\\.com/(.+)";

/// An npm package page: the package name is what follows `/package/`.
pub const NPM_PATTERN: &'static str = "https://www\\.npmjs\\.com/package/(.+)";

/// The repository URL of an npm registry document, `git+https://github.com/o/r.git`.
pub const NPM_GITHUB_PATTERN: &'static str = ".+github\\.com/(.+).git";

/// Where the registry document of an npm package is published.
pub const NPM_REGISTRY_PREFIX: &'static str = "https://registry.npmjs.org/";

/// The key of the repository URL in the `repository` object of a registry document.
pub const REPOSITORY_URL_KEY: &'static str = "url";

/// The `owner/repo` given to a URL that is neither a GitHub nor an npm URL.
pub const UNSUPPORTED_OWNER_REPO: &'static str = "GARBAGE";

/// Capture group 1 of `pattern` in `text`, when the pattern compiles and matches.
pub open spec fn spec_first_group(pattern: Seq<char>, text: Seq<char>) -> Option<Seq<char>> {
    if regex_accepts(pattern) {
        spec_capture_group(pattern, text, 1)
    } else {
        None
    }
}

/// What a URL alone says about its repository.
pub enum OwnerRepoLookup {
    /// The `owner/repo` is known (a GitHub URL, or the placeholder for any other URL).
    Known(String),
    /// The URL is an npm package page; holds the package name.
    NpmPackage(String),
}

/// The mathematical form of [`OwnerRepoLookup`].
pub enum LookupSpec {
    Known(Seq<char>),
    NpmPackage(Seq<char>),
}

impl View for OwnerRepoLookup {
    type V = LookupSpec;

    open spec fn view(&self) -> LookupSpec {
        match self {
            OwnerRepoLookup::Known(s) => LookupSpec::Known(s@),
            OwnerRepoLookup::NpmPackage(s) => LookupSpec::NpmPackage(s@),
        }
    }
}

/// GitHub URLs come first; then npm package pages; any other URL gets the placeholder.
pub open spec fn spec_determine_owner_repo(url: Seq<char>) -> LookupSpec {
    match spec_first_group(GITHUB_PATTERN@, url) {
        Some(owner_repo) => LookupSpec::Known(owner_repo),
        None => match spec_first_group(NPM_PATTERN@, url) {
            Some(package) => LookupSpec::NpmPackage(package),
            None => LookupSpec::Known(UNSUPPORTED_OWNER_REPO@),
        },
    }
}

/// The registry document of an npm package: the `repository` object, as its
/// key/value pairs in document order.
pub struct NpmJSON {
    repository: Vec<(String, String)>,
}

/// The value of the last pair whose key is `key` (a later duplicate key
/// replaces an earlier one, as when the object is read into a map).
pub open spec fn spec_entry_value(entries: Seq<(Seq<char>, Seq<char>)>, key: Seq<char>) -> Option<
    Seq<char>,
>
    decreases entries.len(),
{
    if entries.len() == 0 {
        None
    } else if entries.last().0 == key {
        Some(entries.last().1)
    } else {
        spec_entry_value(entries.drop_last(), key)
    }
}

/// The `owner/repo` of the GitHub repository that a registry document names.
pub open spec fn spec_npm_owner_repo(entries: Seq<(Seq<char>, Seq<char>)>) -> Option<Seq<char>> {
    match spec_entry_value(entries, REPOSITORY_URL_KEY@) {
        Some(repository_url) => spec_first_group(NPM_GITHUB_PATTERN@, repository_url),
        None => None,
    }
}

/// How a URL is resolved, for every URL: when `.+github\.com/(.+)` matches, its
/// group 1 is the `owner/repo`; otherwise, when
/// `https://www\.npmjs\.com/package/(.+)` matches, its group 1 is the npm package
/// to look up; otherwise the `owner/repo` is `GARBAGE`.
pub proof fn lemma_url_resolution(url: Seq<char>)
    ensures
        ({
            let group_one = |pattern: Seq<char>, text: Seq<char>|
                if regex_accepts(pattern) {
                    match regex_captures(pattern, text) {
                        Some(groups) => if groups.len() > 1 {
                            groups[1]
                        } else {
                            None
                        },
                        None => None,
                    }
                } else {
                    None
                };
            let github = group_one(".+github\\.com/(.+)"@, url);
            let npm = group_one("https://www\\.npmjs\\.com/package/(.+)"@, url);
            &&& github matches Some(owner_repo) ==> spec_determine_owner_repo(url)
                == LookupSpec::Known(owner_repo)
            &&& npm matches Some(package) ==> (github is None ==> spec_determine_owner_repo(url)
                == LookupSpec::NpmPackage(package))
            &&& github is None && npm is None ==> spec_determine_owner_repo(url) == LookupSpec::Known(
                "GARBAGE"@,
            )
        }),
{
}

/// The value looked up under a key is found wherever the key stands: there is a
/// value exactly when some pair has the key, and the value found is that of a
/// pair with the key after which no pair has the key.
pub proof fn lemma_entry_value_found(entries: Seq<(Seq<char>, Seq<char>)>, key: Seq<char>)
    ensures
        (exists|i: int| 0 <= i < entries.len() && #[trigger] entries[i].0 == key) <==> spec_entry_value(
            entries,
            key,
        ) is Some,
        spec_entry_value(entries, key) matches Some(value) ==> exists|i: int|
            0 <= i < entries.len() && #[trigger] entries[i] == (key, value) && forall|j: int|
                i < j < entries.len() ==> #[trigger] entries[j].0 != key,
    decreases entries.len(),
{
    if entries.len() > 0 {
        let rest = entries.drop_last();
        lemma_entry_value_found(rest, key);
        let n = entries.len() - 1;
        if entries.last().0 == key {
            assert(entries[n] == (key, entries.last().1));
            assert(entries[n].0 == key);
        } else {
            if exists|i: int| 0 <= i < entries.len() && #[trigger] entries[i].0 == key {
                let i = choose|i: int| 0 <= i < entries.len() && #[trigger] entries[i].0 == key;
                assert(i != n);
                assert(rest[i].0 == key);
            }
            assert forall|i: int| 0 <= i < entries.len() && entries[i].0 == key implies 0 <= i < rest.len()
                && #[trigger] rest[i].0 == key by {
                assert(i != n);
            }
            if spec_entry_value(entries, key) is Some {
                let value = spec_entry_value(entries, key)->0;
                let i = choose|i: int|
                    0 <= i < rest.len() && #[trigger] rest[i] == (key, value) && forall|j: int|
                        i < j < rest.len() ==> #[trigger] rest[j].0 != key;
                assert(entries[i] == (key, value));
                assert forall|j: int| i < j < entries.len() implies #[trigger] entries[j].0 != key by {
                    if j < n {
                        assert(entries[j] == rest[j]);
                    }
                }
            }
            if exists|i: int| 0 <= i < rest.len() && #[trigger] rest[i].0 == key {
                let i = choose|i: int| 0 <= i < rest.len() && #[trigger] rest[i].0 == key;
                assert(entries[i].0 == key);
            }
        }
    }
}

/// A registry document is resolved through its `url` value alone: without one
/// there is no `owner/repo`; with one, the `owner/repo` is group 1 of
/// `.+github\.com/(.+).git` in it.
pub proof fn lemma_npm_owner_repo_reads_url(entries: Seq<(Seq<char>, Seq<char>)>)
    ensures
        spec_entry_value(entries, "url"@) is None ==> spec_npm_owner_repo(entries) is None,
        ({
            let group_one = |pattern: Seq<char>, text: Seq<char>|
                if regex_accepts(pattern) {
                    match regex_captures(pattern, text) {
                        Some(groups) => if groups.len() > 1 {
                            groups[1]
                        } else {
                            None
                        },
                        None => None,
                    }
                } else {
                    None
                };
            spec_entry_value(entries, "url"@) matches Some(repository_url) ==> spec_npm_owner_repo(
                entries,
            ) == group_one(".+github\\.com/(.+).git"@, repository_url)
        }),
{
}

impl View for NpmJSON {
    type V = Seq<(Seq<char>, Seq<char>)>;

    closed spec fn view(&self) -> Seq<(Seq<char>, Seq<char>)> {
        self.repository@.map_values(|e: (String, String)| (e.0@, e.1@))
    }
}

impl NpmJSON {
    /// A registry document whose `repository` object holds `repository`.
    pub fn new(repository: Vec<(String, String)>) -> (doc: NpmJSON)
        ensures
            doc@ == repository@.map_values(|e: (String, String)| (e.0@, e.1@)),
    {
        NpmJSON { repository }
    }

    /// The key/value pairs of the `repository` object, in document order.
    pub fn into_entries(self) -> (repository: Vec<(String, String)>)
        ensures
            repository@.map_values(|e: (String, String)| (e.0@, e.1@)) == self@,
    {
        self.repository
    }

    /// The value stored under `key` in the `repository` object.
    pub fn repository_value(&self, key: &str) -> (value: Option<String>)
        ensures
            value.deep_view() == spec_entry_value(self@, key@),
    {
        let wanted = String::from_str(key);
        let ghost entries = self@;
        let mut i = self.repository.len();
        assert(entries.take(i as int) =~= entries);
        while i > 0
            invariant
                i <= self.repository@.len(),
                entries == self@,
                wanted@ == key@,
                spec_entry_value(entries, key@) == spec_entry_value(entries.take(i as int), key@),
            decreases i,
        {
            i = i - 1;
            assert(entries.take(i + 1).drop_last() =~= entries.take(i as int));
            assert(entries.take(i + 1).last() == entries[i as int]);
            if self.repository[i].0 == wanted {
                return Some(self.repository[i].1.clone());
            }
        }
        assert(entries.take(0) =~= Seq::<(Seq<char>, Seq<char>)>::empty());
        None
    }
}

/// Reads the GitHub `owner/repo` out of the repository URL of an npm registry
/// document; `None` when the document has no repository URL or the URL names no
/// GitHub repository.
pub fn npm_owner_repo(doc: &NpmJSON) -> (owner_repo: Option<String>)
    ensures
        owner_repo.deep_view() == spec_npm_owner_repo(doc@),
{
    match doc.repository_value(REPOSITORY_URL_KEY) {
        None => None,
        Some(repository_url) => match capture_group(NPM_GITHUB_PATTERN, repository_url.as_str(), 1) {
            Some(found) => found,
            None => None,
        },
    }
}

/// A package URL and the `owner/repo` of the GitHub repository it stands for.
#[derive(Clone, Debug)]
pub struct URLHandler {
    pub url: String,
    pub owner_repo: String,
}

/// The outcome of [`URLHandler::new`]: a handler, or the npm lookup that has
/// to be completed with the package's registry document.
pub enum HandlerStart {
    Ready(URLHandler),
    NeedsRegistry(NpmLookup),
}

/// An npm package page whose repository is not known yet.
pub struct NpmLookup {
    pub url: String,
    pub package: String,
}

impl URLHandler {
    /// Starts resolving `url`. GitHub URLs and unsupported URLs are resolved at
    /// once; an npm package page asks for the package's registry document.
    pub fn new(url: String) -> (start: HandlerStart)
        ensures
            match start {
                HandlerStart::Ready(handler) => {
                    &&& handler.url@ == url@
                    &&& spec_determine_owner_repo(url@) == LookupSpec::Known(handler.owner_repo@)
                },
                HandlerStart::NeedsRegistry(lookup) => {
                    &&& lookup.url@ == url@
                    &&& spec_determine_owner_repo(url@) == LookupSpec::NpmPackage(lookup.package@)
                },
            },
    {
        match URLHandler::determine_owner_repo(&url) {
            OwnerRepoLookup::Known(owner_repo) => HandlerStart::Ready(URLHandler { url, owner_repo }),
            OwnerRepoLookup::NpmPackage(package) => HandlerStart::NeedsRegistry(
                NpmLookup { url, package },
            ),
        }
    }

    /// Classifies `url` by the patterns, in order: GitHub URL, npm package page,
    /// anything else.
    pub fn determine_owner_repo(url: &String) -> (lookup: OwnerRepoLookup)
        ensures
            lookup@ == spec_determine_owner_repo(url@),
    {
        if let Some(Some(owner_repo)) = capture_group(GITHUB_PATTERN, url.as_str(), 1) {
            return OwnerRepoLookup::Known(owner_repo);
        }
        match capture_group(NPM_PATTERN, url.as_str(), 1) {
            Some(Some(package)) => OwnerRepoLookup::NpmPackage(package),
            _ => OwnerRepoLookup::Known(String::from_str(UNSUPPORTED_OWNER_REPO)),
        }
    }

    /// The URL the handler was made from.
    pub fn get_url(&self) -> (url: String)
        ensures
            url@ == self.url@,
    {
        self.url.clone()
    }

    /// The `owner/repo` of the handler's GitHub repository.
    pub fn get_owner_repo(&self) -> (owner_repo: String)
        ensures
            owner_repo@ == self.owner_repo@,
    {
        self.owner_repo.clone()
    }

    /// The text that displaying the handler shows: its URL.
    pub fn to_display_string(&self) -> (text: String)
        ensures
            text@ == self.url@,
    {
        self.url.clone()
    }
}

impl NpmLookup {
    /// The address of the package's registry document.
    pub fn registry_url(&self) -> (address: String)
        ensures
            address@ == NPM_REGISTRY_PREFIX@ + self.package@,
    {
        let mut address = String::from_str(NPM_REGISTRY_PREFIX);
        address.append(self.package.as_str());
        address
    }

    /// Completes the lookup with the package's registry document; `None` when
    /// the document names no GitHub repository.
    pub fn complete(self, doc: &NpmJSON) -> (handler: Option<URLHandler>)
        ensures
            match handler {
                Some(h) => h.url@ == self.url@ && spec_npm_owner_repo(doc@) == Some(h.owner_repo@),
                None => spec_npm_owner_repo(doc@) is None,
            },
    {
        match npm_owner_repo(doc) {
            Some(owner_repo) => Some(URLHandler { url: self.url, owner_repo }),
            None => None,
        }
    }
}

} // verus!
