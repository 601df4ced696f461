use grrs::ranking::{compare_rank, compare_text, PackageQueue, PackageRank};
use grrs::url_handler::URLHandler;

fn rank(scores: [u32; 6], url: &str, owner_repo: &str, id: usize) -> PackageRank {
    PackageRank {
        net_score: scores[0],
        ramp_up: scores[1],
        correctness: scores[2],
        bus_factor: scores[3],
        responsiveness: scores[4],
        license: scores[5],
        url: URLHandler { url: url.to_string(), owner_repo: owner_repo.to_string() },
        id,
    }
}

#[test]
fn text_compares_by_bytes() {
    assert_eq!(compare_text("a", "b"), -1);
    assert_eq!(compare_text("b", "a"), 1);
    assert_eq!(compare_text("abc", "abc"), 0);
    assert_eq!(compare_text("ab", "abc"), -1);
    assert_eq!(compare_text("", ""), 0);
    assert_eq!(compare_text("", "a"), -1);
    assert_eq!(compare_text("Z", "a"), -1);
    // 'é' is encoded as 0xC3 0xA9, above every ASCII byte.
    assert_eq!(compare_text("é", "z"), 1);
    assert_eq!(compare_text("ab", "aé"), -1);
}

#[test]
fn earlier_score_decides_first() {
    let a = rank([5, 0, 0, 0, 0, 0], "u", "o", 0);
    let b = rank([4, 9, 9, 9, 9, 9], "u", "o", 1);
    assert_eq!(compare_rank(&a, &b), 1);
    assert_eq!(compare_rank(&b, &a), -1);
    let c = rank([5, 0, 0, 0, 0, 1], "u", "o", 2);
    assert_eq!(compare_rank(&a, &c), -1);
}

#[test]
fn url_then_owner_break_ties() {
    let a = rank([1; 6], "https://a", "x", 0);
    let b = rank([1; 6], "https://b", "a", 1);
    assert_eq!(compare_rank(&a, &b), -1);
    let c = rank([1; 6], "https://a", "y", 2);
    assert_eq!(compare_rank(&a, &c), -1);
    let d = rank([1; 6], "https://a", "x", 3);
    assert_eq!(compare_rank(&a, &d), 0);
}

#[test]
fn queue_pops_best_first() {
    let mut queue = PackageQueue::new();
    assert!(queue.is_empty());
    queue.push(rank([3, 0, 0, 0, 0, 0], "c", "c", 0));
    queue.push(rank([7, 0, 0, 0, 0, 0], "a", "a", 1));
    queue.push(rank([5, 0, 0, 0, 0, 0], "b", "b", 2));
    queue.push(rank([7, 0, 0, 0, 0, 0], "b", "b", 3));
    assert_eq!(queue.len(), 4);
    let order: Vec<usize> = std::iter::from_fn(|| queue.pop().map(|p| p.id)).collect();
    assert_eq!(order, vec![3, 1, 2, 0]);
    assert!(queue.is_empty());
    assert!(queue.pop().is_none());
}

#[test]
fn push_then_pop_gives_it_back() {
    let mut queue = PackageQueue::new();
    queue.push(rank([1, 2, 3, 4, 5, 6], "u", "o", 42));
    let top = queue.pop().unwrap();
    assert_eq!(top.id, 42);
    assert_eq!(top.url.get_url(), "u");
    assert_eq!(queue.len(), 0);
}

#[test]
fn drain_is_sorted_and_complete() {
    let mut queue = PackageQueue::new();
    let keys = [9u32, 1, 4, 4, 0, 7, u32::MAX, 2];
    for (id, k) in keys.iter().enumerate() {
        queue.push(rank([*k, 0, 0, 0, 0, 0], "u", "o", id));
    }
    let ranked = queue.drain_best_first();
    let got: Vec<u32> = ranked.iter().map(|p| p.net_score).collect();
    assert_eq!(got, vec![u32::MAX, 9, 7, 4, 4, 2, 1, 0]);
    let mut ids: Vec<usize> = ranked.iter().map(|p| p.id).collect();
    ids.sort();
    assert_eq!(ids, (0..keys.len()).collect::<Vec<_>>());
}

#[test]
fn empty_queue_drains_to_nothing() {
    assert!(PackageQueue::new().drain_best_first().is_empty());
}
