//! The order in which scored packages are reported: best first.
//!
//! A package is ranked by its six scores, in the order net score, ramp-up,
//! correctness, bus factor, responsiveness and license, then by its URL and its
//! `owner/repo`, each compared as the bytes of its UTF-8 text. Each score comes
//! as an order key: a `u32` that orders as the score does.
use vstd::prelude::*;
use vstd::multiset::Multiset;
use vstd::seq_lib::{to_multiset_build, to_multiset_remove};
use vstd::utf8::encode_utf8;
use crate::url_handler::URLHandler;

verus! {

/// Three-way comparison of two integers: -1, 0 or 1.
pub open spec fn key_order(a: u32, b: u32) -> int {
    if a < b {
        -1
    } else if a > b {
        1
    } else {
        0
    }
}

/// Lexicographic three-way comparison of byte strings; a proper prefix comes first.
pub open spec fn bytes_order(a: Seq<u8>, b: Seq<u8>) -> int
    decreases a.len(),
{
    if a.len() == 0 {
        if b.len() == 0 {
            0
        } else {
            -1
        }
    } else if b.len() == 0 {
        1
    } else if a[0] < b[0] {
        -1
    } else if a[0] > b[0] {
        1
    } else {
        bytes_order(a.drop_first(), b.drop_first())
    }
}

/// The first comparison that is not a tie decides.
pub open spec fn then_order(first: int, rest: int) -> int {
    if first != 0 {
        first
    } else {
        rest
    }
}

/// A package as the ranking sees it, with `id` telling whose it is.
pub struct RankSpec {
    pub net_score: u32,
    pub ramp_up: u32,
    pub correctness: u32,
    pub bus_factor: u32,
    pub responsiveness: u32,
    pub license: u32,
    pub url: Seq<char>,
    pub owner_repo: Seq<char>,
    pub id: usize,
}

/// Three-way comparison of two ranked packages; `id` takes no part in it.
pub open spec fn rank_order(a: RankSpec, b: RankSpec) -> int {
    then_order(
        key_order(a.net_score, b.net_score),
        then_order(
            key_order(a.ramp_up, b.ramp_up),
            then_order(
                key_order(a.correctness, b.correctness),
                then_order(
                    key_order(a.bus_factor, b.bus_factor),
                    then_order(
                        key_order(a.responsiveness, b.responsiveness),
                        then_order(
                            key_order(a.license, b.license),
                            then_order(
                                bytes_order(encode_utf8(a.url), encode_utf8(b.url)),
                                bytes_order(encode_utf8(a.owner_repo), encode_utf8(b.owner_repo)),
                            ),
                        ),
                    ),
                ),
            ),
        ),
    )
}

/// A scored package: the order keys of its scores, its URL handler, and the
/// number by which its owner finds the full package again.
pub struct PackageRank {
    pub net_score: u32,
    pub ramp_up: u32,
    pub correctness: u32,
    pub bus_factor: u32,
    pub responsiveness: u32,
    pub license: u32,
    pub url: URLHandler,
    pub id: usize,
}

impl View for PackageRank {
    type V = RankSpec;

    open spec fn view(&self) -> RankSpec {
        RankSpec {
            net_score: self.net_score,
            ramp_up: self.ramp_up,
            correctness: self.correctness,
            bus_factor: self.bus_factor,
            responsiveness: self.responsiveness,
            license: self.license,
            url: self.url.url@,
            owner_repo: self.url.owner_repo@,
            id: self.id,
        }
    }
}

proof fn lemma_bytes_order_props(a: Seq<u8>, b: Seq<u8>)
    ensures
        -1 <= bytes_order(a, b) <= 1,
        bytes_order(a, b) == -bytes_order(b, a),
        bytes_order(a, b) == 0 <==> a == b,
    decreases a.len(),
{
    if a.len() > 0 && b.len() > 0 && a[0] == b[0] {
        lemma_bytes_order_props(a.drop_first(), b.drop_first());
        if a.drop_first() == b.drop_first() {
            assert(a =~= seq![a[0]] + a.drop_first());
            assert(b =~= seq![b[0]] + b.drop_first());
        }
    }
    if a.len() == 0 && b.len() == 0 {
        assert(a =~= b);
    }
}

proof fn lemma_bytes_order_transitive(a: Seq<u8>, b: Seq<u8>, c: Seq<u8>)
    requires
        bytes_order(a, b) <= 0,
        bytes_order(b, c) <= 0,
    ensures
        bytes_order(a, c) <= 0,
    decreases a.len(),
{
    if a.len() > 0 && b.len() > 0 && c.len() > 0 && a[0] == b[0] && b[0] == c[0] {
        lemma_bytes_order_transitive(a.drop_first(), b.drop_first(), c.drop_first());
    }
}

/// Order keys compare as the integers they are.
pub proof fn lemma_key_order_is_integer_order(a: u32, b: u32)
    ensures
        key_order(a, b) < 0 <==> a < b,
        key_order(a, b) > 0 <==> a > b,
        key_order(a, b) == 0 <==> a == b,
{
}

/// Byte strings compare lexicographically: equal strings tie; at the first
/// position where they differ the smaller byte comes first; a proper prefix
/// comes before the longer string.
pub proof fn lemma_bytes_order_lexicographic(a: Seq<u8>, b: Seq<u8>)
    ensures
        a == b ==> bytes_order(a, b) == 0,
        forall|k: int|
            0 <= k < a.len() && k < b.len() && a.take(k) == b.take(k) && #[trigger] a[k] < #[trigger] b[k]
                ==> bytes_order(a, b) == -1,
        forall|k: int|
            0 <= k < a.len() && k < b.len() && a.take(k) == b.take(k) && #[trigger] a[k] > #[trigger] b[k]
                ==> bytes_order(a, b) == 1,
        a.len() < b.len() && a == b.take(a.len() as int) ==> bytes_order(a, b) == -1,
        b.len() < a.len() && b == a.take(b.len() as int) ==> bytes_order(a, b) == 1,
    decreases a.len(),
{
    if a.len() > 0 && b.len() > 0 {
        let (ra, rb) = (a.drop_first(), b.drop_first());
        lemma_bytes_order_lexicographic(ra, rb);
        assert forall|k: int|
            0 <= k < a.len() && k < b.len() && a.take(k) == b.take(k) && #[trigger] a[k] != #[trigger] b[k]
                implies bytes_order(a, b) == (if a[k] < b[k] {
            -1int
        } else {
            1int
        }) by {
            if k > 0 {
                assert(a[0] == a.take(k)[0]);
                assert(b[0] == b.take(k)[0]);
                assert(ra.take(k - 1) =~= a.take(k).drop_first());
                assert(rb.take(k - 1) =~= b.take(k).drop_first());
                assert(ra[k - 1] == a[k]);
                assert(rb[k - 1] == b[k]);
            }
        }
        if a.len() < b.len() && a == b.take(a.len() as int) {
            assert(a[0] == b[0]);
            assert(ra =~= rb.take(ra.len() as int));
        }
        if b.len() < a.len() && b == a.take(b.len() as int) {
            assert(a[0] == b[0]);
            assert(rb =~= ra.take(rb.len() as int));
        }
        if a == b {
            assert(ra == rb);
        }
    }
}

/// Packages are ranked by net score first, then ramp-up, correctness, bus
/// factor, responsiveness and license, then by URL and `owner/repo` bytes: the
/// first component in which two packages differ decides, and the larger one
/// comes first in the report.
pub proof fn lemma_rank_order_lexicographic(a: RankSpec, b: RankSpec)
    ensures
        a.net_score > b.net_score ==> rank_order(a, b) == 1,
        a.net_score < b.net_score ==> rank_order(a, b) == -1,
        a.net_score == b.net_score ==> {
            &&& a.ramp_up > b.ramp_up ==> rank_order(a, b) == 1
            &&& a.ramp_up < b.ramp_up ==> rank_order(a, b) == -1
        },
        a.net_score == b.net_score && a.ramp_up == b.ramp_up ==> {
            &&& a.correctness > b.correctness ==> rank_order(a, b) == 1
            &&& a.correctness < b.correctness ==> rank_order(a, b) == -1
        },
        a.net_score == b.net_score && a.ramp_up == b.ramp_up && a.correctness == b.correctness ==> {
            &&& a.bus_factor > b.bus_factor ==> rank_order(a, b) == 1
            &&& a.bus_factor < b.bus_factor ==> rank_order(a, b) == -1
        },
        a.net_score == b.net_score && a.ramp_up == b.ramp_up && a.correctness == b.correctness
            && a.bus_factor == b.bus_factor ==> {
            &&& a.responsiveness > b.responsiveness ==> rank_order(a, b) == 1
            &&& a.responsiveness < b.responsiveness ==> rank_order(a, b) == -1
        },
        a.net_score == b.net_score && a.ramp_up == b.ramp_up && a.correctness == b.correctness
            && a.bus_factor == b.bus_factor && a.responsiveness == b.responsiveness ==> {
            &&& a.license > b.license ==> rank_order(a, b) == 1
            &&& a.license < b.license ==> rank_order(a, b) == -1
        },
        a.net_score == b.net_score && a.ramp_up == b.ramp_up && a.correctness == b.correctness
            && a.bus_factor == b.bus_factor && a.responsiveness == b.responsiveness && a.license
            == b.license ==> {
            &&& a.url != b.url ==> rank_order(a, b) == bytes_order(
                encode_utf8(a.url),
                encode_utf8(b.url),
            )
            &&& a.url == b.url ==> rank_order(a, b) == bytes_order(
                encode_utf8(a.owner_repo),
                encode_utf8(b.owner_repo),
            )
        },
{
    lemma_bytes_order_props(encode_utf8(a.url), encode_utf8(b.url));
    if a.url != b.url {
        vstd::utf8::encode_utf8_decode_utf8(a.url);
        vstd::utf8::encode_utf8_decode_utf8(b.url);
    }
}

/// Ranks compare antisymmetrically, and a tie means equal ranking components.
pub proof fn lemma_rank_order_antisymmetric(a: RankSpec, b: RankSpec)
    ensures
        -1 <= rank_order(a, b) <= 1,
        rank_order(a, b) == -rank_order(b, a),
        rank_order(a, a) == 0,
{
    lemma_bytes_order_props(encode_utf8(a.url), encode_utf8(b.url));
    lemma_bytes_order_props(encode_utf8(a.owner_repo), encode_utf8(b.owner_repo));
    lemma_bytes_order_props(encode_utf8(a.url), encode_utf8(a.url));
    lemma_bytes_order_props(encode_utf8(a.owner_repo), encode_utf8(a.owner_repo));
}

/// Ranking is transitive: the order in which packages are reported is a total preorder.
pub proof fn lemma_rank_order_transitive(a: RankSpec, b: RankSpec, c: RankSpec)
    requires
        rank_order(a, b) <= 0,
        rank_order(b, c) <= 0,
    ensures
        rank_order(a, c) <= 0,
{
    let (ua, ub, uc) = (encode_utf8(a.url), encode_utf8(b.url), encode_utf8(c.url));
    let (oa, ob, oc) = (
        encode_utf8(a.owner_repo),
        encode_utf8(b.owner_repo),
        encode_utf8(c.owner_repo),
    );
    lemma_bytes_order_props(ua, ub);
    lemma_bytes_order_props(ub, uc);
    lemma_bytes_order_props(ua, uc);
    lemma_bytes_order_props(oa, ob);
    lemma_bytes_order_props(ob, oc);
    lemma_bytes_order_props(oa, oc);
    if bytes_order(ua, ub) <= 0 && bytes_order(ub, uc) <= 0 {
        lemma_bytes_order_transitive(ua, ub, uc);
    }
    if bytes_order(oa, ob) <= 0 && bytes_order(ob, oc) <= 0 {
        lemma_bytes_order_transitive(oa, ob, oc);
    }
}

fn compare_keys(a: u32, b: u32) -> (c: i8)
    ensures
        c == key_order(a, b),
{
    if a < b {
        -1
    } else if a > b {
        1
    } else {
        0
    }
}

/// Compares two strings as the bytes of their UTF-8 text.
pub fn compare_text(a: &str, b: &str) -> (c: i8)
    ensures
        c == bytes_order(encode_utf8(a@), encode_utf8(b@)),
{
    let x = a.as_bytes();
    let y = b.as_bytes();
    let ghost (sx, sy) = (x@, y@);
    let mut i: usize = 0;
    assert(sx.skip(0) =~= sx);
    assert(sy.skip(0) =~= sy);
    while i < x.len() && i < y.len()
        invariant
            i <= x@.len(),
            i <= y@.len(),
            sx == x@,
            sy == y@,
            sx == encode_utf8(a@),
            sy == encode_utf8(b@),
            bytes_order(sx, sy) == bytes_order(sx.skip(i as int), sy.skip(i as int)),
        decreases x@.len() - i,
    {
        assert(sx.skip(i as int).drop_first() =~= sx.skip(i + 1));
        assert(sy.skip(i as int).drop_first() =~= sy.skip(i + 1));
        assert(sx.skip(i as int)[0] == x@[i as int]);
        assert(sy.skip(i as int)[0] == y@[i as int]);
        if x[i] < y[i] {
            return -1;
        } else if x[i] > y[i] {
            return 1;
        }
        i = i + 1;
    }
    if i < x.len() {
        1
    } else if i < y.len() {
        -1
    } else {
        0
    }
}

/// Compares two ranked packages: 1 when `a` comes before `b` in the report.
pub fn compare_rank(a: &PackageRank, b: &PackageRank) -> (c: i8)
    ensures
        c == rank_order(a@, b@),
{
    let c = compare_keys(a.net_score, b.net_score);
    if c != 0 {
        return c;
    }
    let c = compare_keys(a.ramp_up, b.ramp_up);
    if c != 0 {
        return c;
    }
    let c = compare_keys(a.correctness, b.correctness);
    if c != 0 {
        return c;
    }
    let c = compare_keys(a.bus_factor, b.bus_factor);
    if c != 0 {
        return c;
    }
    let c = compare_keys(a.responsiveness, b.responsiveness);
    if c != 0 {
        return c;
    }
    let c = compare_keys(a.license, b.license);
    if c != 0 {
        return c;
    }
    let c = compare_text(a.url.url.as_str(), b.url.url.as_str());
    if c != 0 {
        return c;
    }
    compare_text(a.url.owner_repo.as_str(), b.url.owner_repo.as_str())
}

/// Two successive takes from a queue (each as `PackageQueue::pop` states it):
/// the package taken second never outranks the one taken first.
pub proof fn lemma_successive_takes(before: Multiset<RankSpec>, first: RankSpec, second: RankSpec)
    requires
        before.contains(first),
        forall|q: RankSpec| before.contains(q) ==> rank_order(q, first) <= 0,
        before.remove(first).contains(second),
    ensures
        rank_order(second, first) <= 0,
{
    broadcast use vstd::multiset::group_multiset_axioms;

    assert(before.contains(second));
}

/// A package pushed onto an empty queue is the one taken out again, and the
/// queue is empty afterwards.
pub proof fn lemma_push_then_take(pushed: RankSpec, taken: RankSpec)
    requires
        Multiset::<RankSpec>::empty().insert(pushed).contains(taken),
    ensures
        taken == pushed,
        Multiset::<RankSpec>::empty().insert(pushed).remove(taken) == Multiset::<RankSpec>::empty(),
{
    assert(Multiset::<RankSpec>::empty().insert(pushed).remove(taken) =~= Multiset::<RankSpec>::empty());
}

/// The rankings of a sequence of packages.
pub open spec fn rank_views(items: Seq<PackageRank>) -> Seq<RankSpec> {
    items.map_values(|p: PackageRank| p@)
}

/// Packages waiting to be reported; taking one out always takes a best one.
pub struct PackageQueue {
    items: Vec<PackageRank>,
}

impl View for PackageQueue {
    type V = Multiset<RankSpec>;

    closed spec fn view(&self) -> Multiset<RankSpec> {
        rank_views(self.items@).to_multiset()
    }
}

impl PackageQueue {
    /// An empty queue.
    pub fn new() -> (queue: PackageQueue)
        ensures
            queue@ == Multiset::<RankSpec>::empty(),
    {
        broadcast use vstd::seq_lib::group_to_multiset_ensures;

        let queue = PackageQueue { items: Vec::new() };
        assert(rank_views(queue.items@) =~= Seq::<RankSpec>::empty());
        assert(queue@ =~= Multiset::<RankSpec>::empty());
        queue
    }

    /// How many packages wait.
    pub fn len(&self) -> (n: usize)
        ensures
            n == self@.len(),
    {
        broadcast use vstd::seq_lib::group_to_multiset_ensures;

        self.items.len()
    }

    /// Whether no package waits.
    pub fn is_empty(&self) -> (empty: bool)
        ensures
            empty == (self@.len() == 0),
    {
        self.len() == 0
    }

    /// Adds a package.
    pub fn push(&mut self, package: PackageRank)
        ensures
            final(self)@ == old(self)@.insert(package@),
    {
        let ghost before = rank_views(self.items@);
        self.items.push(package);
        proof {
            assert(rank_views(self.items@) =~= before.push(package@));
            to_multiset_build(before, package@);
        }
    }

    /// Takes out a package that no waiting package outranks; `None` when none waits.
    pub fn pop(&mut self) -> (top: Option<PackageRank>)
        ensures
            match top {
                None => old(self)@.len() == 0 && final(self)@ == old(self)@,
                Some(p) => {
                    &&& old(self)@.contains(p@)
                    &&& final(self)@ == old(self)@.remove(p@)
                    &&& forall|q: RankSpec| old(self)@.contains(q) ==> rank_order(q, p@) <= 0
                },
            },
    {
        broadcast use vstd::seq_lib::group_to_multiset_ensures;

        let n = self.items.len();
        if n == 0 {
            return None;
        }
        let ghost views = rank_views(self.items@);
        let mut best: usize = 0;
        let mut i: usize = 1;
        proof {
            lemma_rank_order_antisymmetric(views[0], views[0]);
        }
        while i < n
            invariant
                n == self.items@.len(),
                views == rank_views(self.items@),
                best < i <= n,
                forall|j: int| 0 <= j < i ==> rank_order(#[trigger] views[j], views[best as int]) <= 0,
            decreases n - i,
        {
            if compare_rank(&self.items[i], &self.items[best]) > 0 {
                proof {
                    lemma_rank_order_antisymmetric(views[i as int], views[best as int]);
                    lemma_rank_order_antisymmetric(views[i as int], views[i as int]);
                    assert forall|j: int| 0 <= j < i + 1 implies rank_order(
                        #[trigger] views[j],
                        views[i as int],
                    ) <= 0 by {
                        if j < i {
                            lemma_rank_order_transitive(views[j], views[best as int], views[i as int]);
                        }
                    }
                }
                best = i;
            }
            i = i + 1;
        }
        let top = self.items.remove(best);
        proof {
            assert(rank_views(self.items@) =~= views.remove(best as int));
            to_multiset_remove(views, best as int);
            assert forall|q: RankSpec| rank_views(old(self).items@).to_multiset().contains(q) implies rank_order(
                q,
                top@,
            ) <= 0 by {
                assert(views.contains(q));
                let j = choose|j: int| 0 <= j < views.len() && views[j] == q;
                assert(rank_order(views[j], views[best as int]) <= 0);
            }
        }
        Some(top)
    }

    /// Takes out every package, best first.
    pub fn drain_best_first(self) -> (ranked: Vec<PackageRank>)
        ensures
            rank_views(ranked@).to_multiset() == self@,
            forall|i: int, j: int|
                0 <= i < j < ranked@.len() ==> rank_order(ranked@[j]@, ranked@[i]@) <= 0,
    {
        broadcast use vstd::seq_lib::group_to_multiset_ensures;

        let ghost all = self@;
        let mut queue = self;
        let mut ranked: Vec<PackageRank> = Vec::new();
        assert(rank_views(ranked@) =~= Seq::<RankSpec>::empty());
        assert(all =~= rank_views(ranked@).to_multiset().add(queue@));
        while !queue.is_empty()
            invariant
                all == rank_views(ranked@).to_multiset().add(queue@),
                forall|i: int, j: int|
                    0 <= i < j < ranked@.len() ==> rank_order(ranked@[j]@, ranked@[i]@) <= 0,
                forall|i: int, q: RankSpec|
                    0 <= i < ranked@.len() && queue@.contains(q) ==> rank_order(q, ranked@[i]@) <= 0,
            decreases queue@.len(),
        {
            let ghost before = queue@;
            let ghost done = rank_views(ranked@);
            match queue.pop() {
                Some(top) => {
                    ranked.push(top);
                    proof {
                        assert(rank_views(ranked@) =~= done.push(top@));
                        to_multiset_build(done, top@);
                        assert(all =~= rank_views(ranked@).to_multiset().add(queue@));
                        assert forall|i: int, q: RankSpec|
                            0 <= i < ranked@.len() && queue@.contains(q) implies rank_order(
                            q,
                            ranked@[i]@,
                        ) <= 0 by {
                            assert(before.contains(q));
                        }
                        assert forall|i: int, j: int|
                            0 <= i < j < ranked@.len() implies rank_order(
                            ranked@[j]@,
                            ranked@[i]@,
                        ) <= 0 by {
                            if j == ranked@.len() - 1 {
                                assert(before.contains(top@));
                            }
                        }
                    }
                },
                None => {},
            }
        }
        ranked
    }
}

} // verus!
