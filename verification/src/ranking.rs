//! Recall scoring that needs no arithmetic on reals: where a query occurs in an
//! entity, and the stable best-first order of scored candidates.
use vstd::prelude::*;
use crate::models::LexicalMatch;
use crate::text::{chars_of, contains, contains_text, lowercase, lowercase_of};

verus! {

/// Where the query occurs in an entity, comparing lower-case forms: in the name,
/// else in the content, else nowhere.
pub open spec fn lexical_of(query: Seq<char>, name: Seq<char>, content: Seq<char>) -> LexicalMatch {
    if contains_text(lowercase_of(name), lowercase_of(query)) {
        LexicalMatch::Name
    } else if contains_text(lowercase_of(content), lowercase_of(query)) {
        LexicalMatch::Content
    } else {
        LexicalMatch::Neither
    }
}

/// Where a query, already lower-cased and split into characters, occurs in an
/// entity with this name and content.
pub fn lexical_match_lowered(query_lower: &Vec<char>, name: &str, content: &str) -> (r: LexicalMatch)
    ensures
        forall|q: Seq<char>| lowercase_of(q) == query_lower@ ==> r == lexical_of(q, name@, content@),
{
    let name_lower = chars_of(lowercase(name).as_str());
    if contains(&name_lower, query_lower) {
        return LexicalMatch::Name;
    }
    let content_lower = chars_of(lowercase(content).as_str());
    if contains(&content_lower, query_lower) {
        LexicalMatch::Content
    } else {
        LexicalMatch::Neither
    }
}

/// Where `query` occurs in an entity with this name and content, ignoring case.
pub fn lexical_match(query: &str, name: &str, content: &str) -> (r: LexicalMatch)
    ensures
        r == lexical_of(query@, name@, content@),
{
    let q = chars_of(lowercase(query).as_str());
    lexical_match_lowered(&q, name, content)
}

/// Candidate `a` comes before candidate `b`: a higher key, or an equal key and an
/// earlier position (the order is stable).
pub open spec fn ranked_before(keys: Seq<i64>, a: int, b: int) -> bool {
    keys[a] > keys[b] || (keys[a] == keys[b] && a < b)
}

/// `order` lists positions of `keys` best first, each position at most once.
pub open spec fn ranked(keys: Seq<i64>, order: Seq<usize>) -> bool {
    &&& forall|i: int| 0 <= i < order.len() ==> #[trigger] order[i] < keys.len()
    &&& forall|i: int, j: int| 0 <= i < j < order.len() ==> ranked_before(keys, #[trigger] order[i] as int, #[trigger] order[j] as int)
}

/// The `limit` best positions of `keys`, best first, where a higher key is better and
/// equal keys keep their order: the stable descending sort of the candidates, cut
/// to `limit`.
pub fn rank_by_keys(keys: &Vec<i64>, limit: usize) -> (r: Vec<usize>)
    ensures
        r@.len() == if limit < keys@.len() { limit as int } else { keys@.len() as int },
        ranked(keys@, r@),
        forall|x: usize| x < keys@.len() && !r@.contains(x) ==> forall|i: int| 0 <= i < r@.len() ==> ranked_before(keys@, #[trigger] r@[i] as int, x as int),
{
    let n = keys.len();
    let mut order: Vec<usize> = Vec::new();
    let mut i: usize = 0;
    while i < n
        invariant
            n == keys@.len(),
            i <= n,
            order@.len() == i,
            ranked(keys@, order@),
            forall|j: int| 0 <= j < order@.len() ==> #[trigger] order@[j] < i,
            forall|x: usize| x < i ==> order@.contains(x),
        decreases n - i,
    {
        let mut p: usize = 0;
        while p < order.len() && keys[order[p]] >= keys[i]
            invariant
                n == keys@.len(),
                i < n,
                p <= order@.len(),
                ranked(keys@, order@),
                forall|j: int| 0 <= j < order@.len() ==> #[trigger] order@[j] < i,
                forall|j: int| 0 <= j < p ==> keys@[#[trigger] order@[j] as int] >= keys@[i as int],
            decreases order@.len() - p,
        {
            p = p + 1;
        }
        let ghost prev = order@;
        proof {
            assert forall|j: int| p <= j < prev.len() implies keys@[#[trigger] prev[j] as int] < keys@[i as int] by {
                if j > p {
                    assert(ranked_before(keys@, prev[p as int] as int, prev[j] as int));
                }
            }
        }
        order.insert(p, i);
        proof {
            assert(order@ =~= prev.subrange(0, p as int).push(i).add(prev.subrange(p as int, prev.len() as int)));
            assert forall|a: int, b: int| 0 <= a < b < order@.len() implies ranked_before(keys@, #[trigger] order@[a] as int, #[trigger] order@[b] as int) by {
                if b < p {
                    assert(order@[a] == prev[a] && order@[b] == prev[b]);
                } else if b == p {
                    assert(order@[a] == prev[a]);
                } else if a == p {
                    assert(order@[b] == prev[b - 1]);
                } else if a < p {
                    assert(order@[a] == prev[a] && order@[b] == prev[b - 1]);
                } else {
                    assert(order@[a] == prev[a - 1] && order@[b] == prev[b - 1]);
                }
            }
            assert forall|x: usize| x < i + 1 implies order@.contains(x) by {
                if x == i {
                    assert(order@[p as int] == x);
                } else {
                    assert(prev.contains(x));
                    let j = choose|j: int| 0 <= j < prev.len() && prev[j] == x;
                    if j < p {
                        assert(order@[j] == x);
                    } else {
                        assert(order@[j + 1] == x);
                    }
                }
            }
        }
        i = i + 1;
    }
    let ghost full = order@;
    let keep = if limit < n { limit } else { n };
    order.truncate(keep);
    proof {
        assert(order@ =~= full.subrange(0, keep as int));
        assert forall|x: usize| x < keys@.len() && !order@.contains(x) implies forall|i: int| 0 <= i < order@.len() ==> ranked_before(keys@, #[trigger] order@[i] as int, x as int) by {
            assert(full.contains(x));
            let j = choose|j: int| 0 <= j < full.len() && full[j] == x;
            if j < keep {
                assert(order@[j] == x);
            }
            assert forall|i: int| 0 <= i < order@.len() implies ranked_before(keys@, #[trigger] order@[i] as int, x as int) by {
                assert(order@[i] == full[i]);
            }
        }
    }
    order
}

} // verus!
