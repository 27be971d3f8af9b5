//! The order in which resolved paths are listed: character by character, a
//! prefix before its extensions. It is the order the standard library gives
//! to strings.

use vstd::prelude::*;
use vstd::relations::{sorted_by, total_ordering};
use vstd::seq_lib::{lemma_sorted_unique, to_multiset_build, to_multiset_insert};
use vstd::string::*;
use crate::text::{chars_of, texts};

verus! {

/// The rank of a character: its scalar value.
pub open spec fn rank(c: char) -> int {
    c as u32 as int
}

/// `a` and `b` hold the same characters at every position before `k`.
pub open spec fn agree(a: Seq<char>, b: Seq<char>, k: int) -> bool {
    &&& 0 <= k <= a.len()
    &&& k <= b.len()
    &&& forall|j: int| 0 <= j < k ==> a[j] == b[j]
}

/// `a` is listed no later than `b`: `a` is a prefix of `b`, or `a` holds the
/// character of lesser rank at the first position where the two differ.
pub open spec fn precedes(a: Seq<char>, b: Seq<char>) -> bool {
    ||| agree(a, b, a.len() as int)
    ||| exists|k: int|
        #[trigger] agree(a, b, k) && k < a.len() && k < b.len() && rank(a[k]) < rank(b[k])
}

/// Every entry of `list` is listed no later than the entries after it.
pub open spec fn sorted(list: Seq<Seq<char>>) -> bool {
    forall|i: int, j: int|
        0 <= i < j < list.len() ==> precedes(#[trigger] list[i], #[trigger] list[j])
}

/// `out` holds the entries of `list`, each as often as `list` does, in
/// listing order.
pub open spec fn is_sorted_arrangement(out: Seq<Seq<char>>, list: Seq<Seq<char>>) -> bool {
    sorted(out) && out.to_multiset() == list.to_multiset()
}

/// [`precedes`] as a relation value.
pub open spec fn listing_order() -> spec_fn(Seq<char>, Seq<char>) -> bool {
    |a: Seq<char>, b: Seq<char>| precedes(a, b)
}

/// Two characters of one rank are one character.
proof fn lemma_rank_injective(x: char, y: char)
    requires
        rank(x) == rank(y),
    ensures
        x == y,
{
    assert(x as u32 as char == x);
    assert(y as u32 as char == y);
}

/// Of two sequences that agree before `k`, one precedes the other.
proof fn lemma_comparable_from(a: Seq<char>, b: Seq<char>, k: int)
    requires
        agree(a, b, k),
    ensures
        precedes(a, b) || precedes(b, a),
    decreases a.len() - k,
{
    if k == a.len() {
    } else if k == b.len() {
        assert(agree(b, a, b.len() as int));
    } else if a[k] == b[k] {
        lemma_comparable_from(a, b, k + 1);
    } else {
        assert(agree(b, a, k));
        if rank(a[k]) == rank(b[k]) {
            lemma_rank_injective(a[k], b[k]);
        }
    }
}

/// Any two sequences are comparable.
pub proof fn lemma_precedes_total(a: Seq<char>, b: Seq<char>)
    ensures
        precedes(a, b) || precedes(b, a),
{
    lemma_comparable_from(a, b, 0);
}

/// Two sequences that precede each other are equal.
pub proof fn lemma_precedes_antisymmetric(a: Seq<char>, b: Seq<char>)
    requires
        precedes(a, b),
        precedes(b, a),
    ensures
        a == b,
{
    if agree(a, b, a.len() as int) && agree(b, a, b.len() as int) {
        assert(a =~= b);
    } else if agree(a, b, a.len() as int) {
        let k = choose|k: int| #[trigger]
            agree(b, a, k) && k < b.len() && k < a.len() && rank(b[k]) < rank(a[k]);
        assert(a[k] == b[k]);
    } else if agree(b, a, b.len() as int) {
        let k = choose|k: int| #[trigger]
            agree(a, b, k) && k < a.len() && k < b.len() && rank(a[k]) < rank(b[k]);
        assert(b[k] == a[k]);
    } else {
        let k = choose|k: int| #[trigger]
            agree(a, b, k) && k < a.len() && k < b.len() && rank(a[k]) < rank(b[k]);
        let m = choose|m: int| #[trigger]
            agree(b, a, m) && m < b.len() && m < a.len() && rank(b[m]) < rank(a[m]);
        if k < m {
            assert(b[k] == a[k]);
        } else if m < k {
            assert(a[m] == b[m]);
        }
    }
}

/// What precedes a sequence also precedes whatever that sequence precedes.
pub proof fn lemma_precedes_transitive(a: Seq<char>, b: Seq<char>, c: Seq<char>)
    requires
        precedes(a, b),
        precedes(b, c),
    ensures
        precedes(a, c),
{
    let ab = agree(a, b, a.len() as int);
    let bc = agree(b, c, b.len() as int);
    if ab && bc {
        assert(agree(a, c, a.len() as int));
    } else if ab {
        let m = choose|m: int| #[trigger]
            agree(b, c, m) && m < b.len() && m < c.len() && rank(b[m]) < rank(c[m]);
        if m < a.len() {
            assert(agree(a, c, m));
            assert(a[m] == b[m]);
        } else {
            assert(agree(a, c, a.len() as int));
        }
    } else if bc {
        let k = choose|k: int| #[trigger]
            agree(a, b, k) && k < a.len() && k < b.len() && rank(a[k]) < rank(b[k]);
        assert(agree(a, c, k));
        assert(b[k] == c[k]);
    } else {
        let k = choose|k: int| #[trigger]
            agree(a, b, k) && k < a.len() && k < b.len() && rank(a[k]) < rank(b[k]);
        let m = choose|m: int| #[trigger]
            agree(b, c, m) && m < b.len() && m < c.len() && rank(b[m]) < rank(c[m]);
        if k < m {
            assert(agree(a, c, k));
            assert(b[k] == c[k]);
        } else if m < k {
            assert(agree(a, c, m));
            assert(a[m] == b[m]);
        } else {
            assert(agree(a, c, k));
        }
    }
}

/// The listing order is a total order on character sequences.
pub proof fn lemma_listing_order_total()
    ensures
        total_ordering(listing_order()),
{
    let order = listing_order();
    assert forall|x: Seq<char>| #[trigger] order(x, x) by {
        assert(agree(x, x, x.len() as int));
    }
    assert forall|x: Seq<char>, y: Seq<char>| #[trigger] order(x, y) && #[trigger] order(y, x)
        implies x == y by {
        lemma_precedes_antisymmetric(x, y);
    }
    assert forall|x: Seq<char>, y: Seq<char>, z: Seq<char>| #[trigger]
        order(x, y) && #[trigger] order(y, z) implies order(x, z) by {
        lemma_precedes_transitive(x, y, z);
    }
    assert forall|x: Seq<char>, y: Seq<char>| #[trigger] order(x, y) || #[trigger] order(y, x) by {
        lemma_precedes_total(x, y);
    }
}

/// A list has exactly one sorted arrangement: two sorted lists that hold the
/// same entries, each equally often, are the same list.
pub proof fn law_sorted_arrangement_unique(x: Seq<Seq<char>>, y: Seq<Seq<char>>)
    requires
        sorted(x),
        sorted(y),
        x.to_multiset() == y.to_multiset(),
    ensures
        x == y,
{
    lemma_listing_order_total();
    assert(sorted_by(x, listing_order()));
    assert(sorted_by(y, listing_order()));
    lemma_sorted_unique(x, y, listing_order());
}

/// Whether `a` is listed no later than `b`.
pub fn comes_before(a: &[char], b: &[char]) -> (yes: bool)
    ensures
        yes == precedes(a@, b@),
{
    let mut i: usize = 0;
    while i < a.len() && i < b.len()
        invariant
            agree(a@, b@, i as int),
        decreases a.len() - i,
    {
        if a[i] != b[i] {
            let before = (a[i] as u32) < (b[i] as u32);
            proof {
                if before {
                    assert(precedes(a@, b@));
                } else {
                    assert(agree(b@, a@, i as int));
                    if rank(a@[i as int]) == rank(b@[i as int]) {
                        lemma_rank_injective(a@[i as int], b@[i as int]);
                    }
                    assert(precedes(b@, a@));
                    if precedes(a@, b@) {
                        lemma_precedes_antisymmetric(a@, b@);
                    }
                }
            }
            return before;
        }
        i += 1;
    }
    if i == a.len() {
        true
    } else {
        proof {
            assert(agree(b@, a@, b@.len() as int));
            if precedes(a@, b@) {
                lemma_precedes_antisymmetric(a@, b@);
            }
        }
        false
    }
}

/// The paths of `paths` in listing order, each kept as often as it occurs.
pub fn sorted_paths(paths: &[String]) -> (out: Vec<String>)
    ensures
        is_sorted_arrangement(texts(out@), texts(paths@)),
{
    let mut out: Vec<String> = Vec::new();
    let mut keys: Vec<Vec<char>> = Vec::new();
    let mut i: usize = 0;
    assert(texts(paths@).take(0) =~= texts(out@));
    while i < paths.len()
        invariant
            i <= paths.len(),
            keys.len() == out.len(),
            forall|j: int| 0 <= j < out.len() ==> (#[trigger] keys@[j])@ == out@[j]@,
            sorted(texts(out@)),
            texts(out@).to_multiset() == texts(paths@).take(i as int).to_multiset(),
        decreases paths.len() - i,
    {
        let key = chars_of(paths[i].as_str());
        let mut at: usize = 0;
        while at < keys.len() && comes_before(&keys[at], &key)
            invariant
                at <= keys.len(),
                keys.len() == out.len(),
                forall|j: int| 0 <= j < out.len() ==> (#[trigger] keys@[j])@ == out@[j]@,
                forall|j: int| 0 <= j < at ==> precedes(#[trigger] texts(out@)[j], key@),
            decreases keys.len() - at,
        {
            at += 1;
        }
        let ghost before = texts(out@);
        let ghost taken = texts(paths@).take(i as int);
        proof {
            assert forall|j: int| at <= j < before.len() implies precedes(
                key@,
                #[trigger] before[j],
            ) by {
                lemma_precedes_total(before[at as int], key@);
                if j > at {
                    lemma_precedes_transitive(key@, before[at as int], before[j]);
                }
            }
        }
        out.insert(at, paths[i].clone());
        keys.insert(at, key);
        proof {
            let after = texts(out@);
            assert(after =~= before.insert(at as int, key@));
            assert(texts(paths@).take(i as int + 1) =~= taken.push(key@));
            to_multiset_insert(before, at as int, key@);
            to_multiset_build(taken, key@);
            assert forall|x: int, y: int| 0 <= x < y < after.len() implies precedes(
                #[trigger] after[x],
                #[trigger] after[y],
            ) by {
                if y < at {
                    assert(after[x] == before[x] && after[y] == before[y]);
                } else if y == at {
                    assert(after[x] == before[x]);
                } else if x < at {
                    assert(after[x] == before[x] && after[y] == before[y - 1]);
                } else if x == at {
                    assert(after[y] == before[y - 1]);
                } else {
                    assert(after[x] == before[x - 1] && after[y] == before[y - 1]);
                }
            }
        }
        i += 1;
    }
    assert(texts(paths@).take(paths.len() as int) =~= texts(paths@));
    out
}

} // verus!
