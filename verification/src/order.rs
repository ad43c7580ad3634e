//! A deterministic ordering of pool positions by a key sequence.
//!
//! `key_order(keys)` lists the positions `0..keys.len()` sorted by ascending
//! key; positions with equal keys keep their own ascending order, so the
//! result is unique. The engine uses it twice: to assign ranks (with the
//! inverted score as the key) and to serve metrics sorted by rank.

use vstd::prelude::*;

verus! {

/// Position `a` comes strictly before position `b`: its key is smaller, or
/// the keys tie and `a` is the smaller position.
pub open spec fn pos_before(keys: Seq<u64>, a: int, b: int) -> bool {
    ||| keys[a] < keys[b]
    ||| (keys[a] == keys[b] && a < b)
}

/// Every listed position is a valid index into `keys`.
pub open spec fn positions_in_bounds(keys: Seq<u64>, ord: Seq<usize>) -> bool {
    forall|p: int| 0 <= p < ord.len() ==> (#[trigger] ord[p]) < keys.len()
}

/// The listed positions are strictly sorted by `pos_before`.
pub open spec fn positions_sorted(keys: Seq<u64>, ord: Seq<usize>) -> bool {
    forall|p: int, q: int|
        0 <= p < q < ord.len() ==> pos_before(keys, #[trigger] ord[p] as int, #[trigger] ord[q] as int)
}

/// `x` placed into an ordered list of positions, before the first entry it
/// precedes.
pub open spec fn place_pos(keys: Seq<u64>, ord: Seq<usize>, x: usize) -> Seq<usize>
    decreases ord.len(),
{
    if ord.len() == 0 {
        seq![x]
    } else if pos_before(keys, x as int, ord[0] as int) {
        seq![x] + ord
    } else {
        seq![ord[0]] + place_pos(keys, ord.drop_first(), x)
    }
}

/// The positions `0..n` ordered by ascending key.
pub open spec fn key_order_prefix(keys: Seq<u64>, n: int) -> Seq<usize>
    decreases n,
{
    if n <= 0 {
        Seq::empty()
    } else {
        place_pos(keys, key_order_prefix(keys, n - 1), (n - 1) as usize)
    }
}

/// All positions of `keys`, ordered by ascending key, ties by position.
pub open spec fn key_order(keys: Seq<u64>) -> Seq<usize> {
    key_order_prefix(keys, keys.len() as int)
}

proof fn lemma_place_pos(keys: Seq<u64>, ord: Seq<usize>, x: usize)
    requires
        positions_in_bounds(keys, ord),
        positions_sorted(keys, ord),
        x < keys.len(),
        forall|p: int| 0 <= p < ord.len() ==> (#[trigger] ord[p]) != x,
    ensures
        place_pos(keys, ord, x).len() == ord.len() + 1,
        positions_in_bounds(keys, place_pos(keys, ord, x)),
        positions_sorted(keys, place_pos(keys, ord, x)),
        forall|y: usize|
            #![trigger place_pos(keys, ord, x).contains(y)]
            #![trigger ord.contains(y)]
            place_pos(keys, ord, x).contains(y) <==> (ord.contains(y) || y == x),
    decreases ord.len(),
{
    let res = place_pos(keys, ord, x);
    if ord.len() == 0 {
        assert forall|y: usize| res.contains(y) <==> (ord.contains(y) || y == x) by {
            if y == x {
                assert(res[0] == x);
            }
        }
    } else if pos_before(keys, x as int, ord[0] as int) {
        assert(res == seq![x] + ord);
        assert forall|p: int, q: int|
            0 <= p < q < res.len() implies pos_before(keys, res[p] as int, res[q] as int) by {
            if p == 0 {
                if q > 1 {
                    assert(pos_before(keys, ord[0] as int, ord[q - 1] as int));
                }
            } else {
                assert(pos_before(keys, ord[p - 1] as int, ord[q - 1] as int));
            }
        }
        assert forall|y: usize| res.contains(y) <==> (ord.contains(y) || y == x) by {
            if res.contains(y) {
                let p = choose|p: int| 0 <= p < res.len() && res[p] == y;
                if p == 0 {
                } else {
                    assert(ord[p - 1] == y);
                }
            }
            if y == x {
                assert(res[0] == x);
            }
            if ord.contains(y) {
                let p = choose|p: int| 0 <= p < ord.len() && ord[p] == y;
                assert(res[p + 1] == y);
            }
        }
    } else {
        let rest = ord.drop_first();
        lemma_place_pos(keys, rest, x);
        let sub = place_pos(keys, rest, x);
        assert(res == seq![ord[0]] + sub);
        // the head precedes everything that follows it
        assert forall|p: int, q: int|
            0 <= p < q < res.len() implies pos_before(keys, res[p] as int, res[q] as int) by {
            if p == 0 {
                let y = res[q];
                assert(sub[q - 1] == y);
                assert(sub.contains(y));
                if y == x {
                    // x does not precede ord[0], and they are distinct positions
                    assert(pos_before(keys, ord[0] as int, x as int));
                } else {
                    assert(rest.contains(y));
                    let r = choose|r: int| 0 <= r < rest.len() && rest[r] == y;
                    assert(ord[r + 1] == y);
                    assert(pos_before(keys, ord[0] as int, ord[r + 1] as int));
                }
            } else {
                assert(pos_before(keys, sub[p - 1] as int, sub[q - 1] as int));
            }
        }
        assert forall|y: usize| res.contains(y) <==> (ord.contains(y) || y == x) by {
            if res.contains(y) {
                let p = choose|p: int| 0 <= p < res.len() && res[p] == y;
                if p == 0 {
                    assert(ord[0] == y);
                } else {
                    assert(sub[p - 1] == y);
                    assert(sub.contains(y));
                    if y != x {
                        assert(rest.contains(y));
                        let r = choose|r: int| 0 <= r < rest.len() && rest[r] == y;
                        assert(ord[r + 1] == y);
                    }
                }
            }
            if y == x || ord.contains(y) {
                if y == x {
                    assert(sub.contains(y));
                    let r = choose|r: int| 0 <= r < sub.len() && sub[r] == y;
                    assert(res[r + 1] == y);
                } else {
                    let p = choose|p: int| 0 <= p < ord.len() && ord[p] == y;
                    if p == 0 {
                        assert(res[0] == y);
                    } else {
                        assert(rest[p - 1] == y);
                        assert(rest.contains(y));
                        assert(sub.contains(y));
                        let r = choose|r: int| 0 <= r < sub.len() && sub[r] == y;
                        assert(res[r + 1] == y);
                    }
                }
            }
        }
    }
}

/// What `key_order_prefix(keys, n)` looks like: a strictly sorted listing of
/// exactly the positions `0..n`.
pub proof fn lemma_key_order_prefix(keys: Seq<u64>, n: int)
    requires
        0 <= n <= keys.len(),
        keys.len() <= usize::MAX,
    ensures
        key_order_prefix(keys, n).len() == n,
        positions_in_bounds(keys, key_order_prefix(keys, n)),
        positions_sorted(keys, key_order_prefix(keys, n)),
        forall|y: usize| key_order_prefix(keys, n).contains(y) <==> (y as int) < n,
    decreases n,
{
    if n > 0 {
        lemma_key_order_prefix(keys, n - 1);
        let prev = key_order_prefix(keys, n - 1);
        let x = (n - 1) as usize;
        assert forall|p: int| 0 <= p < prev.len() implies (#[trigger] prev[p]) != x by {
            assert(prev.contains(prev[p]));
        }
        lemma_place_pos(keys, prev, x);
        assert forall|y: usize| key_order_prefix(keys, n).contains(y) <==> (y as int) < n by {
            assert(key_order_prefix(keys, n) == place_pos(keys, prev, x));
            assert(place_pos(keys, prev, x).contains(y) <==> (prev.contains(y) || y == x));
            assert(prev.contains(y) <==> (y as int) < n - 1);
        }
    }
}

/// `key_order(keys)` is a permutation of the positions, strictly sorted by
/// ascending key with ties broken by position.
pub proof fn lemma_key_order(keys: Seq<u64>)
    requires
        keys.len() <= usize::MAX,
    ensures
        key_order(keys).len() == keys.len(),
        positions_in_bounds(keys, key_order(keys)),
        positions_sorted(keys, key_order(keys)),
        forall|y: usize| key_order(keys).contains(y) <==> (y as int) < keys.len(),
        key_order(keys).no_duplicates(),
{
    lemma_key_order_prefix(keys, keys.len() as int);
    let ord = key_order(keys);
    assert forall|p: int, q: int|
        0 <= p < ord.len() && 0 <= q < ord.len() && p != q implies ord[p] != ord[q] by {
        if p < q {
            assert(pos_before(keys, ord[p] as int, ord[q] as int));
        } else {
            assert(pos_before(keys, ord[q] as int, ord[p] as int));
        }
    }
}

/// Placing at the first position whose entry `x` precedes matches `place_pos`.
proof fn lemma_place_pos_at(keys: Seq<u64>, ord: Seq<usize>, x: usize, j: int)
    requires
        0 <= j <= ord.len(),
        forall|k: int| 0 <= k < j ==> !pos_before(keys, x as int, #[trigger] ord[k] as int),
        j == ord.len() || pos_before(keys, x as int, ord[j] as int),
    ensures
        place_pos(keys, ord, x) == ord.take(j) + seq![x] + ord.skip(j),
    decreases ord.len(),
{
    if ord.len() == 0 {
        assert(place_pos(keys, ord, x) =~= ord.take(j) + seq![x] + ord.skip(j));
    } else if j == 0 {
        assert(pos_before(keys, x as int, ord[0] as int));
        assert(place_pos(keys, ord, x) =~= ord.take(0) + seq![x] + ord.skip(0));
    } else {
        let rest = ord.drop_first();
        assert(!pos_before(keys, x as int, ord[0] as int));
        assert forall|k: int| 0 <= k < j - 1 implies !pos_before(
            keys,
            x as int,
            #[trigger] rest[k] as int,
        ) by {
            assert(rest[k] == ord[k + 1]);
        }
        if j < ord.len() {
            assert(rest[j - 1] == ord[j]);
        }
        lemma_place_pos_at(keys, rest, x, j - 1);
        assert(place_pos(keys, ord, x) =~= ord.take(j) + seq![x] + ord.skip(j));
    }
}

fn pos_before_exec(keys: &Vec<u64>, a: usize, b: usize) -> (r: bool)
    requires
        a < keys@.len(),
        b < keys@.len(),
    ensures
        r == pos_before(keys@, a as int, b as int),
{
    keys[a] < keys[b] || (keys[a] == keys[b] && a < b)
}

/// Computes `key_order(keys@)` by insertion.
pub fn compute_key_order(keys: &Vec<u64>) -> (ord: Vec<usize>)
    ensures
        ord@ == key_order(keys@),
{
    let n = keys.len();
    let mut ord: Vec<usize> = Vec::new();
    assert(ord@ =~= key_order_prefix(keys@, 0));
    for i in 0..n
        invariant
            n == keys@.len(),
            ord@ == key_order_prefix(keys@, i as int),
            ord@.len() == i,
            positions_in_bounds(keys@, ord@),
    {
        let mut j: usize = 0;
        while j < ord.len() && !pos_before_exec(keys, i, ord[j])
            invariant
                n == keys@.len(),
                i < n,
                ord@.len() <= n,
                positions_in_bounds(keys@, ord@),
                j <= ord@.len(),
                forall|k: int| 0 <= k < j ==> !pos_before(keys@, i as int, #[trigger] ord@[k] as int),
            decreases ord@.len() - j,
        {
            j += 1;
        }
        proof {
            lemma_place_pos_at(keys@, ord@, i, j as int);
            lemma_key_order_prefix(keys@, i as int);
        }
        ord.insert(j, i);
        assert(ord@ =~= key_order_prefix(keys@, i as int + 1));
    }
    ord
}

} // verus!
