//! Sorted, paginated listings of entity IDs.
use vstd::prelude::*;

verus! {

/// The sequence is sorted in strictly increasing order.
pub open spec fn strictly_increasing(s: Seq<u64>) -> bool {
    forall|i: int, j: int| 0 <= i < j < s.len() ==> s[i] < s[j]
}

/// The listing of a finite set of IDs in increasing order.
pub open spec fn sorted_listing(ids: Set<u64>) -> Seq<u64> {
    choose|s: Seq<u64>| strictly_increasing(s) && s.to_set() == ids
}

/// The entries of page `page` of `s`, with `limit` entries per page.
pub open spec fn page_of(s: Seq<u64>, page: int, limit: int) -> Seq<u64> {
    let start = if page * limit < s.len() { page * limit } else { s.len() as int };
    let end = if start + limit < s.len() { start + limit } else { s.len() as int };
    s.subrange(start, end)
}

/// With a positive page size, every entry of a listing appears on page
/// `i / limit`, at position `i % limit`, of that listing.
pub proof fn law_every_entry_on_its_page(s: Seq<u64>, limit: int, i: int)
    requires
        0 < limit,
        0 <= i < s.len(),
    ensures
        page_of(s, i / limit, limit).len() > i % limit,
        page_of(s, i / limit, limit)[i % limit] == s[i],
{
    vstd::arithmetic::div_mod::lemma_fundamental_div_mod(i, limit);
    vstd::arithmetic::div_mod::lemma_mod_bound(i, limit);
    let q = i / limit;
    let r = i % limit;
    assert(q * limit == limit * q) by (nonlinear_arith);
    assert(q * limit + r == i);
    assert(0 <= r < limit);
    let page = page_of(s, q, limit);
    assert(page[r] == s[q * limit + r]);
}

/// Two strictly increasing sequences with the same elements are equal.
pub proof fn lemma_sorted_listing_unique(a: Seq<u64>, b: Seq<u64>)
    requires
        strictly_increasing(a),
        strictly_increasing(b),
        a.to_set() == b.to_set(),
    ensures
        a == b,
    decreases a.len(),
{
    if a.len() == 0 {
        if b.len() > 0 {
            assert(b.to_set().contains(b[0]));
            assert(a.to_set().contains(b[0]));
        }
        assert(a =~= b);
    } else {
        assert(a.to_set().contains(a[0]));
        assert(b.to_set().contains(a[0]));
        let j = choose|j: int| 0 <= j < b.len() && b[j] == a[0];
        assert(b.to_set().contains(b[0]));
        assert(a.to_set().contains(b[0]));
        let k = choose|k: int| 0 <= k < a.len() && a[k] == b[0];
        if j > 0 {
            assert(b[0] < b[j]);
            if k > 0 {
                assert(a[0] < a[k]);
            }
            assert(false);
        }
        assert(b[0] == a[0]);
        let a1 = a.drop_first();
        let b1 = b.drop_first();
        assert forall|x: u64| a1.to_set().contains(x) <==> b1.to_set().contains(x) by {
            if a1.to_set().contains(x) {
                let i = choose|i: int| 0 <= i < a1.len() && a1[i] == x;
                assert(a[i + 1] == x);
                assert(a.to_set().contains(x));
                assert(b.to_set().contains(x));
                let m = choose|m: int| 0 <= m < b.len() && b[m] == x;
                assert(x != a[0]);
                assert(m != 0);
                assert(b1[m - 1] == x);
            }
            if b1.to_set().contains(x) {
                let i = choose|i: int| 0 <= i < b1.len() && b1[i] == x;
                assert(b[i + 1] == x);
                assert(b.to_set().contains(x));
                assert(a.to_set().contains(x));
                let m = choose|m: int| 0 <= m < a.len() && a[m] == x;
                assert(x != b[0]);
                assert(m != 0);
                assert(a1[m - 1] == x);
            }
        }
        assert(a1.to_set() =~= b1.to_set());
        lemma_sorted_listing_unique(a1, b1);
        assert(a =~= seq![a[0]].add(a1));
        assert(b =~= seq![b[0]].add(b1));
    }
}

/// Any strictly increasing listing of a set is its sorted listing.
pub proof fn lemma_is_sorted_listing(s: Seq<u64>)
    requires
        strictly_increasing(s),
    ensures
        sorted_listing(s.to_set()) == s,
{
    let t = sorted_listing(s.to_set());
    assert(strictly_increasing(t) && t.to_set() == s.to_set());
    lemma_sorted_listing_unique(t, s);
}

/// Inserts `x`, which `s` does not contain, into the strictly increasing
/// vector `s` at its place.
pub fn insert_sorted(s: &mut Vec<u64>, x: u64)
    requires
        strictly_increasing(old(s)@),
        !old(s)@.contains(x),
    ensures
        strictly_increasing(final(s)@),
        final(s)@.to_set() == old(s)@.to_set().insert(x),
        final(s)@.len() == old(s)@.len() + 1,
{
    let mut p: usize = 0;
    while p < s.len() && s[p] < x
        invariant
            0 <= p <= s@.len(),
            s@ == old(s)@,
            forall|i: int| 0 <= i < p ==> s@[i] < x,
        decreases s@.len() - p,
    {
        p = p + 1;
    }
    let ghost before = s@;
    proof {
        if p < before.len() {
            assert(before[p as int] != x);
        }
    }
    s.insert(p, x);
    proof {
        let after = s@;
        assert(after == before.insert(p as int, x));
        assert forall|i: int, j: int| 0 <= i < j < after.len() implies after[i] < after[j] by {
            if j < p {
            } else if j == p {
            } else if i < p {
                assert(after[j] == before[j - 1]);
                if j - 1 >= p {
                    assert(before[p as int] > x);
                    if j - 1 > p {
                        assert(before[p as int] < before[j - 1]);
                    }
                }
            } else if i == p {
                assert(after[j] == before[j - 1]);
                assert(before[p as int] > x);
                if j - 1 > p {
                    assert(before[p as int] < before[j - 1]);
                }
            } else {
                assert(after[i] == before[i - 1]);
                assert(after[j] == before[j - 1]);
            }
        }
        assert forall|y: u64| after.to_set().contains(y) <==> before.to_set().insert(x).contains(y) by {
            if after.to_set().contains(y) {
                let k = choose|k: int| 0 <= k < after.len() && after[k] == y;
                if k < p {
                    assert(before[k] == y);
                } else if k > p {
                    assert(before[k - 1] == y);
                }
            }
            if before.to_set().contains(y) {
                let k = choose|k: int| 0 <= k < before.len() && before[k] == y;
                if k < p {
                    assert(after[k] == y);
                } else {
                    assert(after[k + 1] == y);
                }
            }
            if y == x {
                assert(after[p as int] == x);
            }
        }
        assert(after.to_set() =~= before.to_set().insert(x));
    }
}

/// Page `page` (with `limit` entries per page) of the strictly increasing
/// vector `sorted`.
pub fn page_window(sorted: &Vec<u64>, page: u64, limit: u64) -> (r: Vec<u64>)
    requires
        page * limit <= u64::MAX,
    ensures
        r@ == page_of(sorted@, page as int, limit as int),
{
    let len = sorted.len();
    let start_wide: u64 = page * limit;
    let start: usize = if start_wide < len as u64 {
        start_wide as usize
    } else {
        len
    };
    let end: usize = if (limit as u128) < ((len - start) as u128) {
        start + limit as usize
    } else {
        len
    };
    let mut out: Vec<u64> = Vec::new();
    let mut k: usize = start;
    while k < end
        invariant
            start <= k <= end <= len,
            len == sorted@.len(),
            out@ == sorted@.subrange(start as int, k as int),
        decreases end - k,
    {
        out.push(sorted[k]);
        proof {
            assert(sorted@.subrange(start as int, k + 1) =~= sorted@.subrange(start as int, k as int).push(
                sorted@[k as int],
            ));
        }
        k = k + 1;
    }
    out
}

} // verus!
