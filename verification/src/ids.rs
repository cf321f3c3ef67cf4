//! Identifier allocation: the lowest positive identifier that is not in use.

use vstd::prelude::*;

verus! {

/// `id` is positive, unused, and every positive identifier below it is used.
pub open spec fn is_lowest_free(used: Set<u32>, id: u32) -> bool {
    &&& id >= 1
    &&& !used.contains(id)
    &&& forall|k: u32| 1 <= k < id ==> used.contains(k)
}

/// The identifier that the next allocation hands out.
pub open spec fn lowest_free_id(used: Set<u32>) -> u32 {
    choose|id: u32| is_lowest_free(used, id)
}

/// Every identifier from 1 up to and including `n` is used.
pub open spec fn filled_up_to(used: Set<u32>, n: u32) -> bool {
    forall|k: u32| 1 <= k <= n ==> used.contains(k)
}

/// A set that holds all of `1..=n` has at least `n` elements.
pub proof fn lemma_filled_len(used: Set<u32>, n: u32)
    requires
        used.finite(),
        filled_up_to(used, n),
    ensures
        used.len() >= n,
    decreases n,
{
    if n > 0 {
        let rest = used.remove(n);
        assert(filled_up_to(rest, (n - 1) as u32));
        lemma_filled_len(rest, (n - 1) as u32);
    }
}

/// At most one identifier is the lowest free one.
pub proof fn lemma_lowest_free_unique(used: Set<u32>, a: u32, b: u32)
    requires
        is_lowest_free(used, a),
        is_lowest_free(used, b),
    ensures
        a == b,
{
    if a < b {
        assert(used.contains(a));
    } else if b < a {
        assert(used.contains(b));
    }
}

/// Naming the lowest free identifier: whichever identifier meets the
/// description is the one that `lowest_free_id` denotes.
pub proof fn lemma_lowest_free_is(used: Set<u32>, id: u32)
    requires
        is_lowest_free(used, id),
    ensures
        lowest_free_id(used) == id,
{
    lemma_lowest_free_unique(used, lowest_free_id(used), id);
}

/// Scanning upward from `from` finds the lowest free identifier, as long as
/// fewer than `u32::MAX` identifiers are used.
proof fn lemma_scan_finds(used: Set<u32>, from: u32)
    requires
        used.finite(),
        used.len() < u32::MAX,
        from >= 1,
        filled_up_to(used, (from - 1) as u32),
    ensures
        exists|id: u32| is_lowest_free(used, id),
    decreases u32::MAX - from,
{
    if used.contains(from) {
        assert(filled_up_to(used, from));
        lemma_filled_len(used, from);
        lemma_scan_finds(used, (from + 1) as u32);
    } else {
        assert(is_lowest_free(used, from));
    }
}

/// While fewer than `u32::MAX` identifiers are used, a lowest free one exists,
/// and `lowest_free_id` is it.
pub proof fn lemma_lowest_free_exists(used: Set<u32>)
    requires
        used.finite(),
        used.len() < u32::MAX,
    ensures
        is_lowest_free(used, lowest_free_id(used)),
{
    lemma_scan_finds(used, 1);
}

} // verus!
