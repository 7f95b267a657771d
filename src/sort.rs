//! The order of a listing: directories before files, larger before smaller.
use vstd::prelude::*;
use crate::entry::FileEntry;
use vstd::multiset::Multiset;

verus! {

broadcast use vstd::seq_lib::group_to_multiset_ensures;

/// `a` must come before `b`: a directory before a file, or within one group a
/// larger entry before a smaller one.
pub open spec fn goes_before(a: FileEntry, b: FileEntry) -> bool {
    (a.is_dir && !b.is_dir) || (a.is_dir == b.is_dir && a.size > b.size)
}

/// Every directory precedes every file, and within each group sizes do not increase.
pub open spec fn listing_ordered(s: Seq<FileEntry>) -> bool {
    forall|i: int, j: int| 0 <= i < j < s.len() ==> !goes_before(#[trigger] s[j], #[trigger] s[i])
}

/// Where `e` is placed among the ordered entries `s`: before the first entry
/// that it must precede, after all others.
pub open spec fn place_of(s: Seq<FileEntry>, e: FileEntry) -> int
    decreases s.len(),
{
    if s.len() == 0 || goes_before(e, s[0]) {
        0
    } else {
        1 + place_of(s.drop_first(), e)
    }
}

/// The entries `s` in listing order: each placed in turn after every entry it
/// need not precede, so that entries which tie keep their order in `s`.
pub open spec fn listing_order(s: Seq<FileEntry>) -> Seq<FileEntry>
    decreases s.len(),
{
    if s.len() == 0 {
        Seq::empty()
    } else {
        let acc = listing_order(s.drop_last());
        acc.insert(place_of(acc, s.last()), s.last())
    }
}

/// The first index that `e` must precede, or the end, is where `e` is placed.
proof fn lemma_place_of(s: Seq<FileEntry>, e: FileEntry, p: int)
    requires
        0 <= p <= s.len(),
        forall|k: int| 0 <= k < p ==> !goes_before(e, #[trigger] s[k]),
        p == s.len() || goes_before(e, s[p]),
    ensures
        place_of(s, e) == p,
    decreases s.len(),
{
    if s.len() > 0 && p > 0 {
        assert(!goes_before(e, s[0]));
        assert forall|k: int| 0 <= k < p - 1 implies !goes_before(e, #[trigger] s.drop_first()[k]) by {
            assert(s.drop_first()[k] == s[k + 1]);
        }
        lemma_place_of(s.drop_first(), e, p - 1);
    }
}

/// Whether `a` must come before `b`.
pub fn entry_goes_before(a: &FileEntry, b: &FileEntry) -> (r: bool)
    ensures
        r == goes_before(*a, *b),
{
    (a.is_dir && !b.is_dir) || (a.is_dir == b.is_dir && a.size > b.size)
}

/// Puts `e` into an ordered listing, after every entry it need not precede.
pub fn insert_entry(entries: &mut Vec<FileEntry>, e: FileEntry)
    requires
        listing_ordered(old(entries)@),
    ensures
        listing_ordered(final(entries)@),
        final(entries)@.to_multiset() == old(entries)@.to_multiset().insert(e),
        final(entries)@.len() == old(entries)@.len() + 1,
        0 <= place_of(old(entries)@, e) <= old(entries)@.len(),
        final(entries)@ == old(entries)@.insert(place_of(old(entries)@, e), e),
{
    let mut p: usize = 0;
    while p < entries.len() && !entry_goes_before(&e, &entries[p])
        invariant
            p <= entries@.len(),
            forall|k: int| 0 <= k < p ==> !goes_before(e, #[trigger] entries@[k]),
        decreases entries@.len() - p,
    {
        p = p + 1;
    }
    let ghost before = entries@;
    entries.insert(p, e);
    proof {
        let s = entries@;
        assert forall|i: int, j: int| 0 <= i < j < s.len() implies !goes_before(
            #[trigger] s[j],
            #[trigger] s[i],
        ) by {
            if i < p && j == p {
            } else if i == p && j > p {
                assert(goes_before(e, before[p as int]));
                assert(!goes_before(before[j - 1], before[p as int]) || j - 1 == p);
            } else if i < p && j > p {
                assert(!goes_before(before[j - 1], before[i]));
            } else if j < p {
                assert(!goes_before(before[j], before[i]));
            } else {
                assert(!goes_before(before[j - 1], before[i - 1]));
            }
        }
        vstd::seq_lib::to_multiset_insert(before, p as int, e);
        lemma_place_of(before, e, p as int);
    }
}

/// Orders `entries` as a listing: the result holds the same entries, every
/// directory before every file and, within each group, larger before smaller;
/// entries that tie keep their order.
pub fn sort_entries(entries: Vec<FileEntry>) -> (r: Vec<FileEntry>)
    ensures
        r@ == listing_order(entries@),
        listing_ordered(r@),
        r@.to_multiset() == entries@.to_multiset(),
{
    let ghost orig = entries@;
    let mut rest = entries;
    let mut out: Vec<FileEntry> = Vec::new();
    while rest.len() > 0
        invariant
            listing_ordered(out@),
            out@.to_multiset().add(rest@.to_multiset()) == orig.to_multiset(),
            rest@.len() <= orig.len(),
            rest@ == orig.skip(orig.len() - rest@.len()),
            out@ == listing_order(orig.take(orig.len() - rest@.len())),
        decreases rest@.len(),
    {
        let ghost r0 = rest@;
        let e = rest.remove(0);
        proof {
            let k = orig.len() - r0.len();
            assert(e == orig[k]);
            assert(orig.take(k + 1).drop_last() == orig.take(k));
            assert(rest@ =~= orig.skip(k + 1));
            vstd::seq_lib::to_multiset_remove(r0, 0);
            assert(r0.to_multiset().contains(e));
        }
        insert_entry(&mut out, e);
        proof {
            assert(out@.to_multiset().add(rest@.to_multiset()) =~= orig.to_multiset());
        }
    }
    proof {
        assert(rest@.to_multiset() =~= Multiset::empty());
        assert(out@.to_multiset() =~= orig.to_multiset());
        assert(orig.take(orig.len() as int) == orig);
    }
    out
}

} // verus!
