//! Depth-limited aggregation of directory sizes.
use vstd::prelude::*;
use crate::entry::{hidden, is_hidden, Child, Kind};

verus! {

/// The deepest level whose regular files still count towards a directory's size.
pub const MAX_DEPTH: usize = 3;

/// `x` capped at the largest `u64`.
pub open spec fn capped(x: int) -> int {
    if x > u64::MAX {
        u64::MAX as int
    } else {
        x
    }
}

/// The bytes counted for the entries `cs` of a directory read at level `depth`:
/// hidden entries count nothing, regular files count their length, directories
/// count what lies in them one level deeper, and nothing counts beyond `MAX_DEPTH`.
pub open spec fn level_bytes(cs: Seq<Child>, depth: int) -> int
    decreases MAX_DEPTH + 1 - depth, cs.len(),
{
    if depth > MAX_DEPTH || depth < 0 || cs.len() == 0 {
        0
    } else {
        level_bytes(cs.drop_last(), depth) + if hidden(cs.last().name@) {
            0
        } else {
            match cs.last().kind {
                Kind::File { len } => len as int,
                Kind::Dir { contents: Some(v) } => level_bytes(v@, depth + 1),
                _ => 0,
            }
        }
    }
}

/// Whether a directory found at level `depth` is read by the aggregation.
pub fn descends(name: &str, depth: usize) -> (r: bool)
    ensures
        r == (!hidden(name@) && depth < MAX_DEPTH),
{
    !is_hidden(name) && depth < MAX_DEPTH
}

/// The size reported for a directory whose entries are `cs`, read at level
/// `depth`; it saturates at the largest `u64`.
pub fn folder_size(cs: &Vec<Child>, depth: usize) -> (r: u64)
    ensures
        r == capped(level_bytes(cs@, depth as int)),
    decreases MAX_DEPTH + 1 - depth,
{
    if depth > MAX_DEPTH {
        return 0;
    }
    let mut total: u64 = 0;
    let mut i: usize = 0;
    while i < cs.len()
        invariant
            depth <= MAX_DEPTH,
            i <= cs.len(),
            total == capped(level_bytes(cs@.take(i as int), depth as int)),
        decreases cs.len() - i,
    {
        let c = &cs[i];
        let add: u64 = if is_hidden(c.name.as_str()) {
            0
        } else {
            match &c.kind {
                Kind::File { len } => *len,
                Kind::Dir { contents: Some(v) } => folder_size(v, depth + 1),
                _ => 0,
            }
        };
        proof {
            assert(cs@.take(i + 1).drop_last() == cs@.take(i as int));
        }
        total = total.saturating_add(add);
        i = i + 1;
    }
    proof {
        assert(cs@.take(cs.len() as int) == cs@);
    }
    total
}

/// All bytes of regular files under the entries `cs`, at any depth, where no
/// hidden entry counts: a hidden file adds nothing, a hidden directory is not
/// entered.
pub open spec fn tree_bytes(cs: Seq<Child>) -> int
    decreases cs,
{
    if cs.len() == 0 {
        0
    } else {
        tree_bytes(cs.drop_last()) + if hidden(cs.last().name@) {
            0
        } else {
            match cs.last().kind {
                Kind::File { len } => len as int,
                Kind::Dir { contents: Some(v) } => tree_bytes(v@),
                _ => 0,
            }
        }
    }
}

/// The bytes under `cs`, read at level `depth`, that lie below `MAX_DEPTH`.
pub open spec fn cut_bytes(cs: Seq<Child>, depth: int) -> int
    decreases MAX_DEPTH + 1 - depth, cs.len(),
{
    if depth > MAX_DEPTH || depth < 0 {
        tree_bytes(cs)
    } else if cs.len() == 0 {
        0
    } else {
        cut_bytes(cs.drop_last(), depth) + if hidden(cs.last().name@) {
            0
        } else {
            match cs.last().kind {
                Kind::Dir { contents: Some(v) } => cut_bytes(v@, depth + 1),
                _ => 0,
            }
        }
    }
}

/// Whether no entry that the aggregation would look at lies below `MAX_DEPTH`.
pub open spec fn within_limit(cs: Seq<Child>, depth: int) -> bool
    decreases MAX_DEPTH + 1 - depth, cs.len(),
{
    if depth > MAX_DEPTH || depth < 0 {
        cs.len() == 0
    } else if cs.len() == 0 {
        true
    } else {
        within_limit(cs.drop_last(), depth) && (hidden(cs.last().name@) || match cs.last().kind {
            Kind::Dir { contents: Some(v) } => within_limit(v@, depth + 1),
            _ => true,
        })
    }
}

/// No file counts negatively.
pub proof fn lemma_tree_bytes_nonneg(cs: Seq<Child>)
    ensures
        tree_bytes(cs) >= 0,
    decreases cs,
{
    if cs.len() > 0 {
        lemma_tree_bytes_nonneg(cs.drop_last());
        if !hidden(cs.last().name@) {
            if let Kind::Dir { contents: Some(v) } = cs.last().kind {
                lemma_tree_bytes_nonneg(v@);
            }
        }
    }
}

/// The counted bytes and the bytes below the cutoff make up the whole tree:
/// a reported size leaves out exactly what lies deeper than `MAX_DEPTH`.
pub proof fn lemma_size_splits_at_cutoff(cs: Seq<Child>, depth: int)
    requires
        0 <= depth,
    ensures
        level_bytes(cs, depth) + cut_bytes(cs, depth) == tree_bytes(cs),
        cut_bytes(cs, depth) >= 0,
    decreases MAX_DEPTH + 1 - depth, cs.len(),
{
    if depth > MAX_DEPTH {
        lemma_tree_bytes_nonneg(cs);
    } else if cs.len() > 0 {
        lemma_size_splits_at_cutoff(cs.drop_last(), depth);
        if !hidden(cs.last().name@) {
            if let Kind::Dir { contents: Some(v) } = cs.last().kind {
                lemma_size_splits_at_cutoff(v@, depth + 1);
            }
        }
    }
}

/// Nothing lies below the cutoff of a tree within the limit.
pub proof fn lemma_within_limit_cuts_nothing(cs: Seq<Child>, depth: int)
    requires
        0 <= depth,
        within_limit(cs, depth),
    ensures
        cut_bytes(cs, depth) == 0,
    decreases MAX_DEPTH + 1 - depth, cs.len(),
{
    if depth <= MAX_DEPTH && cs.len() > 0 {
        lemma_within_limit_cuts_nothing(cs.drop_last(), depth);
        if !hidden(cs.last().name@) {
            if let Kind::Dir { contents: Some(v) } = cs.last().kind {
                lemma_within_limit_cuts_nothing(v@, depth + 1);
            }
        }
    }
}

/// A directory whose whole content lies within `MAX_DEPTH` levels is reported
/// with the exact sum of the regular files in it that are not hidden.
pub proof fn lemma_shallow_size_exact(cs: Seq<Child>)
    requires
        within_limit(cs, 0),
    ensures
        level_bytes(cs, 0) == tree_bytes(cs),
        tree_bytes(cs) <= u64::MAX ==> capped(level_bytes(cs, 0)) == tree_bytes(cs),
{
    lemma_within_limit_cuts_nothing(cs, 0);
    lemma_size_splits_at_cutoff(cs, 0);
}

/// A directory with bytes below the cutoff is reported smaller than its true
/// total, and by exactly those bytes.
pub proof fn lemma_deep_size_short(cs: Seq<Child>)
    requires
        cut_bytes(cs, 0) > 0,
    ensures
        level_bytes(cs, 0) < tree_bytes(cs),
        level_bytes(cs, 0) == tree_bytes(cs) - cut_bytes(cs, 0),
        capped(level_bytes(cs, 0)) < tree_bytes(cs),
{
    lemma_size_splits_at_cutoff(cs, 0);
}

/// No reported size exceeds the true total of the files that are not hidden.
pub proof fn lemma_size_at_most_total(cs: Seq<Child>)
    ensures
        capped(level_bytes(cs, 0)) <= tree_bytes(cs),
{
    lemma_size_splits_at_cutoff(cs, 0);
}

/// Whether `a` and `b` hold the same entries wherever the aggregation at
/// level `depth` looks: they differ at most in hidden entries and in the
/// contents of directories that `descends` does not enter.
pub open spec fn same_where_read(a: Seq<Child>, b: Seq<Child>, depth: int) -> bool
    decreases MAX_DEPTH + 1 - depth, a.len(),
{
    if depth > MAX_DEPTH || depth < 0 {
        true
    } else if a.len() != b.len() {
        false
    } else if a.len() == 0 {
        true
    } else {
        same_where_read(a.drop_last(), b.drop_last(), depth) && a.last().name@ == b.last().name@
            && (hidden(a.last().name@) || match (a.last().kind, b.last().kind) {
            (Kind::File { len: x }, Kind::File { len: y }) => x == y,
            (Kind::Dir { contents: x }, Kind::Dir { contents: y }) => match (x, y) {
                (Some(v), Some(w)) => same_where_read(v@, w@, depth + 1),
                (None, None) => true,
                _ => depth >= MAX_DEPTH,
            },
            (Kind::File { .. }, _) => false,
            (_, Kind::File { .. }) => false,
            (Kind::Dir { .. }, _) => false,
            (_, Kind::Dir { .. }) => false,
            _ => true,
        })
    }
}

/// Reading only the directories that `descends` enters loses nothing: two
/// trees that agree there are given the same size.
pub proof fn lemma_size_needs_only_descended(a: Seq<Child>, b: Seq<Child>, depth: int)
    requires
        0 <= depth,
        same_where_read(a, b, depth),
    ensures
        level_bytes(a, depth) == level_bytes(b, depth),
    decreases MAX_DEPTH + 1 - depth, a.len(),
{
    if depth <= MAX_DEPTH && a.len() > 0 {
        lemma_size_needs_only_descended(a.drop_last(), b.drop_last(), depth);
        if !hidden(a.last().name@) {
            match (a.last().kind, b.last().kind) {
                (Kind::Dir { contents: x }, Kind::Dir { contents: y }) => {
                    if let Some(v) = x {
                        assert(level_bytes(v@, depth + 1) == 0 || depth < MAX_DEPTH);
                        if let Some(w) = y {
                            assert(level_bytes(w@, depth + 1) == 0 || depth < MAX_DEPTH);
                            if depth < MAX_DEPTH {
                                lemma_size_needs_only_descended(v@, w@, depth + 1);
                            }
                        }
                    } else if let Some(w) = y {
                        assert(level_bytes(w@, depth + 1) == 0 || depth < MAX_DEPTH);
                    }
                },
                _ => {},
            }
        }
    }
}

} // verus!
