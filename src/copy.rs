use vstd::prelude::*;

verus! {

/// `target` after `n` items of `source`, starting at `from`, were written
/// over it starting at `at`; the other items of `target` stay as they were.
pub open spec fn spliced<T>(target: Seq<T>, at: int, source: Seq<T>, from: int, n: int) -> Seq<T> {
    target.take(at) + source.subrange(from, from + n) + target.skip(at + n)
}

/// Copies `n` items of `source`, starting at `from`, over `target`, starting
/// at `at`.
///
/// Both ranges are checked to lie inside their slices; the two slices are
/// distinct borrows, so they never overlap. This is the fast path for items
/// whose bits may be copied as they are.
pub fn copy_items<T: Copy>(source: &[T], from: usize, target: &mut [T], at: usize, n: usize)
    requires
        from + n <= source@.len(),
        at + n <= old(target)@.len(),
    ensures
        final(target)@ == spliced(old(target)@, at as int, source@, from as int, n as int),
{
    let source_len = source.len();
    let target_len = target.len();
    let mut i: usize = 0;
    while i < n
        invariant
            i <= n,
            source_len == source@.len(),
            target_len == target@.len(),
            from + n <= source@.len(),
            at + n <= target@.len(),
            target@.len() == old(target)@.len(),
            forall|j: int| 0 <= j < at || at + i <= j < target@.len() ==> #[trigger] target@[j] == old(target)@[j],
            forall|j: int| 0 <= j < i ==> #[trigger] target@[at + j] == source@[from + j],
        decreases n - i,
    {
        target[at + i] = source[from + i];
        i = i + 1;
    }
    assert(target@ =~= spliced(old(target)@, at as int, source@, from as int, n as int)) by {
        assert forall|j: int| 0 <= j < target@.len() implies #[trigger] target@[j] == spliced(old(target)@, at as int, source@, from as int, n as int)[j] by {
            if at <= j < at + n {
                assert(target@[at + (j - at)] == source@[from + (j - at)]);
            }
        }
    }
}

/// Clones `n` items of `source`, starting at `from`, over `target`, starting
/// at `at`: the path for items whose copies must go through `Clone`.
///
/// Each written item is a clone of its source item; the others stay as they
/// were.
pub fn clone_items<T: Clone>(source: &[T], from: usize, target: &mut [T], at: usize, n: usize)
    requires
        from + n <= source@.len(),
        at + n <= old(target)@.len(),
    ensures
        final(target)@.len() == old(target)@.len(),
        forall|j: int| 0 <= j < at || at + n <= j < old(target)@.len() ==> #[trigger] final(target)@[j] == old(target)@[j],
        forall|j: int| 0 <= j < n ==> cloned(source@[from + j], #[trigger] final(target)@[at + j]),
{
    let source_len = source.len();
    let target_len = target.len();
    let mut i: usize = 0;
    while i < n
        invariant
            i <= n,
            source_len == source@.len(),
            target_len == target@.len(),
            from + n <= source@.len(),
            at + n <= target@.len(),
            target@.len() == old(target)@.len(),
            forall|j: int| 0 <= j < at || at + i <= j < target@.len() ==> #[trigger] target@[j] == old(target)@[j],
            forall|j: int| 0 <= j < i ==> cloned(source@[from + j], #[trigger] target@[at + j]),
        decreases n - i,
    {
        let item = source[from + i].clone();
        target[at + i] = item;
        i = i + 1;
    }
}

} // verus!
