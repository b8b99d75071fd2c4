//! The batch plan: an inclusive range of items cut into consecutive groups of
//! at most the configured width. Groups run one after another; the members of
//! one group run together, so no more fetches are ever in flight than the
//! width allows.
use vstd::prelude::*;

verus! {

/// Why a configuration cannot start a run.
#[derive(Clone, Copy, Debug, PartialEq, Eq, Structural)]
pub enum ConfigError {
    /// The concurrency width is zero.
    ZeroWidth,
}

/// The integers from `a` up to but not including `b`.
pub open spec fn span(a: int, b: int) -> Seq<int> {
    Seq::new((if b > a { b - a } else { 0 }) as nat, |i: int| a + i)
}

/// `[first, last]` cut into consecutive groups of `width` items, the last of
/// which may be shorter.
pub open spec fn batches(first: int, last: int, width: int) -> Seq<Seq<int>>
    decreases last + 1 - first,
{
    if width <= 0 || first > last {
        Seq::empty()
    } else {
        let end = if first + width - 1 < last { first + width - 1 } else { last };
        seq![span(first, end + 1)] + batches(end + 1, last, width)
    }
}

/// The items of one group, as integers.
pub open spec fn ints(v: Seq<usize>) -> Seq<int> {
    v.map_values(|x: usize| x as int)
}

/// The items of each group, as integers.
pub open spec fn groups_view(groups: Seq<Vec<usize>>) -> Seq<Seq<int>> {
    Seq::new(groups.len(), |i: int| ints(groups[i]@))
}

/// Cuts `[first, last]` into consecutive groups of at most `width` items; an
/// empty range gives no groups, a zero width is refused.
pub fn plan_batches(first: usize, last: usize, width: usize) -> (r: Result<Vec<Vec<usize>>, ConfigError>)
    ensures
        width == 0 <==> r is Err,
        r is Err ==> r->Err_0 == ConfigError::ZeroWidth,
        r is Ok ==> groups_view(r->Ok_0@) == batches(first as int, last as int, width as int),
{
    if width == 0 {
        return Err(ConfigError::ZeroWidth);
    }
    let mut groups: Vec<Vec<usize>> = Vec::new();
    let mut next: usize = first;
    let ghost mut gnext: int = first as int;
    let mut done: bool = first > last;
    assert(groups_view(groups@) + batches(first as int, last as int, width as int)
        =~= batches(first as int, last as int, width as int));
    while !done
        invariant
            width > 0,
            done <==> gnext > last,
            !done ==> next == gnext,
            gnext >= first,
            groups_view(groups@) + batches(gnext, last as int, width as int)
                == batches(first as int, last as int, width as int),
        decreases (if done { 0 } else { last + 1 - gnext }),
    {
        let end: usize = if last - next >= width - 1 { next + (width - 1) } else { last };
        let count: usize = end - next + 1;
        let mut group: Vec<usize> = Vec::new();
        let mut k: usize = 0;
        while k < count
            invariant
                k <= count,
                count == end - next + 1,
                next <= end,
                group@.len() == k,
                ints(group@) == span(next as int, next + k),
            decreases count - k,
        {
            let ghost prev = group@;
            group.push(next + k);
            k = k + 1;
            assert forall|i: int| 0 <= i < k implies #[trigger] ints(group@)[i] == span(next as int, next + k)[i] by {
                if i < k - 1 {
                    assert(ints(prev)[i] == span(next as int, next + k - 1)[i]);
                    assert(group@[i] == prev[i]);
                }
            }
            assert(ints(group@) =~= span(next as int, next + k));
        }
        proof {
            let rest = batches(end + 1, last as int, width as int);
            assert(batches(gnext, last as int, width as int) == seq![span(gnext, end + 1)] + rest);
            let old_groups = groups@;
            assert(groups_view(old_groups.push(group)) =~= groups_view(old_groups) + seq![span(gnext, end + 1)]);
            assert(groups_view(old_groups) + (seq![span(gnext, end + 1)] + rest)
                =~= (groups_view(old_groups) + seq![span(gnext, end + 1)]) + rest);
        }
        groups.push(group);
        proof { gnext = end + 1; }
        if end == last {
            done = true;
        } else {
            next = end + 1;
        }
    }
    assert(batches(gnext, last as int, width as int) == Seq::<Seq<int>>::empty());
    assert(groups_view(groups@) + Seq::<Seq<int>>::empty() =~= groups_view(groups@));
    assert(groups_view(groups@) =~= batches(first as int, last as int, width as int));
    Ok(groups)
}

/// No group holds more than `width` items, nor none; and the groups, taken in
/// order, hold each item of `[first, last]` exactly once, in increasing order.
pub proof fn lemma_batches_bounded(first: int, last: int, width: int)
    requires
        width > 0,
    ensures
        forall|g: int| 0 <= g < batches(first, last, width).len() ==>
            1 <= #[trigger] batches(first, last, width)[g].len() <= width,
        batches(first, last, width).flatten() == span(first, last + 1),
    decreases last + 1 - first,
{
    let b = batches(first, last, width);
    if first <= last {
        let end = if first + width - 1 < last { first + width - 1 } else { last };
        lemma_batches_bounded(end + 1, last, width);
        let rest = batches(end + 1, last, width);
        assert(b.first() == span(first, end + 1));
        assert(b.drop_first() =~= rest);
        assert forall|g: int| 0 <= g < b.len() implies 1 <= #[trigger] b[g].len() <= width by {
            if g > 0 {
                assert(b[g] == rest[g - 1]);
            }
        }
        assert(span(first, end + 1) + span(end + 1, last + 1) =~= span(first, last + 1));
    } else {
        assert(span(first, last + 1) =~= Seq::<int>::empty());
    }
}

} // verus!
