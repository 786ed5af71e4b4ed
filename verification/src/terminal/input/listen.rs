use vstd::prelude::*;

use super::event::{tevents_view, Event, TEventView};

verus! {

/// The sum of the scroll deltas among `evs`.
pub open spec fn tscroll_sum(evs: Seq<TEventView>) -> int
    decreases evs.len(),
{
    if evs.len() == 0 {
        0
    } else {
        tscroll_sum(evs.drop_last()) + match evs.last() {
            TEventView::Scroll(d) => d as int,
            _ => 0,
        }
    }
}

/// The events of `evs` that are not scrolls, in order.
pub open spec fn tnon_scroll(evs: Seq<TEventView>) -> Seq<TEventView>
    decreases evs.len(),
{
    if evs.len() == 0 {
        seq![]
    } else {
        let rest = tnon_scroll(evs.drop_last());
        match evs.last() {
            TEventView::Scroll(_) => rest,
            e => rest.push(e),
        }
    }
}

/// Splits the events of one read into the others, in order, and the sum of
/// the scrolls, which the listener hands on after them as one scroll.
pub fn split_scrolls(read: Vec<Event>) -> (r: (Vec<Event>, isize))
    requires
        forall|k: int|
            0 <= k <= read@.len() ==> isize::MIN <= #[trigger] tscroll_sum(
                tevents_view(read@).take(k),
            ) <= isize::MAX,
    ensures
        tevents_view(r.0@) == tnon_scroll(tevents_view(read@)),
        r.1 == tscroll_sum(tevents_view(read@)),
{
    let ghost all = tevents_view(read@);
    assert(all.len() == read@.len());
    let mut scroll: isize = 0;
    let mut events: Vec<Event> = Vec::new();
    let mut pending = read;
    let mut rest: Vec<Event> = Vec::new();
    let n = pending.len();
    // Taken from the back, so reverse into `rest` first to keep the order.
    while pending.len() > 0
        invariant
            pending@.len() + rest@.len() == n,
            all.len() == n,
            forall|i: int| 0 <= i < pending@.len() ==> #[trigger] pending@[i]@ == all[i],
            forall|j: int| 0 <= j < rest@.len() ==> #[trigger] rest@[j]@ == all[n - 1 - j],
        decreases pending@.len(),
    {
        let e = pending.pop().unwrap();
        rest.push(e);
    }
    let mut i: usize = 0;
    while rest.len() > 0
        invariant
            i + rest@.len() == n,
            all.len() == n,
            forall|j: int| 0 <= j < rest@.len() ==> #[trigger] rest@[j]@ == all[n - 1 - j],
            scroll == tscroll_sum(all.take(i as int)),
            tevents_view(events@) == tnon_scroll(all.take(i as int)),
            forall|k: int|
                0 <= k <= n ==> isize::MIN <= #[trigger] tscroll_sum(all.take(k)) <= isize::MAX,
        decreases rest@.len(),
    {
        let e = rest.pop().unwrap();
        let ghost ev = e@;
        assert(ev == all[i as int]);
        assert(all.take(i + 1).drop_last() =~= all.take(i as int));
        assert(all.take(i + 1).last() == ev);
        match e {
            Event::Scroll { delta } => {
                assert(isize::MIN <= tscroll_sum(all.take(i + 1)) <= isize::MAX);
                scroll = scroll + delta;
            },
            other => {
                let ghost before = events@;
                events.push(other);
                assert(tevents_view(events@) =~= tevents_view(before).push(ev));
            },
        }
        i = i + 1;
    }
    assert(all.take(n as int) =~= all);
    (events, scroll)
}

} // verus!
