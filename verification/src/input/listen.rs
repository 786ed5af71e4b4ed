use vstd::prelude::*;

use super::parser::{events_view, Event, EventView};

verus! {

/// The sum of the scroll deltas among `evs`.
pub open spec fn scroll_sum(evs: Seq<EventView>) -> int
    decreases evs.len(),
{
    if evs.len() == 0 {
        0
    } else {
        scroll_sum(evs.drop_last()) + match evs.last() {
            EventView::Scroll(d) => d as int,
            _ => 0,
        }
    }
}

/// The events of `evs` that are not scrolls, in order.
pub open spec fn non_scroll(evs: Seq<EventView>) -> Seq<EventView>
    decreases evs.len(),
{
    if evs.len() == 0 {
        seq![]
    } else {
        let rest = non_scroll(evs.drop_last());
        match evs.last() {
            EventView::Scroll(_) => rest,
            e => rest.push(e),
        }
    }
}

pub open spec fn no_exit(evs: Seq<EventView>) -> bool {
    forall|i: int| 0 <= i < evs.len() ==> !(#[trigger] evs[i] is Exit)
}

/// The events handed on after one read: the other events in order, then
/// the scrolls merged into one when they do not cancel out.
pub open spec fn batch(evs: Seq<EventView>) -> Seq<EventView> {
    if scroll_sum(evs) != 0 {
        non_scroll(evs).push(EventView::Scroll(scroll_sum(evs) as isize))
    } else {
        non_scroll(evs)
    }
}

/// Prepares the events of one read for the listener: `None` when the user
/// asked to exit, else the events with their scrolls merged.
pub fn collect_events(read: Vec<Event>) -> (r: Option<Vec<Event>>)
    requires
        forall|k: int|
            0 <= k <= read@.len() && #[trigger] no_exit(events_view(read@).take(k)) ==> isize::MIN
                <= scroll_sum(events_view(read@).take(k)) <= isize::MAX,
    ensures
        match r {
            None => !no_exit(events_view(read@)),
            Some(evs) => no_exit(events_view(read@)) && events_view(evs@) == batch(
                events_view(read@),
            ),
        },
{
    let ghost all = events_view(read@);
    assert(all.len() == read@.len());
    let mut scroll: isize = 0;
    let mut events: Vec<Event> = Vec::new();
    let mut pending = read;
    let mut rest: Vec<Event> = Vec::new();
    let n = pending.len();
    // Taken from the back, so reverse into `rest` first to keep the order.
    while pending.len() > 0
        invariant
            pending@.len() + rest@.len() == n,
            all.len() == n,
            forall|k: int|
                0 <= k <= all.len() && #[trigger] no_exit(all.take(k)) ==> isize::MIN
                    <= scroll_sum(all.take(k)) <= isize::MAX,
            forall|i: int| 0 <= i < pending@.len() ==> #[trigger] pending@[i]@ == all[i],
            forall|j: int|
                0 <= j < rest@.len() ==> #[trigger] rest@[j]@ == all[n - 1 - j],
        decreases pending@.len(),
    {
        let e = pending.pop().unwrap();
        rest.push(e);
    }
    let mut i: usize = 0;
    while rest.len() > 0
        invariant
            i + rest@.len() == n,
            all.len() == n,
            all == events_view(read@),
            forall|j: int|
                0 <= j < rest@.len() ==> #[trigger] rest@[j]@ == all[n - 1 - j],
            no_exit(all.take(i as int)),
            scroll == scroll_sum(all.take(i as int)),
            events_view(events@) == non_scroll(all.take(i as int)),
            forall|k: int|
                0 <= k <= all.len() && #[trigger] no_exit(all.take(k)) ==> isize::MIN
                    <= scroll_sum(all.take(k)) <= isize::MAX,
        decreases rest@.len(),
    {
        let e = rest.pop().unwrap();
        let ghost ev = e@;
        assert(ev == all[i as int]);
        assert(all.take(i + 1).drop_last() =~= all.take(i as int));
        assert(all.take(i + 1).last() == ev);
        match e {
            Event::Exit => {
                assert(all[i as int] is Exit);
                return None;
            },
            Event::Scroll { delta } => {
                assert(no_exit(all.take(i + 1)));
                scroll = scroll + delta;
            },
            other => {
                assert(no_exit(all.take(i + 1)));
                let ghost before = events@;
                events.push(other);
                assert(events_view(events@) =~= events_view(before).push(ev));
            },
        }
        i = i + 1;
    }
    assert(all.take(n as int) =~= all);
    if scroll != 0 {
        let ghost before = events@;
        events.push(Event::Scroll { delta: scroll });
        assert(events_view(events@) =~= events_view(before).push(EventView::Scroll(scroll)));
    }
    Some(events)
}

} // verus!
