//! Series of events, taken one after the other.

use vstd::prelude::*;

verus! {

/// What a series holds is its first event, or stands behind it.
pub proof fn reported_first_or_later<E>(events: Seq<E>)
    requires
        events.len() > 0,
    ensures
        forall|event: E| #[trigger]
            events.contains(event) <==> events[0] == event || events.drop_first().contains(event),
{
    let rest = events.drop_first();
    assert forall|event: E| #[trigger]
        events.contains(event) <==> events[0] == event || rest.contains(event) by {
        if events.contains(event) && events[0] != event {
            let i = choose|i: int| 0 <= i < events.len() && events[i] == event;
            assert(rest[i - 1] == event);
        }
        if rest.contains(event) {
            let i = choose|i: int| 0 <= i < rest.len() && rest[i] == event;
            assert(events[i + 1] == event);
        }
    }
}

} // verus!
