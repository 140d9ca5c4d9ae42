//! The capture loop's part in the library: an event goes to the transfer, and
//! what a transfer brings goes to the store.

use crate::clipboard::{Action, ActionView, Event, Transfer};
use crate::clippings_storage::ClippingStorage;
use vstd::prelude::*;

verus! {

/// Hands one event to the transfer and stores the text of a transfer that it
/// completes, unless the text repeats the most recent clipping. Returns what
/// the caller is to do next.
pub fn dispatch(storage: &mut ClippingStorage, transfer: &mut Transfer, event: Event) -> (action:
    Action)
    requires
        old(storage).wf(),
        old(transfer).wf(),
        old(storage)@.next_id < usize::MAX,
    ensures
        final(storage).wf(),
        final(transfer).wf(),
        (final(transfer)@, action@) == old(transfer)@.step(event@),
        final(storage)@ == match action@ {
            ActionView::Finish(_, text) => old(storage)@.push(text),
            _ => old(storage)@,
        },
{
    let action = transfer.step(event);
    match &action {
        Action::Finish(_, text) => {
            storage.push_clipping(text.clone());
        },
        _ => {},
    }
    action
}

} // verus!
