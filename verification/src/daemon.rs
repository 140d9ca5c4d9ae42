//! The daemon's side of a client connection: what a request does to the store
//! and what is answered.

use crate::client::{parse_request, Request};
use crate::clipping::{clippings_view, Clipping};
use crate::clippings_storage::{ClippingStorage, StoreView};
use crate::error::Error;
use crate::server::{response_bytes, Response, ResponseView};
use vstd::prelude::*;

verus! {

/// The running instance of the daemon. It holds the clippings in memory.
pub struct Daemon {
    pub storage: ClippingStorage,
}

impl Daemon {
    /// A daemon that has stored nothing yet.
    pub fn new() -> (daemon: Daemon)
        ensures
            daemon.storage.wf(),
            daemon.storage@ == StoreView::empty(),
    {
        Daemon { storage: ClippingStorage::new() }
    }
}

/// What a request comes to: the store after it, the response to send, the
/// text to put on the system clipboard, if any, and what went wrong, if
/// anything did.
pub struct Outcome {
    pub store: StoreView,
    pub response: ResponseView,
    pub clipboard: Option<Seq<char>>,
    pub error: Option<Error>,
}

/// What `request` comes to on `store`. A listing shows the texts numbered by
/// position and changes nothing. A command is acknowledged in every case; one
/// that names a position outside the store changes nothing and is reported as
/// `NotFound`. Only a selection that finds its clipping puts a text on the
/// clipboard: the text at that position.
pub open spec fn outcome(store: StoreView, request: Request) -> Outcome {
    match request {
        Request::Clipping => Outcome {
            store,
            response: ResponseView::Clippings(store.listing()),
            clipboard: None,
            error: None,
        },
        Request::Select(position) => if position < store.entries.len() {
            Outcome {
                store: store.select(position as nat),
                response: ResponseView::Ack,
                clipboard: Some(store.entries[position as int].data),
                error: None,
            }
        } else {
            Outcome {
                store,
                response: ResponseView::Ack,
                clipboard: None,
                error: Some(Error::NotFound),
            }
        },
        Request::Delete(position) => if position < store.entries.len() {
            Outcome {
                store: store.delete(position as nat),
                response: ResponseView::Ack,
                clipboard: None,
                error: None,
            }
        } else {
            Outcome {
                store,
                response: ResponseView::Ack,
                clipboard: None,
                error: Some(Error::NotFound),
            }
        },
        Request::Purge => Outcome {
            store: store.purge(),
            response: ResponseView::Ack,
            clipboard: None,
            error: None,
        },
    }
}

/// Only a selection puts a text on the system clipboard: one whose position
/// is in the store, and then the text at that position and no other. Every
/// other request leaves the clipboard alone.
pub proof fn lemma_clipboard_set_only_by_select(store: StoreView, request: Request)
    ensures
        outcome(store, request).clipboard.is_some() <==> (request matches Request::Select(p) && p
            < store.entries.len()),
        forall|p: usize|
            p < store.entries.len() ==> (#[trigger] outcome(store, Request::Select(p))).clipboard
                == Some(store.entries[p as int].data),
{
}

/// Whatever the request, a valid store stays valid, hands out no sequence
/// number again, and loses entries only to a deletion or a purge.
pub proof fn lemma_outcome_keeps_store_valid(store: StoreView, request: Request)
    requires
        store.valid(),
    ensures
        outcome(store, request).store.valid(),
        outcome(store, request).store.next_id == store.next_id,
        request is Clipping || request is Select ==> outcome(store, request).store.entries
            == store.entries,
        request is Purge ==> outcome(store, request).store.entries.len() == 0,
{
}

/// The text of an optional string.
pub open spec fn text_of(text: Option<String>) -> Option<Seq<char>> {
    match text {
        Some(t) => Some(t@),
        None => None,
    }
}

/// The bytes of an optional buffer.
pub open spec fn bytes_of(bytes: Option<Vec<u8>>) -> Option<Seq<u8>> {
    match bytes {
        Some(b) => Some(b@),
        None => None,
    }
}

/// What the daemon does about a request, besides changing the store.
#[derive(Debug, PartialEq, Eq)]
pub struct Handled {
    /// The response to send.
    pub response: Response,
    /// The text to put on the system clipboard.
    pub clipboard: Option<String>,
    /// What went wrong, for the daemon's log.
    pub error: Option<Error>,
}

/// What the daemon does about the bytes of a connection, besides changing
/// the store.
#[derive(Debug, PartialEq, Eq)]
pub struct Served {
    /// The bytes to send back; none when the request could not be read.
    pub reply: Option<Vec<u8>>,
    /// The text to put on the system clipboard.
    pub clipboard: Option<String>,
    /// What went wrong, for the daemon's log.
    pub error: Option<Error>,
}

/// Carries out `rq` on the store and says what to answer.
pub fn api_handler(s: &mut ClippingStorage, rq: Request) -> (handled: Handled)
    requires
        old(s).wf(),
    ensures
        final(s).wf(),
        final(s)@ == outcome(old(s)@, rq).store,
        handled.response@ == outcome(old(s)@, rq).response,
        text_of(handled.clipboard) == outcome(old(s)@, rq).clipboard,
        handled.error == outcome(old(s)@, rq).error,
{
    match rq {
        Request::Clipping => {
            let clips = s.get_clips();
            let mut listing: Vec<Clipping> = Vec::new();
            let mut i: usize = 0;
            while i < clips.len()
                invariant
                    i <= clips@.len(),
                    clippings_view(clips@) == s@.entries,
                    clippings_view(listing@) == s@.listing().take(i as int),
                decreases clips@.len() - i,
            {
                let ghost before = clippings_view(listing@);
                let clip = Clipping { data: clips[i].data.clone(), id: i };
                listing.push(clip);
                proof {
                    assert(clippings_view(clips@)[i as int] == clips@[i as int]@);
                    assert(clippings_view(listing@) =~= before.push(clip@));
                    assert(clippings_view(listing@) =~= s@.listing().take(i as int + 1));
                }
                i = i + 1;
            }
            proof {
                assert(s@.listing().take(i as int) =~= s@.listing());
            }
            Handled { response: Response::Clippings(listing), clipboard: None, error: None }
        },
        Request::Select(id) => match s.select(id) {
            Ok(text) => Handled { response: Response::Ack, clipboard: Some(text), error: None },
            Err(e) => Handled { response: Response::Ack, clipboard: None, error: Some(e) },
        },
        Request::Purge => {
            s.purge();
            Handled { response: Response::Ack, clipboard: None, error: None }
        },
        Request::Delete(id) => match s.delete(id) {
            Ok(_) => Handled { response: Response::Ack, clipboard: None, error: None },
            Err(e) => Handled { response: Response::Ack, clipboard: None, error: Some(e) },
        },
    }
}

/// Serves one connection: reads the request that starts `request`, carries it
/// out and encodes the response. Bytes that start with no request get no
/// reply and leave the store as it was.
pub fn serve(s: &mut ClippingStorage, request: &[u8]) -> (served: Served)
    requires
        old(s).wf(),
    ensures
        final(s).wf(),
        match parse_request(request@) {
            Some(rq) => {
                &&& final(s)@ == outcome(old(s)@, rq).store
                &&& bytes_of(served.reply) == Some(response_bytes(outcome(old(s)@, rq).response))
                &&& text_of(served.clipboard) == outcome(old(s)@, rq).clipboard
                &&& served.error == outcome(old(s)@, rq).error
            },
            None => {
                &&& final(s)@ == old(s)@
                &&& served.reply.is_none()
                &&& served.clipboard.is_none()
                &&& served.error == Some(Error::ProtocolError)
            },
        },
{
    match Request::decode(request) {
        Ok(rq) => {
            let handled = api_handler(s, rq);
            let reply = handled.response.encode();
            Served { reply: Some(reply), clipboard: handled.clipboard, error: handled.error }
        },
        Err(e) => Served { reply: None, clipboard: None, error: Some(e) },
    }
}

} // verus!
