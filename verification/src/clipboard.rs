//! The transfer of clipboard content from the compositor: a state machine that
//! is told what happened and answers what to do next. Pipes, reads and the
//! compositor stay with the caller; the decisions are made here.

use vstd::prelude::*;
use vstd::string::StringExecFns;
use vstd::utf8::{decode_utf8, valid_utf8};

verus! {

/// How many bytes the caller asks of the pipe in one read.
pub const CHUNK_SIZE: usize = 255;

/// Where a transfer stands.
#[derive(Debug, Clone, Copy, PartialEq, Eq, Structural)]
pub enum Phase {
    /// No transfer is under way.
    Idle,
    /// A text offer was taken up and the pipe is being set up.
    AwaitingData,
    /// The read end of the pipe is being read until the stream ends.
    Draining,
}

/// What the caller reports to the transfer.
#[derive(Debug, PartialEq, Eq)]
pub enum Event {
    /// The compositor offers content of the given type.
    Offer(String),
    /// The pipe was made and the content asked for; the caller holds the read
    /// end under this descriptor and has closed the write end.
    PipeOpened(i32),
    /// The pipe could not be made, or the content could not be asked for.
    PipeFailed,
    /// A read returned these bytes; none at all means the stream has ended.
    Chunk(Vec<u8>),
    /// A read failed.
    ReadFailed,
}

/// What the transfer asks of the caller.
#[derive(Debug, PartialEq, Eq)]
pub enum Action {
    /// Nothing: the event changed nothing, or gave nothing to do.
    Nothing,
    /// Make a pipe, ask the compositor to write the offered plain text to its
    /// write end, close that end, and report `PipeOpened` or `PipeFailed`.
    OpenPipe,
    /// Read up to [`CHUNK_SIZE`] bytes from this descriptor and report
    /// `Chunk` or `ReadFailed`.
    Read(i32),
    /// Close this descriptor; the text is what the transfer brought.
    Finish(i32, String),
}

/// The mathematical value of an [`Event`].
pub enum EventView {
    Offer(Seq<char>),
    PipeOpened(i32),
    PipeFailed,
    Chunk(Seq<u8>),
    ReadFailed,
}

/// The mathematical value of an [`Action`].
pub enum ActionView {
    Nothing,
    OpenPipe,
    Read(i32),
    Finish(i32, Seq<char>),
}

impl View for Event {
    type V = EventView;

    open spec fn view(&self) -> EventView {
        match self {
            Event::Offer(mime) => EventView::Offer(mime@),
            Event::PipeOpened(fd) => EventView::PipeOpened(*fd),
            Event::PipeFailed => EventView::PipeFailed,
            Event::Chunk(bytes) => EventView::Chunk(bytes@),
            Event::ReadFailed => EventView::ReadFailed,
        }
    }
}

impl View for Action {
    type V = ActionView;

    open spec fn view(&self) -> ActionView {
        match self {
            Action::Nothing => ActionView::Nothing,
            Action::OpenPipe => ActionView::OpenPipe,
            Action::Read(fd) => ActionView::Read(*fd),
            Action::Finish(fd, text) => ActionView::Finish(*fd, text@),
        }
    }
}

/// The text that `String::from_utf8_lossy` makes of given bytes: their UTF-8
/// reading, with the replacement character in place of each part that is not
/// UTF-8.
pub uninterp spec fn utf8_lossy(bytes: Seq<u8>) -> Seq<char>;

/// `String::from_utf8_lossy`, with its result made a `String` of its own.
/// Bytes that are UTF-8 come out as the text they encode.
#[verifier::external_body]
fn lossy_text(bytes: &[u8]) -> (text: String)
    ensures
        text@ == utf8_lossy(bytes@),
        valid_utf8(bytes@) ==> text@ == decode_utf8(bytes@),
{
    String::from_utf8_lossy(bytes).into_owned()
}

/// Whether a content type is the plain text that the daemon collects.
pub open spec fn is_plain_text(mime: Seq<char>) -> bool {
    mime == "text/plain"@
}

/// The mathematical value of a [`Transfer`].
pub struct TransferView {
    pub phase: Phase,
    pub read_end: Option<i32>,
    pub buffer: Seq<u8>,
}

impl TransferView {
    /// The transfer at rest.
    pub open spec fn idle() -> TransferView {
        TransferView { phase: Phase::Idle, read_end: None, buffer: Seq::empty() }
    }

    /// A transfer holds a read end exactly while it drains, and holds bytes
    /// only then.
    pub open spec fn wf(self) -> bool {
        match self.phase {
            Phase::Idle => self == Self::idle(),
            Phase::AwaitingData => self.read_end.is_none() && self.buffer.len() == 0,
            Phase::Draining => self.read_end.is_some(),
        }
    }

    /// An offer: a plain-text one is taken up when the transfer is at rest;
    /// any other, and any that comes while a transfer is under way, is let
    /// pass.
    pub open spec fn on_offer(self, mime: Seq<char>) -> (TransferView, ActionView) {
        if is_plain_text(mime) && self.phase == Phase::Idle {
            (
                TransferView { phase: Phase::AwaitingData, read_end: None, buffer: Seq::empty() },
                ActionView::OpenPipe,
            )
        } else {
            (self, ActionView::Nothing)
        }
    }

    /// The outcome of setting up the pipe: with a read end the transfer
    /// starts to drain it; without one it is given up.
    pub open spec fn on_pipe(self, pipe: Option<i32>) -> (TransferView, ActionView) {
        if self.phase == Phase::AwaitingData {
            match pipe {
                Some(fd) => (
                    TransferView { phase: Phase::Draining, read_end: Some(fd), buffer: Seq::empty() },
                    ActionView::Read(fd),
                ),
                None => (Self::idle(), ActionView::Nothing),
            }
        } else {
            (self, ActionView::Nothing)
        }
    }

    /// The outcome of a read while draining: bytes are kept and more are
    /// asked for; the end of the stream, or a failure, ends the transfer with
    /// the text of what was kept.
    pub open spec fn on_read(self, chunk: Option<Seq<u8>>) -> (TransferView, ActionView) {
        if self.phase == Phase::Draining && self.read_end.is_some() {
            match chunk {
                Some(bytes) if bytes.len() > 0 => (
                    TransferView {
                        phase: Phase::Draining,
                        read_end: self.read_end,
                        buffer: self.buffer + bytes,
                    },
                    ActionView::Read(self.read_end.unwrap()),
                ),
                _ => (
                    Self::idle(),
                    ActionView::Finish(self.read_end.unwrap(), utf8_lossy(self.buffer)),
                ),
            }
        } else {
            (self, ActionView::Nothing)
        }
    }

    /// What an event makes of the transfer, and what is to be done.
    pub open spec fn step(self, event: EventView) -> (TransferView, ActionView) {
        match event {
            EventView::Offer(mime) => self.on_offer(mime),
            EventView::PipeOpened(fd) => self.on_pipe(Some(fd)),
            EventView::PipeFailed => self.on_pipe(None),
            EventView::Chunk(bytes) => self.on_read(Some(bytes)),
            EventView::ReadFailed => self.on_read(None),
        }
    }

    /// What a run of events makes of the transfer, and the actions it asks
    /// for, one per event.
    pub open spec fn run(self, events: Seq<EventView>) -> (TransferView, Seq<ActionView>)
        decreases events.len(),
    {
        if events.len() == 0 {
            (self, Seq::empty())
        } else {
            let before = self.run(events.drop_last());
            let last = before.0.step(events.last());
            (last.0, before.1.push(last.1))
        }
    }
}

/// Holds state for a data offer transfer.
#[derive(Debug)]
pub struct Transfer {
    phase: Phase,
    pipe: Option<i32>,
    buffer: Vec<u8>,
}

impl View for Transfer {
    type V = TransferView;

    closed spec fn view(&self) -> TransferView {
        TransferView { phase: self.phase, read_end: self.pipe, buffer: self.buffer@ }
    }
}

impl Transfer {
    /// The invariant of a transfer, which every operation keeps.
    pub open spec fn wf(&self) -> bool {
        self@.wf()
    }

    /// A transfer at rest.
    pub fn new() -> (t: Self)
        ensures
            t.wf(),
            t@ == TransferView::idle(),
    {
        Transfer { phase: Phase::Idle, pipe: None, buffer: Vec::new() }
    }

    /// Where the transfer stands.
    pub fn phase(&self) -> (p: Phase)
        ensures
            p == self@.phase,
    {
        self.phase
    }

    /// Takes the read end of the pipe that was set up for this transfer and
    /// starts to drain it. Outside `AwaitingData` the descriptor is not taken
    /// and nothing changes.
    pub fn set_reader(&mut self, fd: i32) -> (action: Action)
        requires
            old(self).wf(),
        ensures
            final(self).wf(),
            (final(self)@, action@) == old(self)@.on_pipe(Some(fd)),
    {
        if self.phase == Phase::AwaitingData {
            self.pipe = Some(fd);
            self.phase = Phase::Draining;
            assert(self@.buffer =~= Seq::empty());
            Action::Read(fd)
        } else {
            Action::Nothing
        }
    }

    /// The descriptor of the read end of the pipe for this transfer, and 1
    /// while it has none.
    pub fn get_reader(&self) -> (fd: i32)
        ensures
            fd == match self@.read_end {
                Some(p) => p,
                None => 1i32,
            },
    {
        match self.pipe {
            Some(p) => p,
            None => 1,
        }
    }

    /// Moves what has been read so far to the end of `st`, as text. Bytes
    /// that are not UTF-8 are replaced, never refused.
    pub fn read_to_string(&mut self, st: &mut String)
        ensures
            final(st)@ == old(st)@ + utf8_lossy(old(self)@.buffer),
            valid_utf8(old(self)@.buffer) ==> final(st)@ == old(st)@ + decode_utf8(
                old(self)@.buffer,
            ),
            final(self)@ == (TransferView { buffer: Seq::empty(), ..old(self)@ }),
    {
        let text = lossy_text(self.buffer.as_slice());
        st.append(text.as_str());
        self.buffer.clear();
    }

    /// Ends the drain: the transfer comes to rest, and the caller is told to
    /// close the read end and is handed `text` as what the transfer brought.
    /// Outside `Draining` nothing changes.
    pub fn finish(&mut self, text: String) -> (action: Action)
        requires
            old(self).wf(),
        ensures
            final(self).wf(),
            old(self)@.phase == Phase::Draining ==> final(self)@ == TransferView::idle()
                && action@ == ActionView::Finish(old(self)@.read_end.unwrap(), text@),
            old(self)@.phase != Phase::Draining ==> final(self)@ == old(self)@ && action@
                == ActionView::Nothing,
    {
        match (self.phase, self.pipe) {
            (Phase::Draining, Some(fd)) => {
                self.phase = Phase::Idle;
                self.pipe = None;
                self.buffer.clear();
                Action::Finish(fd, text)
            },
            _ => Action::Nothing,
        }
    }

    /// Takes one event and says what is to be done about it.
    pub fn step(&mut self, event: Event) -> (action: Action)
        requires
            old(self).wf(),
        ensures
            final(self).wf(),
            (final(self)@, action@) == old(self)@.step(event@),
    {
        match event {
            Event::Offer(mime) => plaintext_handler(self, mime),
            Event::PipeOpened(fd) => start_transfer(self, Some(fd)),
            Event::PipeFailed => start_transfer(self, None),
            Event::Chunk(bytes) => transfer_data(self, Some(bytes)),
            Event::ReadFailed => transfer_data(self, None),
        }
    }
}

/// Handles an offer of content of type `mime_type`: a plain-text offer that
/// finds the transfer at rest starts one, and the caller is asked for a pipe.
pub fn plaintext_handler(transfer: &mut Transfer, mime_type: String) -> (action: Action)
    requires
        old(transfer).wf(),
    ensures
        final(transfer).wf(),
        (final(transfer)@, action@) == old(transfer)@.on_offer(mime_type@),
{
    let plain = "text/plain".to_owned();
    if mime_type == plain && transfer.phase == Phase::Idle {
        transfer.phase = Phase::AwaitingData;
        assert(transfer@.buffer =~= Seq::empty());
        Action::OpenPipe
    } else {
        Action::Nothing
    }
}

/// Handles the outcome of setting up the pipe: `pipe` is the read end, or
/// `None` when the pipe could not be made or the content not asked for.
pub fn start_transfer(transfer: &mut Transfer, pipe: Option<i32>) -> (action: Action)
    requires
        old(transfer).wf(),
    ensures
        final(transfer).wf(),
        (final(transfer)@, action@) == old(transfer)@.on_pipe(pipe),
{
    match pipe {
        Some(fd) => transfer.set_reader(fd),
        None => {
            if transfer.phase == Phase::AwaitingData {
                transfer.phase = Phase::Idle;
                assert(transfer@.buffer =~= Seq::empty());
            }
            Action::Nothing
        },
    }
}

/// Handles the outcome of a read on the pipe: `chunk` holds the bytes that
/// came, none at the end of the stream, or is `None` when the read failed.
pub fn transfer_data(transfer: &mut Transfer, chunk: Option<Vec<u8>>) -> (action: Action)
    requires
        old(transfer).wf(),
    ensures
        final(transfer).wf(),
        (final(transfer)@, action@) == old(transfer)@.on_read(
            match chunk {
                Some(bytes) => Some(bytes@),
                None => None,
            },
        ),
{
    if transfer.phase != Phase::Draining {
        return Action::Nothing;
    }
    match (chunk, transfer.pipe) {
        (Some(bytes), Some(fd)) if bytes.len() > 0 => {
            let mut bytes = bytes;
            transfer.buffer.append(&mut bytes);
            Action::Read(fd)
        },
        _ => {
            let mut text = String::new();
            transfer.read_to_string(&mut text);
            assert(text@ =~= utf8_lossy(old(transfer)@.buffer));
            transfer.finish(text)
        },
    }
}

/// A transfer that is given no plain-text offer stays at rest and asks for
/// nothing, whatever else it is told: no pipe is made for it.
pub proof fn lemma_no_offer_no_pipe(events: Seq<EventView>)
    requires
        forall|i: int|
            0 <= i < events.len() ==> !(#[trigger] events[i] matches EventView::Offer(mime)
                && is_plain_text(mime)),
    ensures
        TransferView::idle().run(events).0 == TransferView::idle(),
        TransferView::idle().run(events).1.len() == events.len(),
        forall|i: int|
            0 <= i < events.len() ==> #[trigger] TransferView::idle().run(events).1[i]
                == ActionView::Nothing,
    decreases events.len(),
{
    if events.len() > 0 {
        let front = events.drop_last();
        assert forall|i: int| 0 <= i < front.len() implies !(#[trigger] front[i] matches EventView::Offer(
            mime,
        ) && is_plain_text(mime)) by {
            assert(front[i] == events[i]);
        }
        lemma_no_offer_no_pipe(front);
        assert(events.last() == events[events.len() - 1]);
    }
}

/// A pipe is asked for in one case only: a plain-text offer that finds the
/// transfer at rest. And every step keeps the invariant.
pub proof fn lemma_pipe_only_on_offer(t: TransferView, event: EventView)
    requires
        t.wf(),
    ensures
        t.step(event).0.wf(),
        t.step(event).1 == ActionView::OpenPipe <==> t.phase == Phase::Idle && (
        event matches EventView::Offer(mime) && is_plain_text(mime)),
        t.phase != Phase::Idle ==> t.step(event).1 != ActionView::OpenPipe,
{
}

/// The read end is handed back on every way out of the drain: a step that
/// ends draining asks the caller to close the very descriptor the transfer
/// held, and brings the text of all the bytes that were read; and while the
/// drain goes on, every read is asked of that same descriptor.
pub proof fn lemma_read_end_is_handed_back(t: TransferView, event: EventView)
    requires
        t.wf(),
        t.phase == Phase::Draining,
    ensures
        t.step(event).0.phase == Phase::Draining || t.step(event).0 == TransferView::idle(),
        t.step(event).0.phase == Phase::Draining ==> t.step(event).0.read_end == t.read_end,
        t.step(event).0.phase != Phase::Draining ==> t.step(event).1 == ActionView::Finish(
            t.read_end.unwrap(),
            utf8_lossy(t.buffer),
        ),
        t.step(event).1 is Read ==> t.step(event).1 == ActionView::Read(t.read_end.unwrap()),
{
}

} // verus!
