use past_a_box::capture::dispatch;
use past_a_box::clipboard::{
    plaintext_handler, start_transfer, transfer_data, Action, Event, Phase, Transfer, CHUNK_SIZE,
};
use past_a_box::clipping::Clipping;
use past_a_box::clippings_storage::ClippingStorage;

fn offer(mime: &str) -> Event {
    Event::Offer(mime.to_string())
}

#[test]
fn new_transfer_is_idle() {
    let t = Transfer::new();
    assert_eq!(t.phase(), Phase::Idle);
    assert_eq!(t.get_reader(), 1);
    assert_eq!(CHUNK_SIZE, 255);
}

#[test]
fn plain_text_offer_starts_a_transfer() {
    let mut t = Transfer::new();
    assert_eq!(t.step(offer("text/plain")), Action::OpenPipe);
    assert_eq!(t.phase(), Phase::AwaitingData);
    assert_eq!(t.step(Event::PipeOpened(7)), Action::Read(7));
    assert_eq!(t.phase(), Phase::Draining);
    assert_eq!(t.get_reader(), 7);
    assert_eq!(t.step(Event::Chunk(b"hello ".to_vec())), Action::Read(7));
    assert_eq!(t.step(Event::Chunk(b"world".to_vec())), Action::Read(7));
    assert_eq!(t.phase(), Phase::Draining);
    assert_eq!(t.step(Event::Chunk(Vec::new())), Action::Finish(7, "hello world".to_string()));
    assert_eq!(t.phase(), Phase::Idle);
    assert_eq!(t.get_reader(), 1);
}

#[test]
fn other_content_types_are_ignored() {
    let mut t = Transfer::new();
    for mime in ["text/html", "image/png", "", "text/plain;charset=utf-8", "TEXT/PLAIN", "text/plain "] {
        assert_eq!(t.step(offer(mime)), Action::Nothing);
        assert_eq!(t.phase(), Phase::Idle);
    }
}

#[test]
fn transfer_without_matching_offer_never_asks_for_a_pipe() {
    let mut t = Transfer::new();
    let events = vec![
        offer("text/html"),
        Event::PipeOpened(3),
        Event::Chunk(b"abc".to_vec()),
        Event::Chunk(Vec::new()),
        Event::ReadFailed,
        Event::PipeFailed,
        offer("image/png"),
        Event::PipeOpened(4),
    ];
    for event in events {
        let action = t.step(event);
        assert_ne!(action, Action::OpenPipe);
        assert_eq!(action, Action::Nothing);
        assert_eq!(t.phase(), Phase::Idle);
        assert_eq!(t.get_reader(), 1);
    }
}

#[test]
fn second_offer_during_a_transfer_is_ignored() {
    let mut t = Transfer::new();
    assert_eq!(t.step(offer("text/plain")), Action::OpenPipe);
    assert_eq!(t.step(offer("text/plain")), Action::Nothing);
    assert_eq!(t.phase(), Phase::AwaitingData);
    assert_eq!(t.step(Event::PipeOpened(5)), Action::Read(5));
    assert_eq!(t.step(offer("text/plain")), Action::Nothing);
    assert_eq!(t.step(Event::PipeOpened(6)), Action::Nothing);
    assert_eq!(t.phase(), Phase::Draining);
    assert_eq!(t.get_reader(), 5);
    assert_eq!(t.step(Event::Chunk(b"x".to_vec())), Action::Read(5));
    assert_eq!(t.step(Event::Chunk(Vec::new())), Action::Finish(5, "x".to_string()));
    assert_eq!(t.step(offer("text/plain")), Action::OpenPipe);
}

#[test]
fn pipe_failure_resets_to_idle() {
    let mut t = Transfer::new();
    assert_eq!(t.step(offer("text/plain")), Action::OpenPipe);
    assert_eq!(t.step(Event::PipeFailed), Action::Nothing);
    assert_eq!(t.phase(), Phase::Idle);
    assert_eq!(t.step(offer("text/plain")), Action::OpenPipe);
}

#[test]
fn read_failure_ends_with_what_was_read() {
    let mut t = Transfer::new();
    t.step(offer("text/plain"));
    t.step(Event::PipeOpened(9));
    assert_eq!(t.step(Event::Chunk(b"part".to_vec())), Action::Read(9));
    assert_eq!(t.step(Event::ReadFailed), Action::Finish(9, "part".to_string()));
    assert_eq!(t.phase(), Phase::Idle);
    t.step(offer("text/plain"));
    t.step(Event::PipeOpened(10));
    assert_eq!(t.step(Event::ReadFailed), Action::Finish(10, String::new()));
    assert_eq!(t.phase(), Phase::Idle);
}

#[test]
fn bytes_that_are_not_utf8_are_replaced() {
    let mut t = Transfer::new();
    t.step(offer("text/plain"));
    t.step(Event::PipeOpened(3));
    t.step(Event::Chunk(vec![b'a', 0xff, b'b']));
    assert_eq!(t.step(Event::Chunk(Vec::new())), Action::Finish(3, "a\u{fffd}b".to_string()));
}

#[test]
fn a_character_split_over_two_reads_is_kept_whole() {
    let mut t = Transfer::new();
    t.step(offer("text/plain"));
    t.step(Event::PipeOpened(3));
    t.step(Event::Chunk(vec![b'h', 0xc3]));
    t.step(Event::Chunk(vec![0xa9]));
    assert_eq!(t.step(Event::Chunk(Vec::new())), Action::Finish(3, "hé".to_string()));
}

#[test]
fn buffer_does_not_leak_into_the_next_transfer() {
    let mut t = Transfer::new();
    t.step(offer("text/plain"));
    t.step(Event::PipeOpened(3));
    t.step(Event::Chunk(b"first".to_vec()));
    assert_eq!(t.step(Event::ReadFailed), Action::Finish(3, "first".to_string()));
    t.step(offer("text/plain"));
    t.step(Event::PipeOpened(4));
    t.step(Event::Chunk(b"second".to_vec()));
    assert_eq!(t.step(Event::Chunk(Vec::new())), Action::Finish(4, "second".to_string()));
}

#[test]
fn handlers_by_name_do_what_step_does() {
    let mut t = Transfer::new();
    assert_eq!(plaintext_handler(&mut t, "text/rtf".to_string()), Action::Nothing);
    assert_eq!(start_transfer(&mut t, Some(4)), Action::Nothing);
    assert_eq!(transfer_data(&mut t, Some(b"zz".to_vec())), Action::Nothing);
    assert_eq!(plaintext_handler(&mut t, "text/plain".to_string()), Action::OpenPipe);
    assert_eq!(transfer_data(&mut t, Some(b"zz".to_vec())), Action::Nothing);
    assert_eq!(start_transfer(&mut t, None), Action::Nothing);
    assert_eq!(t.phase(), Phase::Idle);
    assert_eq!(plaintext_handler(&mut t, "text/plain".to_string()), Action::OpenPipe);
    assert_eq!(start_transfer(&mut t, Some(4)), Action::Read(4));
    assert_eq!(transfer_data(&mut t, Some(b"ab".to_vec())), Action::Read(4));
    assert_eq!(transfer_data(&mut t, None), Action::Finish(4, "ab".to_string()));
}

#[test]
fn set_reader_is_taken_only_while_awaiting() {
    let mut t = Transfer::new();
    assert_eq!(t.set_reader(8), Action::Nothing);
    assert_eq!(t.get_reader(), 1);
    t.step(offer("text/plain"));
    assert_eq!(t.set_reader(8), Action::Read(8));
    assert_eq!(t.get_reader(), 8);
    assert_eq!(t.set_reader(9), Action::Nothing);
    assert_eq!(t.get_reader(), 8);
}

#[test]
fn read_to_string_moves_the_buffer_out() {
    let mut t = Transfer::new();
    t.step(offer("text/plain"));
    t.step(Event::PipeOpened(3));
    t.step(Event::Chunk(b"abc".to_vec()));
    let mut st = String::from("> ");
    t.read_to_string(&mut st);
    assert_eq!(st, "> abc");
    t.read_to_string(&mut st);
    assert_eq!(st, "> abc");
    assert_eq!(t.phase(), Phase::Draining);
    assert_eq!(t.step(Event::Chunk(Vec::new())), Action::Finish(3, String::new()));
}

#[test]
fn finish_outside_draining_changes_nothing() {
    let mut t = Transfer::new();
    assert_eq!(t.finish("x".to_string()), Action::Nothing);
    assert_eq!(t.phase(), Phase::Idle);
    t.step(offer("text/plain"));
    assert_eq!(t.finish("x".to_string()), Action::Nothing);
    assert_eq!(t.phase(), Phase::AwaitingData);
    t.step(Event::PipeOpened(2));
    assert_eq!(t.finish("x".to_string()), Action::Finish(2, "x".to_string()));
    assert_eq!(t.phase(), Phase::Idle);
}

fn capture(store: &mut ClippingStorage, t: &mut Transfer, fd: i32, text: &str) {
    assert_eq!(dispatch(store, t, offer("text/plain")), Action::OpenPipe);
    assert_eq!(dispatch(store, t, Event::PipeOpened(fd)), Action::Read(fd));
    assert_eq!(dispatch(store, t, Event::Chunk(text.as_bytes().to_vec())), Action::Read(fd));
    assert_eq!(
        dispatch(store, t, Event::Chunk(Vec::new())),
        Action::Finish(fd, text.to_string())
    );
}

#[test]
fn completed_transfers_reach_the_store_without_repeats() {
    let mut store = ClippingStorage::new();
    let mut t = Transfer::new();
    capture(&mut store, &mut t, 3, "foo");
    capture(&mut store, &mut t, 4, "foo");
    capture(&mut store, &mut t, 5, "bar");
    capture(&mut store, &mut t, 6, "foo");
    assert_eq!(
        store.get_clips(),
        vec![
            Clipping { data: "foo".to_string(), id: 0 },
            Clipping { data: "bar".to_string(), id: 1 },
            Clipping { data: "foo".to_string(), id: 2 },
        ]
    );
}

#[test]
fn events_that_complete_nothing_leave_the_store_alone() {
    let mut store = ClippingStorage::new();
    let mut t = Transfer::new();
    store.append("kept".to_string());
    assert_eq!(dispatch(&mut store, &mut t, offer("image/png")), Action::Nothing);
    assert_eq!(dispatch(&mut store, &mut t, Event::Chunk(b"x".to_vec())), Action::Nothing);
    assert_eq!(dispatch(&mut store, &mut t, offer("text/plain")), Action::OpenPipe);
    assert_eq!(dispatch(&mut store, &mut t, Event::PipeFailed), Action::Nothing);
    assert_eq!(store.get_clips(), vec![Clipping { data: "kept".to_string(), id: 0 }]);
}
