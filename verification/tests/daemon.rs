use past_a_box::client::Request;
use past_a_box::clipping::Clipping;
use past_a_box::config::Config;
use past_a_box::daemon::{api_handler, serve, Daemon, Handled, Served};
use past_a_box::error::Error;
use past_a_box::event_loop::{EventLoop, FRAME_INTERVAL};
use past_a_box::server::Response;

fn clip(id: usize, data: &str) -> Clipping {
    Clipping { data: data.to_string(), id }
}

fn ack() -> Handled {
    Handled { response: Response::Ack, clipboard: None, error: None }
}

#[test]
fn new_daemon_holds_nothing() {
    let daemon = Daemon::new();
    assert_eq!(daemon.storage.len(), 0);
    assert_eq!(daemon.storage.next_id(), 0);
}

#[test]
fn listing_numbers_clippings_by_position() {
    let mut daemon = Daemon::new();
    daemon.storage.append("foo".to_string());
    daemon.storage.append("bar".to_string());
    let handled = api_handler(&mut daemon.storage, Request::Clipping);
    assert_eq!(
        handled,
        Handled {
            response: Response::Clippings(vec![clip(0, "foo"), clip(1, "bar")]),
            clipboard: None,
            error: None,
        }
    );
    assert_eq!(api_handler(&mut daemon.storage, Request::Delete(0)), ack());
    let handled = api_handler(&mut daemon.storage, Request::Clipping);
    assert_eq!(handled.response, Response::Clippings(vec![clip(0, "bar")]));
    assert_eq!(daemon.storage.get_clips(), vec![clip(1, "bar")]);
}

#[test]
fn listing_of_an_empty_store_is_empty() {
    let mut daemon = Daemon::new();
    let handled = api_handler(&mut daemon.storage, Request::Clipping);
    assert_eq!(handled.response, Response::Clippings(vec![]));
}

#[test]
fn select_hands_out_only_the_text_at_the_position() {
    let mut daemon = Daemon::new();
    for t in ["a", "b", "c"].iter() {
        daemon.storage.append(t.to_string());
    }
    let handled = api_handler(&mut daemon.storage, Request::Select(1));
    assert_eq!(
        handled,
        Handled { response: Response::Ack, clipboard: Some("b".to_string()), error: None }
    );
    assert_eq!(daemon.storage.active(), Some(1));
    assert_eq!(api_handler(&mut daemon.storage, Request::Clipping).clipboard, None);
    assert_eq!(api_handler(&mut daemon.storage, Request::Delete(0)).clipboard, None);
    assert_eq!(api_handler(&mut daemon.storage, Request::Purge).clipboard, None);
}

#[test]
fn commands_on_missing_positions_are_acknowledged_and_reported() {
    let mut daemon = Daemon::new();
    daemon.storage.append("a".to_string());
    let missing =
        Handled { response: Response::Ack, clipboard: None, error: Some(Error::NotFound) };
    assert_eq!(api_handler(&mut daemon.storage, Request::Select(1)), missing);
    assert_eq!(api_handler(&mut daemon.storage, Request::Delete(1)), missing);
    assert_eq!(api_handler(&mut daemon.storage, Request::Delete(4294967295)), missing);
    assert_eq!(daemon.storage.get_clips(), vec![clip(0, "a")]);
    assert_eq!(daemon.storage.active(), None);
}

#[test]
fn purge_is_acknowledged_and_empties_the_store() {
    let mut daemon = Daemon::new();
    assert_eq!(api_handler(&mut daemon.storage, Request::Purge), ack());
    daemon.storage.append("a".to_string());
    daemon.storage.append("b".to_string());
    assert_eq!(api_handler(&mut daemon.storage, Request::Purge), ack());
    assert_eq!(daemon.storage.len(), 0);
}

#[test]
fn served_bytes_end_to_end() {
    let mut daemon = Daemon::new();
    daemon.storage.append("foo".to_string());
    daemon.storage.append("bar".to_string());

    let served = serve(&mut daemon.storage, &Request::Clipping.encode());
    assert_eq!(served.error, None);
    assert_eq!(served.clipboard, None);
    assert_eq!(
        Response::decode(&served.reply.unwrap()),
        Ok(Response::Clippings(vec![clip(0, "foo"), clip(1, "bar")]))
    );

    let served = serve(&mut daemon.storage, &Request::Delete(0).encode());
    assert_eq!(Response::decode(&served.reply.unwrap()), Ok(Response::Ack));

    let served = serve(&mut daemon.storage, &Request::Clipping.encode());
    assert_eq!(
        Response::decode(&served.reply.unwrap()),
        Ok(Response::Clippings(vec![clip(0, "bar")]))
    );

    let served = serve(&mut daemon.storage, &Request::Select(0).encode());
    assert_eq!(served.clipboard, Some("bar".to_string()));
    assert_eq!(served.reply, Some(vec![1, 0, 0, 0]));
}

#[test]
fn malformed_request_gets_no_reply_and_the_next_is_served() {
    let mut daemon = Daemon::new();
    daemon.storage.append("foo".to_string());
    for bad in [&[][..], &[9, 9, 9, 9][..], &[1, 0, 0, 0, 1][..], &[0, 0][..]] {
        let served = serve(&mut daemon.storage, bad);
        assert_eq!(
            served,
            Served { reply: None, clipboard: None, error: Some(Error::ProtocolError) }
        );
        assert_eq!(daemon.storage.get_clips(), vec![clip(0, "foo")]);
    }
    let served = serve(&mut daemon.storage, &Request::Clipping.encode());
    assert_eq!(
        Response::decode(&served.reply.unwrap()),
        Ok(Response::Clippings(vec![clip(0, "foo")]))
    );
}

#[test]
fn missing_position_is_served_with_an_acknowledgement() {
    let mut daemon = Daemon::new();
    let served = serve(&mut daemon.storage, &Request::Delete(3).encode());
    assert_eq!(
        served,
        Served { reply: Some(vec![1, 0, 0, 0]), clipboard: None, error: Some(Error::NotFound) }
    );
}

#[test]
fn config_prefers_environment_over_file_over_default() {
    assert_eq!(Config::parse(None, None).socket, "/tmp/pasta.sock");
    assert_eq!(Config::parse(Some("/run/a.sock".to_string()), None).socket, "/run/a.sock");
    assert_eq!(Config::parse(None, Some("/run/b.sock".to_string())).socket, "/run/b.sock");
    assert_eq!(
        Config::parse(Some("/run/a.sock".to_string()), Some("/run/b.sock".to_string())).socket,
        "/run/b.sock"
    );
    assert_eq!(Config::parse(Some(String::new()), None).socket, "");
}

#[test]
fn event_loop_paces_rounds() {
    assert_eq!(FRAME_INTERVAL, 16);
    let mut event_loop = EventLoop::new(100);
    assert_eq!(event_loop.pause(100), 16);
    assert_eq!(event_loop.pause(101), 15);
    assert_eq!(event_loop.pause(115), 1);
    assert_eq!(event_loop.pause(116), 0);
    assert_eq!(event_loop.pause(5000), 0);
    assert_eq!(event_loop.pause(99), 16);
    event_loop.finish_round(200);
    assert_eq!(event_loop.pause(210), 6);
}

#[test]
fn event_loop_waits_only_when_idle() {
    let mut event_loop = EventLoop::new(0);
    assert!(!event_loop.must_wait(0));
    assert!(!event_loop.must_wait(3));
    event_loop.finish_round(16);
    assert!(event_loop.must_wait(0));
    assert!(!event_loop.must_wait(1));
    event_loop.needs_update();
    assert!(!event_loop.must_wait(0));
    event_loop.finish_round(32);
    assert!(event_loop.must_wait(0));
}
