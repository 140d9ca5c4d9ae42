use past_a_box::client::Request;
use past_a_box::clipping::Clipping;
use past_a_box::error::Error;
use past_a_box::server::Response;

fn clip(id: usize, data: &str) -> Clipping {
    Clipping { data: data.to_string(), id }
}

fn all_requests() -> Vec<Request> {
    vec![
        Request::Clipping,
        Request::Delete(0),
        Request::Delete(4294967295),
        Request::Purge,
        Request::Select(0),
        Request::Select(7),
    ]
}

fn all_responses() -> Vec<Response> {
    vec![
        Response::Clippings(vec![]),
        Response::Clippings(vec![clip(0, "a"), clip(1, "b")]),
        Response::Clippings(vec![clip(0, ""), clip(1, "héllo wörld ✓"), clip(2, "multi\nline")]),
        Response::Ack,
    ]
}

#[test]
fn request_bytes_are_tag_then_position() {
    assert_eq!(Request::Clipping.encode(), vec![0, 0, 0, 0]);
    assert_eq!(Request::Delete(5).encode(), vec![1, 0, 0, 0, 5, 0, 0, 0, 0, 0, 0, 0]);
    assert_eq!(Request::Purge.encode(), vec![2, 0, 0, 0]);
    assert_eq!(Request::Select(258).encode(), vec![3, 0, 0, 0, 2, 1, 0, 0, 0, 0, 0, 0]);
    assert_eq!(
        Request::Delete(4294967295).encode(),
        vec![1, 0, 0, 0, 255, 255, 255, 255, 0, 0, 0, 0]
    );
}

#[test]
fn request_bytes_match_bincode_layout() {
    assert_eq!(Request::Clipping.encode(), bincode::serialize(&0u32).unwrap());
    assert_eq!(Request::Delete(9).encode(), bincode::serialize(&(1u32, 9u64)).unwrap());
    assert_eq!(Request::Purge.encode(), bincode::serialize(&2u32).unwrap());
    assert_eq!(Request::Select(77).encode(), bincode::serialize(&(3u32, 77u64)).unwrap());
}

#[test]
fn request_round_trip_for_every_variant() {
    for request in all_requests() {
        let bytes = request.encode();
        assert_eq!(Request::decode(&bytes), Ok(request));
    }
}

#[test]
fn request_decode_lets_trailing_bytes_be() {
    let mut bytes = Request::Delete(3).encode();
    bytes.extend_from_slice(&[9, 9, 9]);
    assert_eq!(Request::decode(&bytes), Ok(Request::Delete(3)));
    let mut bytes = Request::Purge.encode();
    bytes.push(1);
    assert_eq!(Request::decode(&bytes), Ok(Request::Purge));
}

#[test]
fn request_decode_refuses_malformed_bytes() {
    assert_eq!(Request::decode(&[]), Err(Error::ProtocolError));
    assert_eq!(Request::decode(&[0, 0, 0]), Err(Error::ProtocolError));
    assert_eq!(Request::decode(&[4, 0, 0, 0]), Err(Error::ProtocolError));
    assert_eq!(Request::decode(&[0, 0, 0, 1]), Err(Error::ProtocolError));
    assert_eq!(Request::decode(&[255, 255, 255, 255]), Err(Error::ProtocolError));
    assert_eq!(Request::decode(&[1, 0, 0, 0]), Err(Error::ProtocolError));
    assert_eq!(Request::decode(&[1, 0, 0, 0, 5, 0, 0, 0, 0, 0, 0]), Err(Error::ProtocolError));
    assert_eq!(Request::decode(&[3, 0, 0, 0, 5]), Err(Error::ProtocolError));
}

#[test]
fn frame_len_tells_how_long_a_request_is() {
    assert_eq!(Request::frame_len(&[0, 0, 0, 0]), Some(4));
    assert_eq!(Request::frame_len(&[1, 0, 0, 0]), Some(12));
    assert_eq!(Request::frame_len(&[2, 0, 0, 0]), Some(4));
    assert_eq!(Request::frame_len(&[3, 0, 0, 0, 1, 2]), Some(12));
    assert_eq!(Request::frame_len(&[4, 0, 0, 0]), None);
    assert_eq!(Request::frame_len(&[0, 1, 0, 0]), None);
    assert_eq!(Request::frame_len(&[0, 0, 0]), None);
    assert_eq!(Request::frame_len(&[]), None);
    for request in all_requests() {
        let bytes = request.encode();
        assert_eq!(Request::frame_len(&bytes[..4]), Some(bytes.len()));
    }
}

#[test]
fn response_bytes_are_tag_count_and_clippings() {
    assert_eq!(Response::Ack.encode(), vec![1, 0, 0, 0]);
    assert_eq!(
        Response::Clippings(vec![]).encode(),
        vec![0, 0, 0, 0, 0, 0, 0, 0, 0, 0, 0, 0]
    );
    let mut expected = vec![0, 0, 0, 0, 2, 0, 0, 0, 0, 0, 0, 0];
    expected.extend_from_slice(&[1, 0, 0, 0, 0, 0, 0, 0, b'a', 0, 0, 0, 0, 0, 0, 0, 0]);
    expected.extend_from_slice(&[2, 0, 0, 0, 0, 0, 0, 0, 0xc3, 0xa9, 1, 0, 0, 0, 0, 0, 0, 0]);
    assert_eq!(Response::Clippings(vec![clip(0, "a"), clip(1, "é")]).encode(), expected);
}

#[test]
fn response_bytes_match_bincode_layout() {
    assert_eq!(Response::Ack.encode(), bincode::serialize(&1u32).unwrap());
    let items = vec![("foo".to_string(), 0u64), ("bär".to_string(), 1u64), (String::new(), 2u64)];
    let expected = bincode::serialize(&(0u32, items)).unwrap();
    let response = Response::Clippings(vec![clip(0, "foo"), clip(1, "bär"), clip(2, "")]);
    assert_eq!(response.encode(), expected);
}

#[test]
fn response_round_trip_for_every_variant() {
    for response in all_responses() {
        let bytes = response.encode();
        assert_eq!(Response::decode(&bytes), Ok(response.clone()));
        let mut longer = bytes.clone();
        longer.extend_from_slice(&[1, 2, 3]);
        assert_eq!(Response::decode(&longer), Ok(response));
    }
}

#[test]
fn response_decode_refuses_malformed_bytes() {
    assert_eq!(Response::decode(&[]), Err(Error::ProtocolError));
    assert_eq!(Response::decode(&[1, 0, 0]), Err(Error::ProtocolError));
    assert_eq!(Response::decode(&[2, 0, 0, 0]), Err(Error::ProtocolError));
    assert_eq!(Response::decode(&[0, 0, 0, 0]), Err(Error::ProtocolError));
    assert_eq!(Response::decode(&[0, 0, 0, 0, 1, 0, 0, 0, 0, 0, 0]), Err(Error::ProtocolError));
    // one clipping announced, none follows
    assert_eq!(
        Response::decode(&[0, 0, 0, 0, 1, 0, 0, 0, 0, 0, 0, 0]),
        Err(Error::ProtocolError)
    );
    // an absurd count with nothing behind it
    assert_eq!(
        Response::decode(&[0, 0, 0, 0, 255, 255, 255, 255, 255, 255, 255, 255]),
        Err(Error::ProtocolError)
    );
}

#[test]
fn response_decode_refuses_a_truncated_clipping() {
    let bytes = Response::Clippings(vec![clip(0, "abc"), clip(1, "de")]).encode();
    for cut in 0..bytes.len() {
        assert_eq!(Response::decode(&bytes[..cut]), Err(Error::ProtocolError), "cut at {}", cut);
    }
    assert!(Response::decode(&bytes).is_ok());
}

#[test]
fn response_decode_refuses_text_that_is_not_utf8() {
    let mut bytes = vec![0, 0, 0, 0, 1, 0, 0, 0, 0, 0, 0, 0];
    bytes.extend_from_slice(&[2, 0, 0, 0, 0, 0, 0, 0, 0xff, 0xfe]);
    bytes.extend_from_slice(&[0, 0, 0, 0, 0, 0, 0, 0]);
    assert_eq!(Response::decode(&bytes), Err(Error::ProtocolError));
    // a text length that reaches past the end
    let mut bytes = vec![0, 0, 0, 0, 1, 0, 0, 0, 0, 0, 0, 0];
    bytes.extend_from_slice(&[200, 0, 0, 0, 0, 0, 0, 0, b'a', b'b']);
    assert_eq!(Response::decode(&bytes), Err(Error::ProtocolError));
}

#[test]
fn response_decode_reads_what_bincode_wrote() {
    let items = vec![("x".to_string(), 5u64), ("yz".to_string(), 6u64)];
    let bytes = bincode::serialize(&(0u32, items)).unwrap();
    assert_eq!(Response::decode(&bytes), Ok(Response::Clippings(vec![clip(5, "x"), clip(6, "yz")])));
    let bytes = bincode::serialize(&(3u32, 4294967295u64)).unwrap();
    assert_eq!(Request::decode(&bytes), Ok(Request::Select(4294967295)));
}

#[test]
fn cloned_response_is_equal() {
    for response in all_responses() {
        assert_eq!(response.clone(), response);
    }
}
