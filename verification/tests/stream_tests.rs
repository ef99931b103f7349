use zed_rpc::from_client::{Auth, FromClient, NewWorktree, ShareWorktree, SubscribeToPathRequests, UploadFile, Variant};
use zed_rpc::from_server::{AuthResponse, FromServer, NewWorktreeResponse, PathRequest, ShareWorktreeResponse};
use zed_rpc::{
    round_trip_on_loopback, two_in_order_on_loopback, ChunkedTransport, FailingTransport, Message,
    MessageError, MessageStream,
};

fn auth_message(id: u32, user_id: u32, access_token: &str) -> FromClient {
    FromClient {
        id,
        variant: Some(Variant::Auth(Auth { user_id, access_token: access_token.into() })),
    }
}

#[test]
fn test_round_trip_message() {
    let byte_stream = ChunkedTransport::new(3);

    let message1 = FromClient {
        id: 3,
        variant: Some(Variant::Auth(Auth {
            user_id: 5,
            access_token: "the-access-token".into(),
        })),
    };
    let message2 = FromClient {
        id: 4,
        variant: Some(Variant::UploadFile(UploadFile {
            path: Vec::new(),
            content: format!(
                "a {}long error message that requires a two-byte length delimiter",
                "very ".repeat(60)
            )
            .into(),
        })),
    };

    let mut message_stream = MessageStream::new(byte_stream);
    message_stream.write_message(&message1).unwrap();
    message_stream.write_message(&message2).unwrap();
    let decoded_message1 = message_stream.read_message::<FromClient>().unwrap();
    let decoded_message2 = message_stream.read_message::<FromClient>().unwrap();
    assert_eq!(decoded_message1, message1);
    assert_eq!(decoded_message2, message2);
}

#[test]
fn round_trip_is_identical_for_every_chunking() {
    let message = auth_message(7, 42, "token");
    let mut decoded = Vec::new();
    for chunk_size in [1usize, 3, 1024] {
        let mut stream = MessageStream::new(ChunkedTransport::new(chunk_size));
        stream.write_message(&message).unwrap();
        decoded.push(stream.read_message::<FromClient>().unwrap());
    }
    assert_eq!(decoded[0], message);
    assert_eq!(decoded[0], decoded[1]);
    assert_eq!(decoded[1], decoded[2]);
}

#[test]
fn order_is_preserved_across_two_writes() {
    let first = auth_message(1, 10, "first");
    let second = auth_message(2, 20, "second");
    let mut stream = MessageStream::new(ChunkedTransport::new(2));
    stream.write_message(&first).unwrap();
    stream.write_message(&second).unwrap();
    assert_eq!(stream.read_message::<FromClient>().unwrap(), first);
    assert_eq!(stream.read_message::<FromClient>().unwrap(), second);
}

#[test]
fn server_direction_round_trips_too() {
    let response = FromServer {
        id: 9,
        variant: Some(zed_rpc::from_server::Variant::AuthResponse(AuthResponse {
            accepted: true,
        })),
    };
    let event = FromServer {
        id: 9,
        variant: Some(zed_rpc::from_server::Variant::PathRequest(PathRequest {
            path: vec![b'/', b'a', b'b'],
        })),
    };
    let mut stream = MessageStream::new(ChunkedTransport::new(3));
    stream.write_message(&response).unwrap();
    stream.write_message(&event).unwrap();
    assert_eq!(stream.read_message::<FromServer>().unwrap(), response);
    assert_eq!(stream.read_message::<FromServer>().unwrap(), event);
}

#[test]
fn empty_variant_envelope_round_trips() {
    let message = FromClient { id: 0, variant: None };
    let mut stream = MessageStream::new(ChunkedTransport::new(1));
    stream.write_message(&message).unwrap();
    assert_eq!(stream.read_message::<FromClient>().unwrap(), message);
}

#[test]
fn encoding_has_the_documented_layout() {
    let message = auth_message(1, 2, "ab");
    let body = message.encode().unwrap();
    assert_eq!(
        body,
        vec![0, 0, 0, 1, 1, 0, 0, 0, 2, 0, 0, 0, 2, b'a', b'b']
    );
    let decoded = FromClient::decode(&body).unwrap();
    assert_eq!(decoded, message);
}

#[test]
fn every_registered_arm_round_trips() {
    let client_messages = vec![
        FromClient { id: 1, variant: Some(Variant::NewWorktree(NewWorktree {})) },
        FromClient {
            id: 2,
            variant: Some(Variant::ShareWorktree(ShareWorktree { worktree_id: 11 })),
        },
        FromClient {
            id: 3,
            variant: Some(Variant::SubscribeToPathRequests(SubscribeToPathRequests {})),
        },
    ];
    let mut stream = MessageStream::new(ChunkedTransport::new(2));
    for m in &client_messages {
        stream.write_message(m).unwrap();
    }
    for m in &client_messages {
        assert_eq!(&stream.read_message::<FromClient>().unwrap(), m);
    }

    let server_messages = vec![
        FromServer {
            id: 1,
            variant: Some(zed_rpc::from_server::Variant::NewWorktreeResponse(
                NewWorktreeResponse { worktree_id: 11 },
            )),
        },
        FromServer {
            id: 2,
            variant: Some(zed_rpc::from_server::Variant::ShareWorktreeResponse(
                ShareWorktreeResponse { accepted: false },
            )),
        },
    ];
    let mut stream = MessageStream::new(ChunkedTransport::new(2));
    for m in &server_messages {
        stream.write_message(m).unwrap();
    }
    for m in &server_messages {
        assert_eq!(&stream.read_message::<FromServer>().unwrap(), m);
    }
}

#[test]
fn verified_round_trip_helper_agrees() {
    let message = auth_message(6, 33, "tok");
    for chunk_size in [1usize, 3, 64] {
        assert_eq!(round_trip_on_loopback(&message, chunk_size).unwrap(), message);
    }
}

#[test]
fn verified_order_helper_agrees() {
    let first = auth_message(1, 10, "first");
    let second = auth_message(2, 20, "second");
    let (a, b) = two_in_order_on_loopback(&first, &second, 3).unwrap();
    assert_eq!(a, first);
    assert_eq!(b, second);
}

#[test]
fn frame_is_a_big_endian_length_then_the_body() {
    let message = auth_message(1, 2, "ab");
    let body = message.encode().unwrap();
    assert_eq!(body.len(), 15);

    let mut stream = MessageStream::new(ChunkedTransport::new(4));
    stream.write_message(&message).unwrap();
    let mut expected = vec![0, 0, 0, 15];
    expected.extend_from_slice(&body);
    assert_eq!(stream.inner_mut().data, expected);
}

#[test]
fn truncated_header_is_detected() {
    let transport = ChunkedTransport { data: vec![0, 0], read_offset: 0, chunk_size: 3 };
    let mut stream = MessageStream::new(transport);
    let err = stream.read_message::<FromClient>().unwrap_err();
    assert_eq!(err, MessageError::UnexpectedEof);
}

#[test]
fn truncated_body_is_detected() {
    // A header declaring ten body bytes, but only two delivered before
    // the transport closes.
    let transport = ChunkedTransport {
        data: vec![0, 0, 0, 10, 1, 2],
        read_offset: 0,
        chunk_size: 3,
    };
    let mut stream = MessageStream::new(transport);
    let err = stream.read_message::<FromClient>().unwrap_err();
    assert_eq!(err, MessageError::UnexpectedEof);
}

#[test]
fn empty_stream_reports_end_of_stream() {
    let mut stream = MessageStream::new(ChunkedTransport::new(3));
    let err = stream.read_message::<FromClient>().unwrap_err();
    assert_eq!(err, MessageError::UnexpectedEof);
}

#[test]
fn unknown_variant_tag_is_malformed() {
    // One frame whose body is a correlation id followed by tag 9, which
    // names no arm.
    let transport = ChunkedTransport {
        data: vec![0, 0, 0, 5, 0, 0, 0, 1, 9],
        read_offset: 0,
        chunk_size: 3,
    };
    let mut stream = MessageStream::new(transport);
    let err = stream.read_message::<FromClient>().unwrap_err();
    assert_eq!(err, MessageError::MalformedPayload);
}

#[test]
fn invalid_boolean_byte_is_malformed() {
    // A server frame carrying an authentication response whose boolean
    // byte is 2.
    let transport = ChunkedTransport {
        data: vec![0, 0, 0, 6, 0, 0, 0, 1, 1, 2],
        read_offset: 0,
        chunk_size: 3,
    };
    let mut stream = MessageStream::new(transport);
    let err = stream.read_message::<FromServer>().unwrap_err();
    assert_eq!(err, MessageError::MalformedPayload);
}

#[test]
fn invalid_utf8_token_is_malformed() {
    // An authentication arm whose string field holds one byte that is
    // not valid UTF-8.
    let transport = ChunkedTransport {
        data: vec![0, 0, 0, 14, 0, 0, 0, 1, 1, 0, 0, 0, 5, 0, 0, 0, 1, 0xFF],
        read_offset: 0,
        chunk_size: 3,
    };
    let mut stream = MessageStream::new(transport);
    let err = stream.read_message::<FromClient>().unwrap_err();
    assert_eq!(err, MessageError::MalformedPayload);
}

#[test]
fn trailing_garbage_in_body_is_malformed() {
    // An envelope with no variant arm followed by one extra byte.
    let transport = ChunkedTransport {
        data: vec![0, 0, 0, 6, 0, 0, 0, 1, 0, 7],
        read_offset: 0,
        chunk_size: 3,
    };
    let mut stream = MessageStream::new(transport);
    let err = stream.read_message::<FromClient>().unwrap_err();
    assert_eq!(err, MessageError::MalformedPayload);
}

#[test]
fn failing_transport_reports_io_error() {
    let mut stream = MessageStream::new(FailingTransport {});
    let message = auth_message(1, 2, "x");
    assert_eq!(stream.write_message(&message).unwrap_err(), MessageError::TransportIo);
    assert_eq!(
        stream.read_message::<FromClient>().unwrap_err(),
        MessageError::TransportIo
    );
}

#[test]
fn inner_mut_reaches_the_transport() {
    let mut stream = MessageStream::new(ChunkedTransport::new(3));
    stream.write_message(&auth_message(1, 2, "y")).unwrap();
    // Out-of-band access: the transport handle itself, not the framing
    // API.
    let transport = stream.inner_mut();
    assert!(transport.data.len() > 0);
    transport.chunk_size = 1;
    assert_eq!(
        stream.read_message::<FromClient>().unwrap(),
        auth_message(1, 2, "y")
    );
}
