use castoff::fcast::{
    decode_payload, frame_length, missing, read_frame, write_empty, write_frame, FrameError,
    Opcode, PlayMessage, PlayTarget, PlaybackState, PlaybackUpdateMessage, Real, MAX_PACKET_SIZE,
};

fn number(value: f64) -> Real {
    Real {
        bits: value.to_bits(),
    }
}

#[test]
fn playback_update_state_serializes_as_numeric_on_the_wire() {
    let msg = PlaybackUpdateMessage {
        generation_time: 1234,
        state: PlaybackState::Playing,
        time: Some(number(1.5)),
        duration: Some(number(10.0)),
        speed: Some(number(1.0)),
    };
    let value: serde_json::Value = serde_json::to_value(msg.state.to_u8()).unwrap();
    assert_eq!(value, serde_json::Value::from(1));

    for (state, expected) in [
        (PlaybackState::Idle, 0),
        (PlaybackState::Playing, 1),
        (PlaybackState::Paused, 2),
    ] {
        let encoded = serde_json::to_string(&state.to_u8()).unwrap();
        assert_eq!(encoded, expected.to_string());
    }
}

#[test]
fn playback_state_round_trips_through_numeric_wire_values() {
    for (raw, expected) in [
        ("0", PlaybackState::Idle),
        ("1", PlaybackState::Playing),
        ("2", PlaybackState::Paused),
    ] {
        let number: u8 = serde_json::from_str(raw).unwrap();
        let decoded: PlaybackState = PlaybackState::from_u8(number).unwrap();
        assert_eq!(decoded, expected);
    }
}

#[test]
fn a_number_that_is_no_state_is_refused() {
    assert_eq!(PlaybackState::from_u8(3), None);
    assert_eq!(PlaybackState::from_u8(255), None);
}

#[test]
fn play_container_mime_type_is_an_explicit_target_override() {
    for container in [
        "text/html",
        "TEXT/HTML",
        " text/html ",
        "application/xhtml+xml",
        "text/html; charset=utf-8",
        "text/html ;charset=UTF-8",
        "application/xhtml+xml;charset=utf-8",
    ] {
        let msg = PlayMessage {
            container: Some(container.to_string()),
            url: Some("http://example.invalid/dashboard".to_string()),
            ..Default::default()
        };
        assert_eq!(
            msg.explicit_target(),
            Some(PlayTarget::Webpage),
            "container {container:?} must select a web page"
        );
    }

    for container in [
        "video/mp4",
        "audio/mpeg",
        "text/plain",
        "video/mp4; codecs=\"avc1.42E01E\"",
    ] {
        let msg = PlayMessage {
            container: Some(container.to_string()),
            url: Some("https://example.invalid/watch.mp4".to_string()),
            ..Default::default()
        };
        assert_eq!(
            msg.explicit_target(),
            Some(PlayTarget::Media),
            "container {container:?} must stay on the media path"
        );
    }

    for container in [None, Some(""), Some("   "), Some("; charset=utf-8")] {
        let msg = PlayMessage {
            container: container.map(str::to_string),
            url: Some("https://example.invalid/unknown".to_string()),
            ..Default::default()
        };
        assert_eq!(
            msg.explicit_target(),
            None,
            "container {container:?} must leave the decision to the receiver"
        );
    }
}

#[test]
fn every_opcode_reads_back_from_its_code() {
    for code in 0..=21u8 {
        let opcode = Opcode::from_u8(code).unwrap();
        assert_eq!(opcode.to_u8(), code);
    }
    for code in 22..=255u8 {
        assert_eq!(Opcode::from_u8(code), None);
    }
    assert_eq!(Opcode::from_u8(1), Some(Opcode::Play));
    assert_eq!(Opcode::ImageWallpaperUpdate.to_u8(), 21);
}

#[test]
fn a_ping_is_five_bytes() {
    assert_eq!(write_empty(Opcode::Ping), vec![1, 0, 0, 0, 12]);
    assert_eq!(write_empty(Opcode::Pong), vec![1, 0, 0, 0, 13]);
}

#[test]
fn a_frame_reads_back_as_it_was_written() {
    let body = b"{\"volume\":0.5}";
    let mut stream = write_frame(Opcode::SetVolume, body).unwrap();
    assert_eq!(&stream[..5], &[15, 0, 0, 0, 8]);
    let taken = stream.len();
    stream.extend_from_slice(&write_empty(Opcode::Stop));

    let (frame, used) = read_frame(&stream).unwrap().unwrap();
    assert_eq!(frame.opcode, Opcode::SetVolume);
    assert_eq!(frame.body, body.to_vec());
    assert_eq!(used, taken);

    let (next, rest) = read_frame(&stream[used..]).unwrap().unwrap();
    assert_eq!(next.opcode, Opcode::Stop);
    assert!(next.body.is_empty());
    assert_eq!(used + rest, stream.len());
}

#[test]
fn a_large_body_keeps_its_length() {
    let body = vec![7u8; 300];
    let stream = write_frame(Opcode::Play, &body).unwrap();
    assert_eq!(&stream[..4], &[45, 1, 0, 0]);
    assert_eq!(frame_length(&stream[..4]), Ok(301));
}

#[test]
fn a_body_fits_up_to_the_limit() {
    let largest = vec![0u8; MAX_PACKET_SIZE - 1];
    let stream = write_frame(Opcode::Play, &largest).unwrap();
    assert_eq!(stream.len(), MAX_PACKET_SIZE + 4);
    assert!(read_frame(&stream).is_ok());

    let too_large = vec![0u8; MAX_PACKET_SIZE];
    let err = write_frame(Opcode::Play, &too_large).unwrap_err();
    assert_eq!(err, FrameError::TooLarge);
    assert_eq!(err.message(), "frame too large");
}

#[test]
fn a_stream_that_ends_between_frames_is_no_error() {
    assert!(read_frame(&[]).unwrap().is_none());
}

#[test]
fn a_frame_that_is_cut_short_is_an_error() {
    let stream = write_frame(Opcode::Seek, b"{}").unwrap();
    for n in 1..stream.len() {
        assert_eq!(
            read_frame(&stream[..n]).unwrap_err(),
            FrameError::UnexpectedEnd
        );
    }
    assert_eq!(
        FrameError::UnexpectedEnd.message(),
        "unexpected end of stream inside a frame"
    );
}

#[test]
fn a_length_out_of_bounds_is_an_error() {
    let zero = read_frame(&[0, 0, 0, 0, 1]).unwrap_err();
    assert_eq!(zero, FrameError::InvalidLength(0));
    assert_eq!(zero.message(), "invalid FCast frame length 0");

    let long = read_frame(&[1, 128, 0, 0]).unwrap_err();
    assert_eq!(long, FrameError::InvalidLength(32769));
    assert_eq!(long.message(), "invalid FCast frame length 32769");

    assert_eq!(
        frame_length(&[255, 255, 255, 255]),
        Err(FrameError::InvalidLength(4294967295))
    );
}

#[test]
fn an_unknown_opcode_is_an_error() {
    let err = read_frame(&[1, 0, 0, 0, 99]).unwrap_err();
    assert_eq!(err, FrameError::UnknownOpcode(99));
    assert_eq!(err.message(), "unknown opcode 99");
    assert!(decode_payload(&[99]).is_err());
    assert_eq!(decode_payload(&[1, 2, 3]).unwrap().body, vec![2, 3]);
}

#[test]
fn a_cloned_message_says_the_same() {
    let msg = PlayMessage {
        url: Some("https://example.invalid/a".to_string()),
        volume: Some(number(0.5)),
        headers: Some([("a".to_string(), "b".to_string())].into_iter().collect()),
        ..Default::default()
    };
    let copy = msg.clone();
    assert_eq!(copy.url, msg.url);
    assert_eq!(copy.volume, msg.volume);
    assert_eq!(copy.headers.unwrap().get("a"), Some(&"b".to_string()));
    assert_eq!(copy.container, None);
}

#[test]
fn a_frame_is_read_as_far_as_it_needs() {
    let stream = write_frame(Opcode::Seek, b"{}").unwrap();
    assert_eq!(missing(&[]), 4);
    assert_eq!(missing(&stream[..3]), 1);
    assert_eq!(missing(&stream[..4]), 3);
    assert_eq!(missing(&stream[..6]), 1);
    assert_eq!(missing(&stream), 0);
    assert_eq!(missing(&[0, 0, 0, 0]), 0, "no frame has this length");
    assert_eq!(missing(&[255, 255, 255, 255]), 0);
    assert_eq!(missing(&[1, 0, 0, 0, 12, 1]), 0, "more than one frame is here");
}
