use unilyric::amll_connector::protocol::{
    Artist, ClientMessage, LyricLine, LyricWord, NullString, ProtocolError, ServerMessage,
};

#[test]
fn test_simple_message_encoding() {
    let ping = ClientMessage::Ping;
    let encoded_ping = ping.encode().unwrap();
    assert_eq!(encoded_ping, vec![0x00, 0x00]);

    let pong = ServerMessage::Pong;
    let encoded_pong_bytes = vec![0x01, 0x00];
    let decoded_pong = ServerMessage::decode(&encoded_pong_bytes).unwrap();
    assert_eq!(pong, decoded_pong);
}

#[test]
fn test_set_music_info_roundtrip() {
    let original_message = ClientMessage::SetMusicInfo {
        music_id: NullString::new("id123"),
        music_name: NullString::new("歌曲名"),
        album_id: NullString::new("album456"),
        album_name: NullString::new("专辑名"),
        artists: vec![Artist {
            id: NullString::new("artist789"),
            name: NullString::new("歌手名"),
        }],
        duration: 180000,
    };

    let encoded_bytes = original_message.encode().unwrap();
    let decoded_message = ClientMessage::_decode(&encoded_bytes).unwrap();

    assert_eq!(original_message, decoded_message);
}

#[test]
fn test_set_lyric_roundtrip() {
    let original_message = ClientMessage::SetLyric {
        data: vec![LyricLine {
            start_time: 1000,
            end_time: 5000,
            words: vec![
                LyricWord {
                    start_time: 1000,
                    end_time: 2000,
                    word: NullString::new("Hello"),
                },
                LyricWord {
                    start_time: 2000,
                    end_time: 4000,
                    word: NullString::new("World"),
                },
            ],
            translated_lyric: NullString::new("你好世界"),
            roman_lyric: NullString::new("Konnichiwa Sekai"),
            is_bg: false,
            is_duet: true,
        }],
    };

    let encoded = original_message.encode().unwrap();
    let decoded = ClientMessage::_decode(&encoded).unwrap();

    assert_eq!(original_message, decoded);
}

#[test]
fn test_seek_command_decoding() {
    let seek_bytes: Vec<u8> = vec![0x11, 0x00, 0x30, 0x75, 0x00, 0x00, 0x00, 0x00, 0x00, 0x00];

    let expected_message = ServerMessage::SeekPlayProgress { progress: 30000 };
    let decoded_message = ServerMessage::decode(&seek_bytes).unwrap();

    assert_eq!(expected_message, decoded_message);
}

#[test]
fn texts_are_utf8_with_a_zero_byte() {
    let m = ClientMessage::SetLyricFromTTML { data: NullString::new("é<") };
    assert_eq!(m.encode().unwrap(), vec![11, 0, 0xc3, 0xa9, b'<', 0]);
}

#[test]
fn covers_carry_their_size() {
    let m = ClientMessage::SetMusicAlbumCoverImageData { data: vec![9, 8, 7] };
    let b = m.encode().unwrap();
    assert_eq!(b, vec![4, 0, 3, 0, 0, 0, 9, 8, 7]);
    assert_eq!(ClientMessage::_decode(&b).unwrap(), m);
}

#[test]
fn flags_hold_background_and_duet() {
    let line = LyricLine { is_bg: true, is_duet: true, ..LyricLine::default() };
    let m = ClientMessage::SetLyric { data: vec![line] };
    let b = m.encode().unwrap();
    assert_eq!(b.len(), 2 + 4 + 16 + 4 + 2 + 1);
    assert_eq!(*b.last().unwrap(), 3);
    assert_eq!(ClientMessage::_decode(&b).unwrap(), m);
}

#[test]
fn progress_is_little_endian() {
    let m = ClientMessage::OnPlayProgress { progress: 0x0102 };
    assert_eq!(m.encode().unwrap(), vec![5, 0, 2, 1, 0, 0, 0, 0, 0, 0]);
    assert_eq!(ClientMessage::OnPaused.encode().unwrap(), vec![7, 0]);
    assert_eq!(ClientMessage::OnResumed.encode().unwrap(), vec![8, 0]);
    assert_eq!(ClientMessage::Pong.encode().unwrap(), vec![1, 0]);
}

#[test]
fn bytes_behind_a_message_are_left() {
    let mut b = ClientMessage::Ping.encode().unwrap();
    b.push(77);
    assert_eq!(ClientMessage::_decode(&b).unwrap(), ClientMessage::Ping);
}

#[test]
fn malformed_bytes_are_refused() {
    assert_eq!(ClientMessage::_decode(&[]), Err(ProtocolError::Malformed));
    assert_eq!(ClientMessage::_decode(&[200, 0]), Err(ProtocolError::Malformed));
    assert_eq!(ClientMessage::_decode(&[5, 0, 1]), Err(ProtocolError::Malformed));
    // A text that is not UTF-8, and one without its end.
    assert_eq!(ClientMessage::_decode(&[11, 0, 0xff, 0]), Err(ProtocolError::Malformed));
    assert_eq!(ClientMessage::_decode(&[11, 0, b'a']), Err(ProtocolError::Malformed));
    assert_eq!(ServerMessage::decode(&[0x11]), Err(ProtocolError::Malformed));
}

#[test]
fn different_messages_have_different_bytes() {
    let a = ClientMessage::SetLyricFromTTML { data: NullString::new("a") };
    let b = ClientMessage::SetLyricFromTTML { data: NullString::new("b") };
    assert_ne!(a.encode().unwrap(), b.encode().unwrap());
}
