//! What goes over the wire byte by byte, and what is done about what comes.

use vstd::prelude::*;
use vstd::utf8::{decode_utf8, encode_utf8, valid_utf8};

use super::protocol::{
    artist_bytes, artist_views, artists_bytes, client_bytes, countable, flags, line_bytes,
    line_countable, lines_bytes, lyric_line_views, read_client, read_server, word_bytes, word_views,
    words_bytes, Artist, ClientMessage, ClientView, LyricLine, LyricWord, ServerMessage,
};
use super::types::{SmtcControlCommand, StatusView};
use super::websocket_client::{
    after_message, end_statuses, next_step, reaction, Connection, LifecycleEndReason, NextStep,
    Reaction,
};
use super::wire::{behind, le_bytes, le_value, read_le, read_text, zero_at};

verus! {

/// A number in four bytes, the lowest first.
pub open spec fn in4(x: nat) -> Seq<u8> {
    seq![
        (x % 256) as u8,
        (x / 256 % 256) as u8,
        (x / 256 / 256 % 256) as u8,
        (x / 256 / 256 / 256 % 256) as u8,
    ]
}

/// A number in eight bytes, the lowest first.
pub open spec fn in8(x: nat) -> Seq<u8> {
    in4(x) + in4(x / 256 / 256 / 256 / 256)
}

/// A text in UTF-8 with a zero byte behind it.
pub open spec fn with_zero(s: String) -> Seq<u8> {
    encode_utf8(s@).push(0)
}

/// Numbers in their bytes.
proof fn lemma_in(x: nat)
    ensures
        le_bytes(x, 4) == in4(x),
        le_bytes(x, 8) == in8(x),
        le_bytes(x, 2) == seq![(x % 256) as u8, (x / 256 % 256) as u8],
        le_bytes(x, 1) == seq![(x % 256) as u8],
{
    reveal_with_fuel(le_bytes, 5);
    assert(le_bytes(x, 4) =~= in4(x));
    assert(le_bytes(x, 2) =~= seq![(x % 256) as u8, (x / 256 % 256) as u8]);
    assert(le_bytes(x, 1) =~= seq![(x % 256) as u8]);
    let y = x / 256 / 256 / 256 / 256;
    assert(le_bytes(y, 4) =~= in4(y));
    assert(le_bytes(x, 8) == seq![(x % 256) as u8] + (seq![(x / 256 % 256) as u8] + (
    seq![(x / 256 / 256 % 256) as u8] + (seq![(x / 256 / 256 / 256 % 256) as u8] + le_bytes(
        y,
        4,
    )))));
    assert(le_bytes(x, 8) =~= in8(x));
}

/// An artist on the wire: the id and the name.
pub open spec fn artist_on_wire(a: Artist) -> Seq<u8> {
    with_zero(a.id.0) + with_zero(a.name.0)
}

/// A word on the wire: its start, its end and its text.
pub open spec fn word_on_wire(w: LyricWord) -> Seq<u8> {
    in8(w.start_time as nat) + in8(w.end_time as nat) + with_zero(w.word.0)
}

/// A line on the wire: its start, its end, the number of its words, its words, the
/// translation, the romanization and a byte that is one for a background line, two
/// for a line of the second side and three for one that is both.
pub open spec fn line_on_wire(l: LyricLine) -> Seq<u8> {
    in8(l.start_time as nat) + in8(l.end_time as nat) + in4(l.words@.len()) + l.words@.map_values(
        |w: LyricWord| word_on_wire(w),
    ).flatten() + with_zero(l.translated_lyric.0) + with_zero(l.roman_lyric.0) + seq![
        if l.is_bg && l.is_duet {
            3u8
        } else if l.is_duet {
            2
        } else if l.is_bg {
            1
        } else {
            0
        },
    ]
}

/// The bytes of a list of artists.
proof fn lemma_artists(v: Seq<Artist>)
    ensures
        artists_bytes(artist_views(v)) == v.map_values(|a: Artist| artist_on_wire(a)).flatten(),
    decreases v.len(),
{
    let f = |a: Artist| artist_on_wire(a);
    if v.len() > 0 {
        let rest = v.subrange(1, v.len() as int);
        lemma_artists(rest);
        assert(v.map_values(f).drop_first() =~= rest.map_values(f));
        assert(artist_views(v).subrange(1, v.len() as int) =~= artist_views(rest));
        assert(artist_views(v)[0] == v[0]@);
        assert(artist_bytes(v[0]@) == artist_on_wire(v[0]));
    } else {
        assert(v.map_values(f) =~= Seq::empty());
    }
}

/// The bytes of a list of words.
proof fn lemma_words(v: Seq<LyricWord>)
    ensures
        words_bytes(word_views(v)) == v.map_values(|w: LyricWord| word_on_wire(w)).flatten(),
    decreases v.len(),
{
    let f = |w: LyricWord| word_on_wire(w);
    if v.len() > 0 {
        let rest = v.subrange(1, v.len() as int);
        lemma_words(rest);
        assert(v.map_values(f).drop_first() =~= rest.map_values(f));
        assert(word_views(v).subrange(1, v.len() as int) =~= word_views(rest));
        assert(word_views(v)[0] == v[0]@);
        lemma_in(v[0].start_time as nat);
        lemma_in(v[0].end_time as nat);
        assert(word_bytes(v[0]@) == word_on_wire(v[0]));
    } else {
        assert(v.map_values(f) =~= Seq::empty());
    }
}

/// The bytes of a line.
proof fn lemma_line(l: LyricLine)
    ensures
        line_bytes(l@) == line_on_wire(l),
{
    lemma_words(l.words@);
    lemma_in(l.start_time as nat);
    lemma_in(l.end_time as nat);
    lemma_in(l.words@.len());
    lemma_in(flags(l.is_bg, l.is_duet));
    assert(word_views(l.words@).len() == l.words@.len());
}

/// The bytes of a list of lines.
proof fn lemma_lines(v: Seq<LyricLine>)
    ensures
        lines_bytes(lyric_line_views(v)) == v.map_values(|l: LyricLine| line_on_wire(l)).flatten(),
    decreases v.len(),
{
    let f = |l: LyricLine| line_on_wire(l);
    if v.len() > 0 {
        let rest = v.subrange(1, v.len() as int);
        lemma_lines(rest);
        assert(v.map_values(f).drop_first() =~= rest.map_values(f));
        assert(lyric_line_views(v).subrange(1, v.len() as int) =~= lyric_line_views(rest));
        assert(lyric_line_views(v)[0] == v[0]@);
        lemma_line(v[0]);
    } else {
        assert(v.map_values(f) =~= Seq::empty());
    }
}

/// A message on the wire: two bytes that say which it is, the lower first, and then
/// its fields in order. A list is its length in four bytes and then its entries.
pub proof fn law_message_on_wire(m: ClientMessage)
    ensures
        client_bytes(m@) == match m {
            ClientMessage::Ping => seq![0u8, 0u8],
            ClientMessage::Pong => seq![1u8, 0u8],
            ClientMessage::SetMusicInfo {
                music_id,
                music_name,
                album_id,
                album_name,
                artists,
                duration,
            } => seq![2u8, 0u8] + with_zero(music_id.0) + with_zero(music_name.0) + with_zero(
                album_id.0,
            ) + with_zero(album_name.0) + in4(artists@.len()) + artists@.map_values(
                |a: Artist| artist_on_wire(a),
            ).flatten() + in8(duration as nat),
            ClientMessage::SetMusicAlbumCoverImageData { data } => seq![4u8, 0u8] + in4(
                data@.len(),
            ) + data@,
            ClientMessage::OnPlayProgress { progress } => seq![5u8, 0u8] + in8(progress as nat),
            ClientMessage::OnPaused => seq![7u8, 0u8],
            ClientMessage::OnResumed => seq![8u8, 0u8],
            ClientMessage::SetLyric { data } => seq![10u8, 0u8] + in4(data@.len())
                + data@.map_values(|l: LyricLine| line_on_wire(l)).flatten(),
            ClientMessage::SetLyricFromTTML { data } => seq![11u8, 0u8] + with_zero(data.0),
        },
{
    lemma_in(0);
    lemma_in(1);
    lemma_in(2);
    lemma_in(4);
    lemma_in(5);
    lemma_in(7);
    lemma_in(8);
    lemma_in(10);
    lemma_in(11);
    match m {
        ClientMessage::SetMusicInfo { artists, duration, .. } => {
            lemma_artists(artists@);
            lemma_in(artists@.len());
            lemma_in(duration as nat);
            assert(artist_views(artists@).len() == artists@.len());
        },
        ClientMessage::SetMusicAlbumCoverImageData { data } => {
            lemma_in(data@.len());
        },
        ClientMessage::OnPlayProgress { progress } => {
            lemma_in(progress as nat);
        },
        ClientMessage::SetLyric { data } => {
            lemma_lines(data@);
            lemma_in(data@.len());
            assert(lyric_line_views(data@).len() == data@.len());
        },
        _ => {},
    }
}

/// The number in the eight bytes behind the first two.
pub open spec fn number_behind(b: Seq<u8>) -> int {
    b[2] + 0x100 * b[3] + 0x1_0000 * b[4] + 0x100_0000 * b[5] + 0x1_0000_0000 * b[6]
        + 0x100_0000_0000 * b[7] + 0x1_0000_0000_0000 * b[8] + 0x100_0000_0000_0000 * b[9]
}

/// The value of eight bytes.
proof fn lemma_value(b: Seq<u8>)
    requires
        b.len() >= 10,
    ensures
        read_le(b.subrange(2, b.len() as int), 8) is Some,
        (read_le(b.subrange(2, b.len() as int), 8)->0).0 == number_behind(b),
        number_behind(b) <= u64::MAX,
{
    let t = b.subrange(2, b.len() as int);
    let v = t.subrange(0, 8);
    let v1 = v.subrange(1, 8);
    let v2 = v1.subrange(1, 7);
    let v3 = v2.subrange(1, 6);
    let v4 = v3.subrange(1, 5);
    let v5 = v4.subrange(1, 4);
    let v6 = v5.subrange(1, 3);
    let v7 = v6.subrange(1, 2);
    let v8 = v7.subrange(1, 1);
    assert(le_value(v8) == 0);
    assert(le_value(v7) == b[9]);
    assert(le_value(v6) == b[8] + 256 * le_value(v7));
    assert(le_value(v5) == b[7] + 256 * le_value(v6));
    assert(le_value(v4) == b[6] + 256 * le_value(v5));
    assert(le_value(v3) == b[5] + 256 * le_value(v4));
    assert(le_value(v2) == b[4] + 256 * le_value(v3));
    assert(le_value(v1) == b[3] + 256 * le_value(v2));
    assert(le_value(v) == b[2] + 256 * le_value(v1));
}

/// A message of the player begins with two bytes that say which it is. A volume and
/// a position stand in the eight bytes behind them, the lowest first. Other bytes
/// are no message.
pub proof fn law_player_message(b: Seq<u8>)
    ensures
        b.len() < 2 ==> read_server(b) is None,
        b.len() >= 2 ==> {
            let k = b[0] + 256 * b[1];
            &&& k == 0 ==> read_server(b) == Some(ServerMessage::Ping)
            &&& k == 1 ==> read_server(b) == Some(ServerMessage::Pong)
            &&& k == 12 ==> read_server(b) == Some(ServerMessage::Pause)
            &&& k == 13 ==> read_server(b) == Some(ServerMessage::Resume)
            &&& k == 14 ==> read_server(b) == Some(ServerMessage::ForwardSong)
            &&& k == 15 ==> read_server(b) == Some(ServerMessage::BackwardSong)
            &&& k == 16 && b.len() >= 10 ==> read_server(b) == Some(
                ServerMessage::SetVolume { volume: number_behind(b) as u64 },
            )
            &&& k == 17 && b.len() >= 10 ==> read_server(b) == Some(
                ServerMessage::SeekPlayProgress { progress: number_behind(b) as u64 },
            )
            &&& (k == 16 || k == 17) && b.len() < 10 ==> read_server(b) is None
            &&& (2 <= k < 12 || k > 17) ==> read_server(b) is None
        },
{
    if b.len() >= 2 {
        let v = b.subrange(0, 2);
        let v1 = v.subrange(1, 2);
        let v2 = v1.subrange(1, 1);
        assert(le_value(v2) == 0);
        assert(le_value(v1) == b[1]);
        assert(le_value(v) == b[0] + 256 * le_value(v1));
        assert(behind(b, 2) == b.subrange(2, b.len() as int));
        if b.len() >= 10 {
            lemma_value(b);
        }
    }
}

/// The media session is asked for what the player asks for: to pause, to play, to
/// go to the next song or the one before, and to go to a position or to a volume from
/// zero to one, where the same was not asked for just before. A heartbeat is answered.
pub proof fn law_player_is_obeyed(c: Connection, now: u64, x: u64)
    ensures
        reaction(c, ServerMessage::Ping, now) == Reaction::AnswerPing,
        reaction(c, ServerMessage::Pong, now) == Reaction::Nothing,
        reaction(c, ServerMessage::Pause, now) == Reaction::Pause,
        reaction(c, ServerMessage::Resume, now) == Reaction::Resume,
        reaction(c, ServerMessage::ForwardSong, now) == Reaction::Control(
            SmtcControlCommand::SkipNext,
        ),
        reaction(c, ServerMessage::BackwardSong, now) == Reaction::Control(
            SmtcControlCommand::SkipPrevious,
        ),
        ({
            let seek = reaction(c, ServerMessage::SeekPlayProgress { progress: x }, now);
            let again = c.last_seek is Some && (c.last_seek->0).0 == x && now - (c.last_seek->0).1
                < 500_000_000;
            &&& again ==> seek == Reaction::Nothing
            &&& !again ==> seek == Reaction::Control(SmtcControlCommand::SeekTo(x))
        }),
        ({
            let volume = reaction(c, ServerMessage::SetVolume { volume: x }, now);
            let early = c.last_volume is Some && now - c.last_volume->0 < 100_000_000;
            let unit = x <= 0x3ff0_0000_0000_0000 || x == 0x8000_0000_0000_0000;
            &&& early || !unit ==> volume == Reaction::Nothing
            &&& !early && unit ==> volume == Reaction::Control(SmtcControlCommand::SetVolume(x))
        }),
{
}

/// What is remembered of what the player asks for: the position and the time of a
/// seek that is followed, until the song is paused or goes on, the time of a volume
/// that does not come too early, and that a heartbeat has been answered.
pub proof fn law_requests_are_remembered(c: Connection, m: ServerMessage, now: u64, x: u64)
    ensures
        ({
            let d = after_message(c, m, now);
            &&& m == ServerMessage::Pause || m == ServerMessage::Resume ==> d.last_seek is None
            &&& m == ServerMessage::SeekPlayProgress { progress: x } && reaction(c, m, now)
                != Reaction::Nothing ==> d.last_seek == Some((x, now))
            &&& m == ServerMessage::SeekPlayProgress { progress: x } && reaction(c, m, now)
                == Reaction::Nothing ==> d == c
            &&& !(m is Pause || m is Resume || m is SeekPlayProgress) ==> d.last_seek == c.last_seek
            &&& m is SetVolume && (c.last_volume is None || now - c.last_volume->0 >= 100_000_000)
                ==> d.last_volume == Some(now)
            &&& !(m is SetVolume && (c.last_volume is None || now - c.last_volume->0
                >= 100_000_000)) ==> d.last_volume == c.last_volume
            &&& m is Pong ==> !d.waiting_for_pong && (c.waiting_for_pong ==> d.ping_sent_at is None)
            &&& !(m is Pong) ==> d.waiting_for_pong == c.waiting_for_pong && d.ping_sent_at
                == c.ping_sent_at
        }),
{
}

/// After the end of a connection the client stops where it was told to or where it
/// cannot go on, and otherwise tries again, but not after the third failure in a
/// row. What is reported says why the connection ended.
pub proof fn law_end_of_connection(failures: u32, reason: LifecycleEndReason)
    requires
        failures < 3,
    ensures
        ({
            let told = reason is ShutdownSignalReceived || reason is CriticalChannelFailure;
            let said = end_statuses(failures, reason);
            &&& told ==> next_step(failures, reason) == NextStep::Stop && said.len() == 1
            &&& !told && failures == 2 ==> next_step(failures, reason) == NextStep::WaitForShutdown
                && said.len() == 2 && said[1] == StatusView::Error("已达最大重连次数 (3)"@)
            &&& !told && failures < 2 ==> next_step(failures, reason) == NextStep::Retry
                && said.len() == 1
            &&& said[0] == match reason {
                LifecycleEndReason::ShutdownSignalReceived => StatusView::Disconnected,
                LifecycleEndReason::CriticalChannelFailure(s) => StatusView::Error(s@),
                LifecycleEndReason::InitialConnectFailed(s) => StatusView::Error(s@),
                LifecycleEndReason::StreamFailure(s) => StatusView::Error("连接流错误: "@ + s@),
                LifecycleEndReason::PongTimeout => StatusView::Error("心跳响应超时"@),
                LifecycleEndReason::ServerClosed => StatusView::Error("服务器关闭了连接"@),
            }
        }),
{
}

/// A message of the connector begins with two bytes that say which it is, and bytes that
/// begin otherwise are none.
pub proof fn law_connector_message(b: Seq<u8>)
    ensures
        b.len() < 2 ==> read_client(b) is None,
        b.len() >= 2 ==> {
            let k = b[0] + 256 * b[1];
            let m = read_client(b);
            &&& k == 0 ==> m == Some(ClientView::Ping)
            &&& k == 1 ==> m == Some(ClientView::Pong)
            &&& k == 5 && b.len() >= 10 ==> m == Some(
                ClientView::OnPlayProgress { progress: number_behind(b) as u64 },
            )
            &&& k == 5 && b.len() < 10 ==> m is None
            &&& k == 7 ==> m == Some(ClientView::OnPaused)
            &&& k == 8 ==> m == Some(ClientView::OnResumed)
            &&& k == 2 ==> m is None || m->0 is SetMusicInfo
            &&& k == 4 ==> m is None || m->0 is SetMusicAlbumCoverImageData
            &&& k == 10 ==> m is None || m->0 is SetLyric
            &&& k == 11 ==> m is None || m->0 is SetLyricFromTTML
            &&& k == 3 || k == 6 || k == 9 || k > 11 ==> m is None
        },
{
    if b.len() >= 2 {
        let v = b.subrange(0, 2);
        let v1 = v.subrange(1, 2);
        let v2 = v1.subrange(1, 1);
        assert(le_value(v2) == 0);
        assert(le_value(v1) == b[1]);
        assert(le_value(v) == b[0] + 256 * le_value(v1));
        assert(behind(b, 2) == b.subrange(2, b.len() as int));
        if b.len() >= 10 {
            lemma_value(b);
        }
    }
}

/// A message can be written where each of its lists has at most as many entries as four
/// bytes can count.
pub proof fn law_countable(m: ClientMessage)
    ensures
        countable(m@) <==> match m {
            ClientMessage::SetMusicInfo { artists, .. } => artists@.len() <= 0xffff_ffff,
            ClientMessage::SetMusicAlbumCoverImageData { data } => data@.len() <= 0xffff_ffff,
            ClientMessage::SetLyric { data } => data@.len() <= 0xffff_ffff && forall|i: int|
                0 <= i < data@.len() ==> (#[trigger] data@[i]).words@.len() <= 0xffff_ffff,
            _ => true,
        },
{
    match m {
        ClientMessage::SetMusicInfo { artists, .. } => {
            assert(artist_views(artists@).len() == artists@.len());
        },
        ClientMessage::SetLyric { data } => {
            let v = lyric_line_views(data@);
            assert(v.len() == data@.len());
            assert forall|i: int| 0 <= i < data@.len() implies #[trigger] v[i].words.len()
                == data@[i].words@.len() by {
                assert(v[i] == data@[i]@);
            }
            if countable(m@) {
                assert forall|i: int| 0 <= i < data@.len() implies (
                #[trigger] data@[i]).words@.len() <= 0xffff_ffff by {
                    assert(line_countable(v[i]));
                    assert(v[i].words.len() == data@[i].words@.len());
                }
            } else if data@.len() <= 0xffff_ffff {
                let i = choose|i: int| 0 <= i < v.len() && !line_countable(#[trigger] v[i]);
                assert(v[i].words.len() == data@[i].words@.len());
                assert(data@[i].words@.len() > 0xffff_ffff);
            }
        },
        _ => {},
    }
}

/// The first zero byte is found.
proof fn lemma_zero_at(b: Seq<u8>, z: int)
    requires
        0 <= z <= b.len(),
        forall|k: int| 0 <= k < z ==> #[trigger] b[k] != 0,
        z < b.len() ==> b[z] == 0,
    ensures
        zero_at(b) == z,
    decreases b.len(),
{
    if z > 0 {
        assert(b[0] != 0);
        let rest = b.subrange(1, b.len() as int);
        assert forall|k: int| 0 <= k < z - 1 implies #[trigger] rest[k] != 0 by {
            assert(rest[k] == b[k + 1]);
        }
        lemma_zero_at(rest, z - 1);
    }
}

/// A text that is read ends before the first zero byte and must be UTF-8. Without a zero
/// byte there is none.
pub proof fn law_text_is_read(b: Seq<u8>, z: int)
    requires
        0 <= z <= b.len(),
        forall|k: int| 0 <= k < z ==> #[trigger] b[k] != 0,
        z < b.len() ==> b[z] == 0,
    ensures
        z == b.len() ==> read_text(b) is None,
        z < b.len() && !valid_utf8(b.subrange(0, z)) ==> read_text(b) is None,
        z < b.len() && valid_utf8(b.subrange(0, z)) ==> read_text(b) == Some(
            (decode_utf8(b.subrange(0, z)), b.subrange(z + 1, b.len() as int)),
        ),
{
    lemma_zero_at(b, z);
}

} // verus!
