//! What the settings are when they have been saved and are read again.

use vstd::prelude::*;

use crate::app_settings::{
    added_to, bool_of, bool_or, bool_text, default_settings, filled_parts, int_in, int_of, int_text,
    level_name, level_of, level_or, list_of, merged, order_in, pinned_of, port_in, saved,
    settings_in, split_values, text_in, with_batch, with_connector, with_general, with_log,
    with_pinned, with_server, with_stripping, with_values, AppSettings, LevelFilter, LogSettings,
    SettingsView, WebsocketServerSettings,
};
use crate::formats::{
    format_name, format_of, law_format_names, named_sources, order_text, source_name, source_names,
    source_of, AutoSearchSource, LyricFormat,
};
use crate::ini_file::{
    law_set_and_look_up, lookup, no_sections, section_pairs, with_value, without_key,
};
use crate::text::{
    dec, find_from, is_ascii_digit, is_ws, join, lemma_dec, next_of, split_any, stands_at, trim,
    views,
};
use crate::types::opt_view;

verus! {

// ---------------------------------------------------------------------------
// Lists
// ---------------------------------------------------------------------------

/// A joined list starts with its first part.
proof fn lemma_join_front(parts: Seq<Seq<char>>, sep: Seq<char>)
    requires
        parts.len() >= 2,
    ensures
        join(parts, sep) == parts[0] + sep + join(parts.subrange(1, parts.len() as int), sep),
    decreases parts.len(),
{
    let rest = parts.subrange(1, parts.len() as int);
    let front = parts.drop_last();
    if parts.len() == 2 {
        assert(join(front, sep) == parts[0]);
        assert(join(rest, sep) == parts[1]);
    } else {
        lemma_join_front(front, sep);
        let middle = front.subrange(1, front.len() as int);
        assert(middle =~= rest.drop_last());
        assert(parts[0] + sep + join(middle, sep) + sep + parts.last() =~= parts[0] + sep + (join(
            middle,
            sep,
        ) + sep + parts.last()));
    }
}

/// Whether a text does not hold a character.
pub open spec fn lacks(s: Seq<char>, c: char) -> bool {
    forall|i: int| 0 <= i < s.len() ==> #[trigger] s[i] != c
}

/// Whether no text of a list holds a character.
pub open spec fn all_lack(v: Seq<Seq<char>>, c: char) -> bool {
    forall|i: int| 0 <= i < v.len() ==> lacks(#[trigger] v[i], c)
}

/// The search for a character passes a text that lacks it.
proof fn lemma_next_of_is(s: Seq<char>, c: char, from: int, to: int)
    requires
        0 <= from <= to <= s.len(),
        forall|i: int| from <= i < to ==> #[trigger] s[i] != c,
        to < s.len() ==> s[to] == c,
    ensures
        next_of(s, seq![c], from) == to,
    decreases to - from,
{
    let ds = seq![c];
    assert(ds[0] == c);
    if from < to {
        assert(!ds.contains(s[from])) by {
            assert(s[from] != c);
            if ds.contains(s[from]) {
                let k = choose|k: int| 0 <= k < ds.len() && ds[k] == s[from];
                assert(k == 0);
            }
        }
        lemma_next_of_is(s, c, from + 1, to);
    } else if to < s.len() {
        assert(ds.contains(s[to]));
    }
}

/// A list that was joined with a character that it lacks is split again.
proof fn lemma_split_join(parts: Seq<Seq<char>>, c: char)
    requires
        parts.len() > 0,
        all_lack(parts, c),
    ensures
        split_any(join(parts, seq![c]), seq![c]) == parts,
    decreases parts.len(),
{
    let sep = seq![c];
    let s = join(parts, sep);
    assert(lacks(parts[0], c));
    if parts.len() == 1 {
        lemma_next_of_is(s, c, 0, s.len() as int);
        assert(seq![s] =~= parts);
    } else {
        let rest = parts.subrange(1, parts.len() as int);
        lemma_join_front(parts, sep);
        assert forall|i: int| 0 <= i < rest.len() implies lacks(#[trigger] rest[i], c) by {
            assert(rest[i] == parts[i + 1]);
        }
        lemma_split_join(rest, c);
        let n = parts[0].len() as int;
        assert(s[n] == c);
        assert forall|i: int| 0 <= i < n implies #[trigger] s[i] != c by {
            assert(s[i] == parts[0][i]);
        }
        lemma_next_of_is(s, c, 0, n);
        assert(s.subrange(0, n) =~= parts[0]);
        assert(s.subrange(n + 1, s.len() as int) =~= join(rest, sep));
        assert(seq![parts[0]] + rest =~= parts);
    }
}

/// Whether a text is not empty and does not start or end with white space.
pub open spec fn is_trimmed(s: Seq<char>) -> bool {
    s.len() > 0 && !is_ws(s[0]) && !is_ws(s.last())
}

/// Trimming leaves a trimmed text as it is.
proof fn lemma_trimmed(s: Seq<char>)
    requires
        is_trimmed(s),
    ensures
        trim(s) == s,
{
}

/// Whether a list can be kept in a file: its entries are trimmed and hold no
/// semicolon.
pub open spec fn is_plain_list(v: Seq<Seq<char>>) -> bool {
    all_lack(v, ';') && forall|i: int| 0 <= i < v.len() ==> is_trimmed(#[trigger] v[i])
}

/// Trimmed parts stay.
proof fn lemma_filled_parts(v: Seq<Seq<char>>)
    requires
        forall|i: int| 0 <= i < v.len() ==> is_trimmed(#[trigger] v[i]),
    ensures
        filled_parts(v) == v,
    decreases v.len(),
{
    if v.len() == 0 {
        assert(filled_parts(v) =~= v);
    } else {
        let front = v.drop_last();
        assert forall|i: int| 0 <= i < front.len() implies is_trimmed(#[trigger] front[i]) by {
            assert(front[i] == v[i]);
        }
        lemma_filled_parts(front);
        assert(is_trimmed(v[v.len() - 1]));
        lemma_trimmed(v.last());
        assert(front.push(v.last()) =~= v);
    }
}

/// A plain list that is written is read again.
proof fn lemma_list_round_trip(v: Seq<Seq<char>>)
    requires
        is_plain_list(v),
    ensures
        list_of(join(v, ";"@)) == v,
{
    reveal_strlit(";");
    assert(";"@ =~= seq![';']);
    if v.len() == 0 {
        let s = join(v, ";"@);
        assert(s.len() == 0);
        assert(split_any(s, seq![';']) == seq![s]);
        assert(seq![s].drop_last() =~= Seq::<Seq<char>>::empty());
        reveal_with_fuel(filled_parts, 2);
        assert(trim(s).len() == 0);
        assert(v =~= Seq::<Seq<char>>::empty());
    } else {
        lemma_split_join(v, ';');
        lemma_filled_parts(v);
    }
}

/// The search for `;;;` passes a text that lacks semicolons.
proof fn lemma_find_is(s: Seq<char>, from: int, to: int)
    requires
        0 <= from <= to <= s.len(),
        forall|i: int| from <= i < to ==> #[trigger] s[i] != ';',
        to < s.len() ==> stands_at(s, ";;;"@, to),
    ensures
        find_from(s, ";;;"@, from) == to,
    decreases to - from,
{
    reveal_strlit(";;;");
    if from < to {
        assert(!stands_at(s, ";;;"@, from)) by {
            if stands_at(s, ";;;"@, from) {
                assert(s.subrange(from, from + 3)[0] == s[from]);
                assert(";;;"@[0] == ';');
            }
        }
        lemma_find_is(s, from + 1, to);
    }
}

/// Values that lack semicolons are read as they were written.
proof fn lemma_values_round_trip(values: Seq<Seq<char>>)
    requires
        values.len() > 0,
        all_lack(values, ';'),
    ensures
        split_values(join(values, ";;;"@)) == values,
    decreases values.len(),
{
    reveal_strlit(";;;");
    let sep = ";;;"@;
    let s = join(values, sep);
    assert(lacks(values[0], ';'));
    if values.len() == 1 {
        lemma_find_is(s, 0, s.len() as int);
        assert(seq![s] =~= values);
    } else {
        let rest = values.subrange(1, values.len() as int);
        lemma_join_front(values, sep);
        assert forall|i: int| 0 <= i < rest.len() implies lacks(#[trigger] rest[i], ';') by {
            assert(rest[i] == values[i + 1]);
        }
        lemma_values_round_trip(rest);
        let n = values[0].len() as int;
        assert(s.subrange(n, n + 3) =~= sep);
        assert forall|i: int| 0 <= i < n implies #[trigger] s[i] != ';' by {
            assert(s[i] == values[0][i]);
        }
        lemma_find_is(s, 0, n);
        assert(s.subrange(0, n) =~= values[0]);
        assert(s.subrange(n + 3, s.len() as int) =~= join(rest, sep));
        assert(seq![values[0]] + rest =~= values);
    }
}

// ---------------------------------------------------------------------------
// Single values
// ---------------------------------------------------------------------------

/// A truth value that is written is read again.
proof fn lemma_bool_round_trip(b: bool)
    ensures
        bool_of(bool_text(b)) == Some(b),
{
    reveal_strlit("true");
    reveal_strlit("false");
    assert("true"@.len() != "false"@.len());
}

/// A level that is written is read again.
proof fn lemma_level_round_trip(l: LevelFilter)
    ensures
        level_of(level_name(l)) == Some(l),
{
    reveal_strlit("OFF");
    reveal_strlit("ERROR");
    reveal_strlit("WARN");
    reveal_strlit("INFO");
    reveal_strlit("DEBUG");
    reveal_strlit("TRACE");
    let n = crate::text::ascii_lower_seq(level_name(l));
    let off = crate::text::ascii_lower_seq("OFF"@);
    let error = crate::text::ascii_lower_seq("ERROR"@);
    let warn = crate::text::ascii_lower_seq("WARN"@);
    let info = crate::text::ascii_lower_seq("INFO"@);
    let debug = crate::text::ascii_lower_seq("DEBUG"@);
    let trace = crate::text::ascii_lower_seq("TRACE"@);
    assert(off[0] == 'o' && error[0] == 'e' && warn[0] == 'w' && info[0] == 'i' && debug[0] == 'd'
        && trace[0] == 't');
}

/// A number that is written is read again.
proof fn lemma_int_round_trip(n: i64)
    ensures
        int_of(int_text(n as int)) == Some(n as int),
{
    if n < 0 {
        let m = (-(n as int)) as nat;
        lemma_dec(m);
        let s = int_text(n as int);
        assert(s.subrange(1, s.len() as int) =~= dec(m));
    } else {
        lemma_dec(n as nat);
        let s = int_text(n as int);
        assert(is_ascii_digit(s[0]));
    }
}

/// A port that is written is read again.
proof fn lemma_port_round_trip(port: u16)
    ensures
        port_in(Some(dec(port as nat))) == port,
{
    lemma_dec(port as nat);
    assert(is_ascii_digit(dec(port as nat)[0]));
}

/// A source has its name and no other.
proof fn lemma_source_name(s: AutoSearchSource)
    ensures
        source_of(source_name(s)) == Some(s),
        lacks(source_name(s), ','),
        is_trimmed(source_name(s)),
{
    reveal_strlit("local");
    reveal_strlit("qq");
    reveal_strlit("kugou");
    reveal_strlit("netease");
    reveal_strlit("amll");
    reveal_strlit("musixmatch");
    assert("local"@[0] == 'l' && "qq"@[0] == 'q' && "kugou"@[0] == 'k' && "netease"@[0] == 'n'
        && "amll"@[0] == 'a' && "musixmatch"@[0] == 'm');
}

/// Names name the sources that they were taken from.
proof fn lemma_named_sources(order: Seq<AutoSearchSource>)
    ensures
        named_sources(source_names(order)) == order,
    decreases order.len(),
{
    let names = source_names(order);
    if order.len() == 0 {
        assert(named_sources(names) =~= order);
    } else {
        let front = order.drop_last();
        lemma_named_sources(front);
        assert(names.drop_last() =~= source_names(front));
        lemma_source_name(order.last());
        lemma_trimmed(source_name(order.last()));
        assert(front.push(order.last()) =~= order);
    }
}

/// Joined names start and end with a letter.
proof fn lemma_order_is_trimmed(names: Seq<Seq<char>>)
    requires
        names.len() > 0,
        forall|i: int| 0 <= i < names.len() ==> is_trimmed(#[trigger] names[i]),
    ensures
        is_trimmed(join(names, ","@)),
    decreases names.len(),
{
    reveal_strlit(",");
    assert(is_trimmed(names[names.len() - 1]));
    if names.len() > 1 {
        let front = names.drop_last();
        assert forall|i: int| 0 <= i < front.len() implies is_trimmed(#[trigger] front[i]) by {
            assert(front[i] == names[i]);
        }
        lemma_order_is_trimmed(front);
        let s = join(names, ","@);
        let a = join(front, ","@);
        assert(s[0] == a[0]);
        assert(s.last() == names.last().last());
    }
}

/// An order that is written is read again.
proof fn lemma_order_round_trip(order: Seq<AutoSearchSource>)
    requires
        order.len() > 0,
    ensures
        order_in(Some(order_text(order))) == order,
{
    reveal_strlit(",");
    assert(","@ =~= seq![',']);
    let names = source_names(order);
    assert forall|i: int| 0 <= i < names.len() implies is_trimmed(#[trigger] names[i]) && lacks(
        names[i],
        ',',
    ) by {
        lemma_source_name(order[i]);
    }
    lemma_order_is_trimmed(names);
    lemma_trimmed(order_text(order));
    lemma_split_join(names, ',');
    lemma_named_sources(order);
}

// ---------------------------------------------------------------------------
// Sections
// ---------------------------------------------------------------------------

/// The names of the sections differ.
proof fn lemma_sections_differ()
    ensures
        "Logging"@ != "PinnedMetadata"@ && "Logging"@ != "AmllConnector"@ && "Logging"@
            != "GeneralSettings"@ && "Logging"@ != "UiState"@ && "Logging"@ != "LyricStripping"@
            && "Logging"@ != "WebsocketServer"@ && "Logging"@ != "BatchConversion"@,
        "PinnedMetadata"@ != "AmllConnector"@ && "PinnedMetadata"@ != "GeneralSettings"@
            && "PinnedMetadata"@ != "UiState"@ && "PinnedMetadata"@ != "LyricStripping"@
            && "PinnedMetadata"@ != "WebsocketServer"@ && "PinnedMetadata"@ != "BatchConversion"@,
        "AmllConnector"@ != "GeneralSettings"@ && "AmllConnector"@ != "UiState"@
            && "AmllConnector"@ != "LyricStripping"@ && "AmllConnector"@ != "WebsocketServer"@
            && "AmllConnector"@ != "BatchConversion"@,
        "GeneralSettings"@ != "UiState"@ && "GeneralSettings"@ != "LyricStripping"@
            && "GeneralSettings"@ != "WebsocketServer"@ && "GeneralSettings"@
            != "BatchConversion"@,
        "UiState"@ != "LyricStripping"@ && "UiState"@ != "WebsocketServer"@ && "UiState"@
            != "BatchConversion"@,
        "LyricStripping"@ != "WebsocketServer"@ && "LyricStripping"@ != "BatchConversion"@,
        "WebsocketServer"@ != "BatchConversion"@,
{
    reveal_strlit("Logging");
    reveal_strlit("PinnedMetadata");
    reveal_strlit("AmllConnector");
    reveal_strlit("GeneralSettings");
    reveal_strlit("UiState");
    reveal_strlit("LyricStripping");
    reveal_strlit("WebsocketServer");
    reveal_strlit("BatchConversion");
    assert("Logging"@[0] == 'L' && "PinnedMetadata"@[0] == 'P' && "AmllConnector"@[0] == 'A'
        && "GeneralSettings"@[0] == 'G' && "UiState"@[0] == 'U' && "LyricStripping"@[0] == 'L'
        && "WebsocketServer"@[0] == 'W' && "BatchConversion"@[0] == 'B');
    assert("Logging"@.len() != "LyricStripping"@.len());
}

/// The log settings are where they were written, and nothing else has changed.
proof fn lemma_log(
    m: Map<Seq<char>, Seq<(Seq<char>, Seq<char>)>>,
    l: LogSettings,
    section: Seq<char>,
    key: Seq<char>,
)
    ensures
        lookup(with_log(m, l), "Logging"@, "EnableFileLog"@) == Some(bool_text(l.enable_file_log)),
        lookup(with_log(m, l), "Logging"@, "FileLogLevel"@) == Some(level_name(l.file_log_level)),
        lookup(with_log(m, l), "Logging"@, "ConsoleLogLevel"@) == Some(
            level_name(l.console_log_level),
        ),
        section != "Logging"@ ==> lookup(with_log(m, l), section, key) == lookup(m, section, key),
        section != "Logging"@ ==> section_pairs(with_log(m, l), section) == section_pairs(
            m,
            section,
        ),
{
    reveal_strlit("EnableFileLog");
    reveal_strlit("FileLogLevel");
    reveal_strlit("ConsoleLogLevel");
    let s = "Logging"@;
    let (k1, k2, k3) = ("EnableFileLog"@, "FileLogLevel"@, "ConsoleLogLevel"@);
    assert(k1.len() == 13 && k2.len() == 12 && k3.len() == 15);
    let m1 = with_value(m, s, k1, bool_text(l.enable_file_log));
    let m2 = with_value(m1, s, k2, level_name(l.file_log_level));
    let v3 = level_name(l.console_log_level);
    law_set_and_look_up(m, s, k1, bool_text(l.enable_file_log), s, k1);
    law_set_and_look_up(m1, s, k2, level_name(l.file_log_level), s, k1);
    law_set_and_look_up(m1, s, k2, level_name(l.file_log_level), s, k2);
    law_set_and_look_up(m2, s, k3, v3, s, k1);
    law_set_and_look_up(m2, s, k3, v3, s, k2);
    law_set_and_look_up(m2, s, k3, v3, s, k3);
    law_set_and_look_up(m, s, k1, bool_text(l.enable_file_log), section, key);
    law_set_and_look_up(m1, s, k2, level_name(l.file_log_level), section, key);
    law_set_and_look_up(m2, s, k3, v3, section, key);
}

/// The connector's settings are where they were written, and nothing else has
/// changed.
proof fn lemma_connector(
    m: Map<Seq<char>, Seq<(Seq<char>, Seq<char>)>>,
    v: SettingsView,
    section: Seq<char>,
    key: Seq<char>,
)
    ensures
        lookup(with_connector(m, v), "AmllConnector"@, "Enabled"@) == Some(
            bool_text(v.connector_enabled),
        ),
        lookup(with_connector(m, v), "AmllConnector"@, "WebSocketURL"@) == Some(v.connector_url),
        lookup(with_connector(m, v), "AmllConnector"@, "SendAudioDataToPlayer"@) == Some(
            bool_text(v.send_audio),
        ),
        lookup(with_connector(m, v), "AmllConnector"@, "SmtcTimeOffsetMs"@) == Some(
            int_text(v.offset as int),
        ),
        section != "AmllConnector"@ ==> lookup(with_connector(m, v), section, key) == lookup(
            m,
            section,
            key,
        ),
        section != "AmllConnector"@ ==> section_pairs(with_connector(m, v), section)
            == section_pairs(m, section),
{
    reveal_strlit("Enabled");
    reveal_strlit("WebSocketURL");
    reveal_strlit("SendAudioDataToPlayer");
    reveal_strlit("SmtcTimeOffsetMs");
    let s = "AmllConnector"@;
    let k1 = "Enabled"@;
    let k2 = "WebSocketURL"@;
    let k3 = "SendAudioDataToPlayer"@;
    let k4 = "SmtcTimeOffsetMs"@;
    assert(k1.len() == 7 && k2.len() == 12 && k3.len() == 21 && k4.len() == 16);
    let m1 = with_value(m, s, k1, bool_text(v.connector_enabled));
    let m2 = with_value(m1, s, k2, v.connector_url);
    let m3 = with_value(m2, s, k3, bool_text(v.send_audio));
    let v4 = int_text(v.offset as int);
    law_set_and_look_up(m, s, k1, bool_text(v.connector_enabled), s, k1);
    law_set_and_look_up(m1, s, k2, v.connector_url, s, k1);
    law_set_and_look_up(m1, s, k2, v.connector_url, s, k2);
    law_set_and_look_up(m2, s, k3, bool_text(v.send_audio), s, k1);
    law_set_and_look_up(m2, s, k3, bool_text(v.send_audio), s, k2);
    law_set_and_look_up(m2, s, k3, bool_text(v.send_audio), s, k3);
    law_set_and_look_up(m3, s, k4, v4, s, k1);
    law_set_and_look_up(m3, s, k4, v4, s, k2);
    law_set_and_look_up(m3, s, k4, v4, s, k3);
    law_set_and_look_up(m3, s, k4, v4, s, k4);
    law_set_and_look_up(m, s, k1, bool_text(v.connector_enabled), section, key);
    law_set_and_look_up(m1, s, k2, v.connector_url, section, key);
    law_set_and_look_up(m2, s, k3, bool_text(v.send_audio), section, key);
    law_set_and_look_up(m3, s, k4, v4, section, key);
}

/// The keys of the general settings differ.
proof fn lemma_general_keys()
    ensures
        "AutoSearchSourceOrder"@.len() == 21,
        "AlwaysSearchAllSources"@.len() == 22,
        "LastSourceFormat"@ != "LastTargetFormat"@,
        "LastSourceFormat"@.len() == 16,
        "LastTargetFormat"@.len() == 16,
        "LastKnownAmllIndexHead"@.len() == 22,
        "LastKnownAmllIndexHead"@ != "AlwaysSearchAllSources"@,
        "CheckedAmllUpdateSinceSuccess"@.len() == 29,
        "AutoCheckAmllUpdateOnStartup"@.len() == 28,
{
    reveal_strlit("AutoSearchSourceOrder");
    reveal_strlit("AlwaysSearchAllSources");
    reveal_strlit("LastSourceFormat");
    reveal_strlit("LastTargetFormat");
    reveal_strlit("LastKnownAmllIndexHead");
    reveal_strlit("CheckedAmllUpdateSinceSuccess");
    reveal_strlit("AutoCheckAmllUpdateOnStartup");
    assert("LastSourceFormat"@[4] == 'S' && "LastTargetFormat"@[4] == 'T');
    assert("LastKnownAmllIndexHead"@[0] == 'L' && "AlwaysSearchAllSources"@[0] == 'A');
}

/// The general settings are where they were written, and nothing else has
/// changed.
proof fn lemma_general(
    m: Map<Seq<char>, Seq<(Seq<char>, Seq<char>)>>,
    v: SettingsView,
    section: Seq<char>,
    key: Seq<char>,
)
    ensures
        lookup(with_general(m, v), "GeneralSettings"@, "AutoSearchSourceOrder"@) == Some(
            order_text(v.order),
        ),
        lookup(with_general(m, v), "GeneralSettings"@, "AlwaysSearchAllSources"@) == Some(
            bool_text(v.search_all),
        ),
        lookup(with_general(m, v), "GeneralSettings"@, "LastSourceFormat"@) == Some(
            format_name(v.source_format),
        ),
        lookup(with_general(m, v), "GeneralSettings"@, "LastTargetFormat"@) == Some(
            format_name(v.target_format),
        ),
        lookup(with_general(m, v), "UiState"@, "LastSelectedSmtcSessionId"@) == Some(
            match v.session {
                Some(id) => id,
                None => ""@,
            },
        ),
        lookup(with_general(m, v), "GeneralSettings"@, "LastKnownAmllIndexHead"@) == lookup(
            m,
            "GeneralSettings"@,
            "LastKnownAmllIndexHead"@,
        ),
        lookup(with_general(m, v), "GeneralSettings"@, "CheckedAmllUpdateSinceSuccess"@) == lookup(
            m,
            "GeneralSettings"@,
            "CheckedAmllUpdateSinceSuccess"@,
        ),
        lookup(with_general(m, v), "GeneralSettings"@, "AutoCheckAmllUpdateOnStartup"@) == lookup(
            m,
            "GeneralSettings"@,
            "AutoCheckAmllUpdateOnStartup"@,
        ),
        section != "GeneralSettings"@ && section != "UiState"@ ==> lookup(
            with_general(m, v),
            section,
            key,
        ) == lookup(m, section, key),
        section != "GeneralSettings"@ && section != "UiState"@ ==> section_pairs(
            with_general(m, v),
            section,
        ) == section_pairs(m, section),
{
    lemma_general_keys();
    lemma_sections_differ();
    let s = "GeneralSettings"@;
    let u = "UiState"@;
    let k1 = "AutoSearchSourceOrder"@;
    let k2 = "AlwaysSearchAllSources"@;
    let k3 = "LastSourceFormat"@;
    let k4 = "LastTargetFormat"@;
    let k5 = "LastSelectedSmtcSessionId"@;
    let k6 = "LastKnownAmllIndexHead"@;
    let k7 = "CheckedAmllUpdateSinceSuccess"@;
    let k8 = "AutoCheckAmllUpdateOnStartup"@;
    let v1 = order_text(v.order);
    let v2 = bool_text(v.search_all);
    let v3 = format_name(v.source_format);
    let v4 = format_name(v.target_format);
    let v5 = match v.session {
        Some(id) => id,
        None => ""@,
    };
    let m1 = with_value(m, s, k1, v1);
    let m2 = with_value(m1, s, k2, v2);
    let m3 = with_value(m2, s, k3, v3);
    let m4 = with_value(m3, s, k4, v4);
    assert forall|x: Seq<char>, y: Seq<char>| #[trigger]
        lookup(m1, x, y) == if s == x && k1 == y {
        Some(v1)
    } else {
        lookup(m, x, y)
    } by {
        law_set_and_look_up(m, s, k1, v1, x, y);
    }
    assert forall|x: Seq<char>, y: Seq<char>| #[trigger]
        lookup(m2, x, y) == if s == x && k2 == y {
        Some(v2)
    } else {
        lookup(m1, x, y)
    } by {
        law_set_and_look_up(m1, s, k2, v2, x, y);
    }
    assert forall|x: Seq<char>, y: Seq<char>| #[trigger]
        lookup(m3, x, y) == if s == x && k3 == y {
        Some(v3)
    } else {
        lookup(m2, x, y)
    } by {
        law_set_and_look_up(m2, s, k3, v3, x, y);
    }
    assert forall|x: Seq<char>, y: Seq<char>| #[trigger]
        lookup(m4, x, y) == if s == x && k4 == y {
        Some(v4)
    } else {
        lookup(m3, x, y)
    } by {
        law_set_and_look_up(m3, s, k4, v4, x, y);
    }
    assert forall|x: Seq<char>, y: Seq<char>| #[trigger]
        lookup(with_general(m, v), x, y) == if u == x && k5 == y {
        Some(v5)
    } else {
        lookup(m4, x, y)
    } by {
        law_set_and_look_up(m4, u, k5, v5, x, y);
    }
}

/// The keys of the settings for leaving out lines differ.
proof fn lemma_stripping_keys()
    ensures
        "EnableOnlineLyricStripping"@.len() == 26,
        "StrippingKeywords"@.len() == 17,
        "StrippingKeywordCaseSensitive"@.len() == 29,
        "EnableTtmlRegexStripping"@.len() == 24,
        "TtmlStrippingRegexes"@.len() == 20,
        "TtmlRegexStrippingCaseSensitive"@.len() == 31,
{
    reveal_strlit("EnableOnlineLyricStripping");
    reveal_strlit("StrippingKeywords");
    reveal_strlit("StrippingKeywordCaseSensitive");
    reveal_strlit("EnableTtmlRegexStripping");
    reveal_strlit("TtmlStrippingRegexes");
    reveal_strlit("TtmlRegexStrippingCaseSensitive");
}

/// The settings for leaving out lines are where they were written, and nothing
/// else has changed.
proof fn lemma_stripping(
    m: Map<Seq<char>, Seq<(Seq<char>, Seq<char>)>>,
    v: SettingsView,
    section: Seq<char>,
    key: Seq<char>,
)
    ensures
        lookup(with_stripping(m, v), "LyricStripping"@, "EnableOnlineLyricStripping"@) == Some(
            bool_text(v.strip_keywords),
        ),
        lookup(with_stripping(m, v), "LyricStripping"@, "StrippingKeywords"@) == Some(
            join(v.keywords, ";"@),
        ),
        lookup(with_stripping(m, v), "LyricStripping"@, "StrippingKeywordCaseSensitive"@) == Some(
            bool_text(v.keywords_case),
        ),
        lookup(with_stripping(m, v), "LyricStripping"@, "EnableTtmlRegexStripping"@) == Some(
            bool_text(v.strip_regexes),
        ),
        lookup(with_stripping(m, v), "LyricStripping"@, "TtmlStrippingRegexes"@) == Some(
            join(v.regexes, ";"@),
        ),
        lookup(with_stripping(m, v), "LyricStripping"@, "TtmlRegexStrippingCaseSensitive"@)
            == Some(bool_text(v.regexes_case)),
        section != "LyricStripping"@ ==> lookup(with_stripping(m, v), section, key) == lookup(
            m,
            section,
            key,
        ),
        section != "LyricStripping"@ ==> section_pairs(with_stripping(m, v), section)
            == section_pairs(m, section),
{
    lemma_stripping_keys();
    let s = "LyricStripping"@;
    let k1 = "EnableOnlineLyricStripping"@;
    let k2 = "StrippingKeywords"@;
    let k3 = "StrippingKeywordCaseSensitive"@;
    let k4 = "EnableTtmlRegexStripping"@;
    let k5 = "TtmlStrippingRegexes"@;
    let k6 = "TtmlRegexStrippingCaseSensitive"@;
    let v1 = bool_text(v.strip_keywords);
    let v2 = join(v.keywords, ";"@);
    let v3 = bool_text(v.keywords_case);
    let v4 = bool_text(v.strip_regexes);
    let v5 = join(v.regexes, ";"@);
    let v6 = bool_text(v.regexes_case);
    let m1 = with_value(m, s, k1, v1);
    let m2 = with_value(m1, s, k2, v2);
    let m3 = with_value(m2, s, k3, v3);
    let m4 = with_value(m3, s, k4, v4);
    let m5 = with_value(m4, s, k5, v5);
    assert forall|x: Seq<char>, y: Seq<char>| #[trigger]
        lookup(m1, x, y) == if s == x && k1 == y {
        Some(v1)
    } else {
        lookup(m, x, y)
    } by {
        law_set_and_look_up(m, s, k1, v1, x, y);
    }
    assert forall|x: Seq<char>, y: Seq<char>| #[trigger]
        lookup(m2, x, y) == if s == x && k2 == y {
        Some(v2)
    } else {
        lookup(m1, x, y)
    } by {
        law_set_and_look_up(m1, s, k2, v2, x, y);
    }
    assert forall|x: Seq<char>, y: Seq<char>| #[trigger]
        lookup(m3, x, y) == if s == x && k3 == y {
        Some(v3)
    } else {
        lookup(m2, x, y)
    } by {
        law_set_and_look_up(m2, s, k3, v3, x, y);
    }
    assert forall|x: Seq<char>, y: Seq<char>| #[trigger]
        lookup(m4, x, y) == if s == x && k4 == y {
        Some(v4)
    } else {
        lookup(m3, x, y)
    } by {
        law_set_and_look_up(m3, s, k4, v4, x, y);
    }
    assert forall|x: Seq<char>, y: Seq<char>| #[trigger]
        lookup(m5, x, y) == if s == x && k5 == y {
        Some(v5)
    } else {
        lookup(m4, x, y)
    } by {
        law_set_and_look_up(m4, s, k5, v5, x, y);
    }
    assert forall|x: Seq<char>, y: Seq<char>| #[trigger]
        lookup(with_stripping(m, v), x, y) == if s == x && k6 == y {
        Some(v6)
    } else {
        lookup(m5, x, y)
    } by {
        law_set_and_look_up(m5, s, k6, v6, x, y);
    }
}

/// The server's settings are where they were written, and nothing else has
/// changed.
proof fn lemma_server(
    m: Map<Seq<char>, Seq<(Seq<char>, Seq<char>)>>,
    w: WebsocketServerSettings,
    section: Seq<char>,
    key: Seq<char>,
)
    ensures
        lookup(with_server(m, w), "WebsocketServer"@, "Enabled"@) == Some(bool_text(w.enabled)),
        lookup(with_server(m, w), "WebsocketServer"@, "Port"@) == Some(dec(w.port as nat)),
        section != "WebsocketServer"@ ==> lookup(with_server(m, w), section, key) == lookup(
            m,
            section,
            key,
        ),
        section != "WebsocketServer"@ ==> section_pairs(with_server(m, w), section)
            == section_pairs(m, section),
{
    reveal_strlit("Enabled");
    reveal_strlit("Port");
    let s = "WebsocketServer"@;
    let k1 = "Enabled"@;
    let k2 = "Port"@;
    assert(k1.len() != k2.len());
    let v1 = bool_text(w.enabled);
    let v2 = dec(w.port as nat);
    let m1 = with_value(m, s, k1, v1);
    law_set_and_look_up(m, s, k1, v1, s, k1);
    law_set_and_look_up(m1, s, k2, v2, s, k1);
    law_set_and_look_up(m1, s, k2, v2, s, k2);
    law_set_and_look_up(m, s, k1, v1, section, key);
    law_set_and_look_up(m1, s, k2, v2, section, key);
}

/// The keys of the settings for batches differ.
proof fn lemma_batch_keys()
    ensures
        "OutputDirectory"@.len() == 15,
        "DefaultTargetFormat"@.len() == 19,
        "AutoPairEnabled"@.len() == 15,
        "AutoPairEnabled"@ != "OutputDirectory"@,
        "TranslationSuffixes"@.len() == 19,
        "TranslationSuffixes"@ != "DefaultTargetFormat"@,
        "RomanizationSuffixes"@.len() == 20,
{
    reveal_strlit("OutputDirectory");
    reveal_strlit("DefaultTargetFormat");
    reveal_strlit("AutoPairEnabled");
    reveal_strlit("TranslationSuffixes");
    reveal_strlit("RomanizationSuffixes");
    assert("OutputDirectory"@[0] == 'O' && "AutoPairEnabled"@[0] == 'A');
    assert("DefaultTargetFormat"@[0] == 'D' && "TranslationSuffixes"@[0] == 'T');
}

/// The settings for batches are where they were written, and nothing else has
/// changed.
proof fn lemma_batch(
    m: Map<Seq<char>, Seq<(Seq<char>, Seq<char>)>>,
    v: SettingsView,
    section: Seq<char>,
    key: Seq<char>,
)
    requires
        section_pairs(m, "BatchConversion"@).len() == 0,
    ensures
        lookup(with_batch(m, v), "BatchConversion"@, "OutputDirectory"@) == v.batch_directory,
        lookup(with_batch(m, v), "BatchConversion"@, "DefaultTargetFormat"@)
            == match v.batch_format {
            Some(f) => Some(format_name(f)),
            None => None,
        },
        lookup(with_batch(m, v), "BatchConversion"@, "AutoPairEnabled"@) == Some(
            bool_text(v.batch_pair),
        ),
        lookup(with_batch(m, v), "BatchConversion"@, "TranslationSuffixes"@) == Some(
            join(v.translation_suffixes, ";"@),
        ),
        lookup(with_batch(m, v), "BatchConversion"@, "RomanizationSuffixes"@) == Some(
            join(v.romanization_suffixes, ";"@),
        ),
        section != "BatchConversion"@ ==> lookup(with_batch(m, v), section, key) == lookup(
            m,
            section,
            key,
        ),
        section != "BatchConversion"@ ==> section_pairs(with_batch(m, v), section)
            == section_pairs(m, section),
{
    lemma_batch_keys();
    let s = "BatchConversion"@;
    let k1 = "OutputDirectory"@;
    let k2 = "DefaultTargetFormat"@;
    let k3 = "AutoPairEnabled"@;
    let k4 = "TranslationSuffixes"@;
    let k5 = "RomanizationSuffixes"@;
    let v3 = bool_text(v.batch_pair);
    let v4 = join(v.translation_suffixes, ";"@);
    let v5 = join(v.romanization_suffixes, ";"@);
    assert(lookup(m, s, k1) is None && lookup(m, s, k2) is None);
    let m1 = match v.batch_directory {
        Some(dir) => with_value(m, s, k1, dir),
        None => m,
    };
    let m2 = match v.batch_format {
        Some(f) => with_value(m1, s, k2, format_name(f)),
        None => m1,
    };
    let m3 = with_value(m2, s, k3, v3);
    let m4 = with_value(m3, s, k4, v4);
    assert forall|x: Seq<char>, y: Seq<char>| #[trigger]
        lookup(m1, x, y) == if s == x && k1 == y && v.batch_directory is Some {
        v.batch_directory
    } else {
        lookup(m, x, y)
    } by {
        if v.batch_directory is Some {
            law_set_and_look_up(m, s, k1, v.batch_directory->0, x, y);
        }
    }
    assert forall|x: Seq<char>, y: Seq<char>| #[trigger]
        lookup(m2, x, y) == if s == x && k2 == y && v.batch_format is Some {
        Some(format_name(v.batch_format->0))
    } else {
        lookup(m1, x, y)
    } by {
        if v.batch_format is Some {
            law_set_and_look_up(m1, s, k2, format_name(v.batch_format->0), x, y);
        }
    }
    assert forall|x: Seq<char>, y: Seq<char>| #[trigger]
        lookup(m3, x, y) == if s == x && k3 == y {
        Some(v3)
    } else {
        lookup(m2, x, y)
    } by {
        law_set_and_look_up(m2, s, k3, v3, x, y);
    }
    assert forall|x: Seq<char>, y: Seq<char>| #[trigger]
        lookup(m4, x, y) == if s == x && k4 == y {
        Some(v4)
    } else {
        lookup(m3, x, y)
    } by {
        law_set_and_look_up(m3, s, k4, v4, x, y);
    }
    assert forall|x: Seq<char>, y: Seq<char>| #[trigger]
        lookup(with_batch(m, v), x, y) == if s == x && k5 == y {
        Some(v5)
    } else {
        lookup(m4, x, y)
    } by {
        law_set_and_look_up(m4, s, k5, v5, x, y);
    }
}

// ---------------------------------------------------------------------------
// Pinned metadata
// ---------------------------------------------------------------------------

/// Whether pinned metadata can be kept in a file: no key occurs twice, every key
/// has values, and no value holds a semicolon.
pub open spec fn is_plain_pinned(pinned: Seq<(Seq<char>, Seq<Seq<char>>)>) -> bool {
    &&& forall|i: int, j: int|
        0 <= i < j < pinned.len() ==> (#[trigger] pinned[i]).0 != (#[trigger] pinned[j]).0
    &&& forall|i: int|
        0 <= i < pinned.len() ==> (#[trigger] pinned[i]).1.len() > 0 && all_lack(pinned[i].1, ';')
}

/// The pairs that pinned metadata is written as.
spec fn pinned_pairs(pinned: Seq<(Seq<char>, Seq<Seq<char>>)>, n: nat) -> Seq<
    (Seq<char>, Seq<char>),
> {
    Seq::new(n, |i: int| (pinned[i].0, join(pinned[i].1, ";;;"@)))
}

/// Taking out a key that is not there changes nothing.
proof fn lemma_without_absent(pairs: Seq<(Seq<char>, Seq<char>)>, key: Seq<char>)
    requires
        forall|i: int| 0 <= i < pairs.len() ==> (#[trigger] pairs[i]).0 != key,
    ensures
        without_key(pairs, key) == pairs,
    decreases pairs.len(),
{
    if pairs.len() > 0 {
        let front = pairs.drop_last();
        assert forall|i: int| 0 <= i < front.len() implies (#[trigger] front[i]).0 != key by {
            assert(front[i] == pairs[i]);
        }
        lemma_without_absent(front, key);
        assert(pairs[pairs.len() - 1].0 != key);
        assert(front.push(pairs.last()) =~= pairs);
    }
}

/// Writing pinned metadata changes no other section.
proof fn lemma_pinned_elsewhere(
    m: Map<Seq<char>, Seq<(Seq<char>, Seq<char>)>>,
    pinned: Seq<(Seq<char>, Seq<Seq<char>>)>,
    n: nat,
    section: Seq<char>,
    key: Seq<char>,
)
    requires
        section != "PinnedMetadata"@,
        n <= pinned.len(),
    ensures
        lookup(with_pinned(m, pinned, n), section, key) == lookup(m, section, key),
        section_pairs(with_pinned(m, pinned, n), section) == section_pairs(m, section),
    decreases n,
{
    if n > 0 {
        lemma_pinned_elsewhere(m, pinned, (n - 1) as nat, section, key);
        let before = with_pinned(m, pinned, (n - 1) as nat);
        let (k, values) = pinned[n - 1];
        if values.len() > 0 {
            law_set_and_look_up(
                before,
                "PinnedMetadata"@,
                k,
                join(values, ";;;"@),
                section,
                key,
            );
        }
    }
}

/// Pinned metadata is written pair by pair.
proof fn lemma_pinned_written(
    m: Map<Seq<char>, Seq<(Seq<char>, Seq<char>)>>,
    pinned: Seq<(Seq<char>, Seq<Seq<char>>)>,
    n: nat,
)
    requires
        is_plain_pinned(pinned),
        n <= pinned.len(),
        section_pairs(m, "PinnedMetadata"@).len() == 0,
    ensures
        section_pairs(with_pinned(m, pinned, n), "PinnedMetadata"@) == pinned_pairs(pinned, n),
    decreases n,
{
    let s = "PinnedMetadata"@;
    if n == 0 {
        assert(section_pairs(m, s) =~= pinned_pairs(pinned, 0));
    } else {
        lemma_pinned_written(m, pinned, (n - 1) as nat);
        let before = with_pinned(m, pinned, (n - 1) as nat);
        let k = pinned[n - 1].0;
        let value = join(pinned[n - 1].1, ";;;"@);
        let pairs = pinned_pairs(pinned, (n - 1) as nat);
        assert(pinned[n - 1].1.len() > 0);
        assert forall|i: int| 0 <= i < pairs.len() implies (#[trigger] pairs[i]).0 != k by {
            assert(pinned[i].0 != pinned[n - 1].0);
        }
        lemma_without_absent(pairs, k);
        assert(pairs.push((k, value)) =~= pinned_pairs(pinned, n));
    }
}

/// A key that is not there gets its place at the end.
proof fn lemma_with_absent_values(
    pinned: Seq<(Seq<char>, Seq<Seq<char>>)>,
    key: Seq<char>,
    values: Seq<Seq<char>>,
)
    requires
        forall|i: int| 0 <= i < pinned.len() ==> (#[trigger] pinned[i]).0 != key,
    ensures
        with_values(pinned, key, values) == pinned.push((key, values)),
    decreases pinned.len(),
{
    if pinned.len() == 0 {
        assert(with_values(pinned, key, values) =~= pinned.push((key, values)));
    } else {
        let rest = pinned.subrange(1, pinned.len() as int);
        assert forall|i: int| 0 <= i < rest.len() implies (#[trigger] rest[i]).0 != key by {
            assert(rest[i] == pinned[i + 1]);
        }
        lemma_with_absent_values(rest, key, values);
        assert(with_values(pinned, key, values) =~= pinned.push((key, values)));
    }
}

/// Pinned metadata that was written is read again.
proof fn lemma_pinned_round_trip(pinned: Seq<(Seq<char>, Seq<Seq<char>>)>, n: nat)
    requires
        is_plain_pinned(pinned),
        n <= pinned.len(),
    ensures
        pinned_of(pinned_pairs(pinned, pinned.len()), n) == pinned.subrange(0, n as int),
    decreases n,
{
    let pairs = pinned_pairs(pinned, pinned.len());
    if n == 0 {
        assert(pinned_of(pairs, 0) =~= pinned.subrange(0, 0));
    } else {
        lemma_pinned_round_trip(pinned, (n - 1) as nat);
        let before = pinned.subrange(0, n - 1);
        let (k, values) = pinned[n - 1];
        assert(pinned[n - 1].1.len() > 0 && all_lack(pinned[n - 1].1, ';'));
        lemma_values_round_trip(values);
        assert forall|i: int| 0 <= i < before.len() implies (#[trigger] before[i]).0 != k by {
            assert(pinned[i].0 != pinned[n - 1].0);
        }
        lemma_with_absent_values(before, k, values);
        assert(before.push((k, values)) =~= pinned.subrange(0, n as int));
    }
}

// ---------------------------------------------------------------------------
// The law
// ---------------------------------------------------------------------------

/// Whether settings can be kept in a file as they are: lists and pinned metadata
/// are plain, an order names a source, and the texts that may be missing are not
/// empty.
pub open spec fn can_be_kept(s: SettingsView) -> bool {
    &&& is_plain_pinned(s.pinned)
    &&& s.order.len() > 0
    &&& s.session != Some(Seq::<char>::empty())
    &&& s.batch_directory != Some(Seq::<char>::empty())
    &&& is_plain_list(s.keywords)
    &&& is_plain_list(s.regexes)
    &&& is_plain_list(s.translation_suffixes)
    &&& is_plain_list(s.romanization_suffixes)
}

/// What a file with saved settings says under each key.
proof fn lemma_saved(s: SettingsView, section: Seq<char>, key: Seq<char>)
    ensures
        ({
            let m1 = with_log(no_sections(), s.log);
            let m2 = with_pinned(m1, s.pinned, s.pinned.len());
            let m3 = with_connector(m2, s);
            let m4 = with_general(m3, s);
            let m5 = with_stripping(m4, s);
            let m6 = with_server(m5, s.server);
            &&& section_pairs(m6, "BatchConversion"@).len() == 0
            &&& is_plain_pinned(s.pinned) ==> section_pairs(saved(s), "PinnedMetadata"@)
                == pinned_pairs(s.pinned, s.pinned.len())
            &&& section == "Logging"@ ==> lookup(saved(s), section, key) == lookup(
                m1,
                section,
                key,
            )
            &&& section == "AmllConnector"@ ==> lookup(saved(s), section, key) == lookup(
                m3,
                section,
                key,
            )
            &&& section == "GeneralSettings"@ || section == "UiState"@ ==> lookup(
                saved(s),
                section,
                key,
            ) == lookup(m4, section, key)
            &&& section == "LyricStripping"@ ==> lookup(saved(s), section, key) == lookup(
                m5,
                section,
                key,
            )
            &&& section == "WebsocketServer"@ ==> lookup(saved(s), section, key) == lookup(
                m6,
                section,
                key,
            )
            &&& section == "GeneralSettings"@ ==> lookup(m3, section, key) is None
        }),
{
    lemma_sections_differ();
    let m0 = no_sections();
    let m1 = with_log(m0, s.log);
    let m2 = with_pinned(m1, s.pinned, s.pinned.len());
    let m3 = with_connector(m2, s);
    let m4 = with_general(m3, s);
    let m5 = with_stripping(m4, s);
    let m6 = with_server(m5, s.server);
    let p = "PinnedMetadata"@;
    let b = "BatchConversion"@;
    lemma_log(m0, s.log, section, key);
    lemma_log(m0, s.log, p, key);
    lemma_log(m0, s.log, b, key);
    if section != p {
        lemma_pinned_elsewhere(m1, s.pinned, s.pinned.len(), section, key);
    }
    lemma_pinned_elsewhere(m1, s.pinned, s.pinned.len(), b, key);
    if is_plain_pinned(s.pinned) {
        lemma_pinned_written(m1, s.pinned, s.pinned.len());
    }
    lemma_connector(m2, s, section, key);
    lemma_connector(m2, s, p, key);
    lemma_connector(m2, s, b, key);
    lemma_general(m3, s, section, key);
    lemma_general(m3, s, p, key);
    lemma_general(m3, s, b, key);
    lemma_stripping(m4, s, section, key);
    lemma_stripping(m4, s, p, key);
    lemma_stripping(m4, s, b, key);
    lemma_server(m5, s.server, section, key);
    lemma_server(m5, s.server, p, key);
    lemma_server(m5, s.server, b, key);
    lemma_batch(m6, s, section, key);
    lemma_batch(m6, s, p, key);
}

/// Whatever the lists, the order and the pinned metadata are: every other setting
/// is read as it was saved, but for an empty text that may be missing, which is
/// read as missing, and what is known of the index, which is not kept. The lists
/// and the order are those that their texts mean.
pub proof fn law_single_settings_round_trip(s: SettingsView)
    ensures
        settings_in(saved(s)) == (SettingsView {
            pinned: settings_in(saved(s)).pinned,
            order: order_in(Some(order_text(s.order))),
            session: text_in(s.session),
            keywords: added_to(Some(join(s.keywords, ";"@)), default_settings().keywords),
            regexes: added_to(Some(join(s.regexes, ";"@)), default_settings().regexes),
            index_head: None,
            checked_update: false,
            check_on_startup: true,
            batch_directory: text_in(s.batch_directory),
            translation_suffixes: list_of(join(s.translation_suffixes, ";"@)),
            romanization_suffixes: list_of(join(s.romanization_suffixes, ";"@)),
            ..s
        }),
{
    let m = saved(s);
    let m0 = no_sections();
    let m1 = with_log(m0, s.log);
    let m2 = with_pinned(m1, s.pinned, s.pinned.len());
    let m3 = with_connector(m2, s);
    let m4 = with_general(m3, s);
    let m5 = with_stripping(m4, s);
    let m6 = with_server(m5, s.server);
    let e = Seq::<char>::empty();
    assert forall|x: Seq<char>, y: Seq<char>| x == "Logging"@ implies #[trigger] lookup(m, x, y)
        == lookup(m1, x, y) by {
        lemma_saved(s, x, y);
    }
    assert forall|x: Seq<char>, y: Seq<char>| x == "AmllConnector"@ implies #[trigger] lookup(
        m,
        x,
        y,
    ) == lookup(m3, x, y) by {
        lemma_saved(s, x, y);
    }
    assert forall|x: Seq<char>, y: Seq<char>|
        x == "GeneralSettings"@ || x == "UiState"@ implies #[trigger] lookup(m, x, y) == lookup(
        m4,
        x,
        y,
    ) by {
        lemma_saved(s, x, y);
    }
    assert forall|x: Seq<char>, y: Seq<char>| x == "GeneralSettings"@ implies #[trigger] lookup(
        m3,
        x,
        y,
    ) is None by {
        lemma_saved(s, x, y);
    }
    assert forall|x: Seq<char>, y: Seq<char>| x == "LyricStripping"@ implies #[trigger] lookup(
        m,
        x,
        y,
    ) == lookup(m5, x, y) by {
        lemma_saved(s, x, y);
    }
    assert forall|x: Seq<char>, y: Seq<char>| x == "WebsocketServer"@ implies #[trigger] lookup(
        m,
        x,
        y,
    ) == lookup(m6, x, y) by {
        lemma_saved(s, x, y);
    }
    lemma_saved(s, e, e);
    lemma_log(m0, s.log, e, e);
    lemma_connector(m2, s, e, e);
    lemma_general(m3, s, e, e);
    lemma_stripping(m4, s, e, e);
    lemma_server(m5, s.server, e, e);
    lemma_batch(m6, s, e, e);
    lemma_values(s);
    reveal_strlit("");
    assert(""@ =~= e);
    if s.session is Some && s.session->0.len() == 0 {
        assert(s.session->0 =~= e);
    }
    if s.batch_directory is Some && s.batch_directory->0.len() == 0 {
        assert(s.batch_directory->0 =~= e);
    }
}

/// Settings that are saved and read again are the same, except that the default
/// keywords and expressions stand in front of those that were saved, and that
/// what is known of the index is not kept.
pub proof fn law_settings_round_trip(s: SettingsView)
    requires
        can_be_kept(s),
    ensures
        settings_in(saved(s)) == (SettingsView {
            keywords: merged(default_settings().keywords, s.keywords, s.keywords.len()),
            regexes: merged(default_settings().regexes, s.regexes, s.regexes.len()),
            index_head: None,
            checked_update: false,
            check_on_startup: true,
            ..s
        }),
{
    let e = Seq::<char>::empty();
    law_single_settings_round_trip(s);
    lemma_saved(s, e, e);
    lemma_lists(s);
    if s.session is Some && s.session->0.len() == 0 {
        assert(s.session->0 =~= e);
    }
    if s.batch_directory is Some && s.batch_directory->0.len() == 0 {
        assert(s.batch_directory->0 =~= e);
    }
    lemma_pinned_round_trip(s.pinned, s.pinned.len());
    assert(s.pinned.subrange(0, s.pinned.len() as int) =~= s.pinned);
}

/// Every single value that is written is read again.
proof fn lemma_values(s: SettingsView)
    ensures
        forall|b: bool, d: bool| #[trigger] bool_or(Some(bool_text(b)), d) == b,
        forall|l: LevelFilter, d: LevelFilter| #[trigger] level_or(Some(level_name(l)), d) == l,
        forall|f: LyricFormat| #[trigger] format_of(format_name(f)) == Some(f),
        int_in(Some(int_text(s.offset as int))) == s.offset,
        port_in(Some(dec(s.server.port as nat))) == s.server.port,
{
    assert forall|b: bool, d: bool| #[trigger] bool_or(Some(bool_text(b)), d) == b by {
        lemma_bool_round_trip(b);
    }
    assert forall|l: LevelFilter, d: LevelFilter| #[trigger]
        level_or(Some(level_name(l)), d) == l by {
        lemma_level_round_trip(l);
    }
    assert forall|f: LyricFormat| #[trigger] format_of(format_name(f)) == Some(f) by {
        law_format_names(f);
    }
    lemma_int_round_trip(s.offset);
    lemma_port_round_trip(s.server.port);
}

/// Lists and orders that can be kept are read again.
proof fn lemma_lists(s: SettingsView)
    requires
        can_be_kept(s),
    ensures
        order_in(Some(order_text(s.order))) == s.order,
        list_of(join(s.keywords, ";"@)) == s.keywords,
        list_of(join(s.regexes, ";"@)) == s.regexes,
        list_of(join(s.translation_suffixes, ";"@)) == s.translation_suffixes,
        list_of(join(s.romanization_suffixes, ";"@)) == s.romanization_suffixes,
{
    lemma_order_round_trip(s.order);
    lemma_list_round_trip(s.keywords);
    lemma_list_round_trip(s.regexes);
    lemma_list_round_trip(s.translation_suffixes);
    lemma_list_round_trip(s.romanization_suffixes);
}

/// How a switch is written.
pub open spec fn switch_text(on: bool) -> Seq<char> {
    if on {
        "true"@
    } else {
        "false"@
    }
}

/// Each setting is written under its section and key: a switch as `true` or `false`, a
/// level and a format by its name, a number in digits, with a minus in front where it is
/// negative, and a list with semicolons between its entries. A directory and a format for
/// batches that are not chosen are not written.
pub proof fn law_what_is_saved(s: AppSettings)
    ensures
        ({
            let m = saved(s@);
            let n = s.smtc_time_offset_ms as int;
            &&& lookup(m, "Logging"@, "EnableFileLog"@) == Some(
                switch_text(s.log_settings.enable_file_log),
            )
            &&& lookup(m, "Logging"@, "FileLogLevel"@) == Some(
                level_name(s.log_settings.file_log_level),
            )
            &&& lookup(m, "Logging"@, "ConsoleLogLevel"@) == Some(
                level_name(s.log_settings.console_log_level),
            )
            &&& lookup(m, "AmllConnector"@, "Enabled"@) == Some(
                switch_text(s.amll_connector_enabled),
            )
            &&& lookup(m, "AmllConnector"@, "WebSocketURL"@) == Some(
                s.amll_connector_websocket_url@,
            )
            &&& lookup(m, "AmllConnector"@, "SendAudioDataToPlayer"@) == Some(
                switch_text(s.send_audio_data_to_player),
            )
            &&& n >= 0 ==> lookup(m, "AmllConnector"@, "SmtcTimeOffsetMs"@) == Some(dec(n as nat))
            &&& n < 0 ==> lookup(m, "AmllConnector"@, "SmtcTimeOffsetMs"@) == Some(
                seq!['-'] + dec((-n) as nat),
            )
            &&& lookup(m, "GeneralSettings"@, "AutoSearchSourceOrder"@) == Some(
                order_text(s.auto_search_source_order@),
            )
            &&& lookup(m, "GeneralSettings"@, "AlwaysSearchAllSources"@) == Some(
                switch_text(s.always_search_all_sources),
            )
            &&& lookup(m, "GeneralSettings"@, "LastSourceFormat"@) == Some(
                format_name(s.last_source_format),
            )
            &&& lookup(m, "GeneralSettings"@, "LastTargetFormat"@) == Some(
                format_name(s.last_target_format),
            )
            &&& s.last_selected_smtc_session_id is Some ==> lookup(
                m,
                "UiState"@,
                "LastSelectedSmtcSessionId"@,
            ) == Some(s.last_selected_smtc_session_id->0@)
            &&& s.last_selected_smtc_session_id is None ==> lookup(
                m,
                "UiState"@,
                "LastSelectedSmtcSessionId"@,
            ) == Some(""@)
        }),
{
    let v = s@;
    let m3 = with_connector(
        with_pinned(with_log(no_sections(), v.log), v.pinned, v.pinned.len()),
        v,
    );
    let e = Seq::<char>::empty();
    lemma_saved(v, "Logging"@, "EnableFileLog"@);
    lemma_saved(v, "Logging"@, "FileLogLevel"@);
    lemma_saved(v, "Logging"@, "ConsoleLogLevel"@);
    lemma_log(no_sections(), v.log, e, e);
    lemma_saved(v, "AmllConnector"@, "Enabled"@);
    lemma_saved(v, "AmllConnector"@, "WebSocketURL"@);
    lemma_saved(v, "AmllConnector"@, "SendAudioDataToPlayer"@);
    lemma_saved(v, "AmllConnector"@, "SmtcTimeOffsetMs"@);
    lemma_connector(
        with_pinned(with_log(no_sections(), v.log), v.pinned, v.pinned.len()),
        v,
        e,
        e,
    );
    lemma_saved(v, "GeneralSettings"@, "AutoSearchSourceOrder"@);
    lemma_saved(v, "GeneralSettings"@, "AlwaysSearchAllSources"@);
    lemma_saved(v, "GeneralSettings"@, "LastSourceFormat"@);
    lemma_saved(v, "GeneralSettings"@, "LastTargetFormat"@);
    lemma_saved(v, "UiState"@, "LastSelectedSmtcSessionId"@);
    lemma_general(m3, v, e, e);
}

/// The same for leaving out lines, for the server and for batches.
pub proof fn law_what_else_is_saved(s: AppSettings)
    ensures
        ({
            let m = saved(s@);
            &&& lookup(m, "LyricStripping"@, "EnableOnlineLyricStripping"@) == Some(
                switch_text(s.enable_online_lyric_stripping),
            )
            &&& lookup(m, "LyricStripping"@, "StrippingKeywords"@) == Some(
                join(views(s.stripping_keywords@), ";"@),
            )
            &&& lookup(m, "LyricStripping"@, "StrippingKeywordCaseSensitive"@) == Some(
                switch_text(s.stripping_keyword_case_sensitive),
            )
            &&& lookup(m, "LyricStripping"@, "EnableTtmlRegexStripping"@) == Some(
                switch_text(s.enable_ttml_regex_stripping),
            )
            &&& lookup(m, "LyricStripping"@, "TtmlStrippingRegexes"@) == Some(
                join(views(s.ttml_stripping_regexes@), ";"@),
            )
            &&& lookup(m, "LyricStripping"@, "TtmlRegexStrippingCaseSensitive"@) == Some(
                switch_text(s.ttml_regex_stripping_case_sensitive),
            )
            &&& lookup(m, "WebsocketServer"@, "Enabled"@) == Some(
                switch_text(s.websocket_server_settings.enabled),
            )
            &&& lookup(m, "WebsocketServer"@, "Port"@) == Some(
                dec(s.websocket_server_settings.port as nat),
            )
            &&& lookup(m, "BatchConversion"@, "OutputDirectory"@) == opt_view(
                s.batch_output_directory,
            )
            &&& s.batch_default_target_format is Some ==> lookup(
                m,
                "BatchConversion"@,
                "DefaultTargetFormat"@,
            ) == Some(format_name(s.batch_default_target_format->0))
            &&& s.batch_default_target_format is None ==> lookup(
                m,
                "BatchConversion"@,
                "DefaultTargetFormat"@,
            ) is None
            &&& lookup(m, "BatchConversion"@, "AutoPairEnabled"@) == Some(
                switch_text(s.batch_auto_pair_enabled),
            )
            &&& lookup(m, "BatchConversion"@, "TranslationSuffixes"@) == Some(
                join(views(s.batch_translation_suffixes@), ";"@),
            )
            &&& lookup(m, "BatchConversion"@, "RomanizationSuffixes"@) == Some(
                join(views(s.batch_romanization_suffixes@), ";"@),
            )
        }),
{
    let v = s@;
    let m3 = with_connector(
        with_pinned(with_log(no_sections(), v.log), v.pinned, v.pinned.len()),
        v,
    );
    let m4 = with_general(m3, v);
    let m5 = with_stripping(m4, v);
    let m6 = with_server(m5, v.server);
    let e = Seq::<char>::empty();
    lemma_saved(v, "LyricStripping"@, "EnableOnlineLyricStripping"@);
    lemma_saved(v, "LyricStripping"@, "StrippingKeywords"@);
    lemma_saved(v, "LyricStripping"@, "StrippingKeywordCaseSensitive"@);
    lemma_saved(v, "LyricStripping"@, "EnableTtmlRegexStripping"@);
    lemma_saved(v, "LyricStripping"@, "TtmlStrippingRegexes"@);
    lemma_saved(v, "LyricStripping"@, "TtmlRegexStrippingCaseSensitive"@);
    lemma_stripping(m4, v, e, e);
    lemma_saved(v, "WebsocketServer"@, "Enabled"@);
    lemma_saved(v, "WebsocketServer"@, "Port"@);
    lemma_server(m5, v.server, e, e);
    lemma_batch(m6, v, e, e);
}

/// The names of the levels, as they are written.
pub proof fn law_level_names()
    ensures
        level_name(LevelFilter::Off) == "OFF"@,
        level_name(LevelFilter::Error) == "ERROR"@,
        level_name(LevelFilter::Warn) == "WARN"@,
        level_name(LevelFilter::Info) == "INFO"@,
        level_name(LevelFilter::Debug) == "DEBUG"@,
        level_name(LevelFilter::Trace) == "TRACE"@,
{
}

/// An order of sources is written as their names with commas between them.
pub proof fn law_written_order(order: Seq<AutoSearchSource>, s: AutoSearchSource)
    ensures
        order.len() == 0 ==> order_text(order.push(s)) == source_name(s),
        order.len() > 0 ==> order_text(order.push(s)) == order_text(order) + ","@ + source_name(s),
{
    let names = source_names(order);
    assert(source_names(order.push(s)) =~= names.push(source_name(s)));
    assert(names.push(source_name(s)).drop_last() =~= names);
}

} // verus!
