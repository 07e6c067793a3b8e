//! Where each setting is kept and what it is where nothing is kept.

use vstd::prelude::*;

use crate::app_settings::{
    default_settings, int_of, list_of, merged, nat_of, pinned_of, settings_in, split_values,
    with_values, without_bom, AppSettings, DEFAULT_ROMANIZATION_SUFFIXES,
    DEFAULT_STRIPPING_KEYWORDS, DEFAULT_TRANSLATION_SUFFIXES, DEFAULT_TTML_STRIPPING_REGEXES,
    LevelFilter,
};
use crate::formats::{format_of, order_of, AutoSearchSource, LyricFormat};
use crate::ini_file::{first_value, lookup};
use crate::search_laws::lemma_filled;
use crate::text::{
    all_ascii_digits, dec_value, eq_ignore_case, is_blank, split_any, stands_at, trim, views,
};
use crate::text_laws::{law_eq_ignore_case, law_not_split, law_split, law_split_text};
use crate::types::opt_view;

verus! {

/// The sections of a file of settings.
pub type Sections = Map<Seq<char>, Seq<(Seq<char>, Seq<char>)>>;

/// The value of a key is that of the first entry with it in its section.
pub proof fn law_lookup(m: Sections, section: Seq<char>, key: Seq<char>, i: int)
    requires
        m.dom().contains(section),
        0 <= i <= m[section].len(),
        forall|k: int| 0 <= k < i ==> (#[trigger] m[section][k]).0 != key,
    ensures
        i < m[section].len() && m[section][i].0 == key ==> lookup(m, section, key) == Some(
            m[section][i].1,
        ),
        i == m[section].len() ==> lookup(m, section, key) is None,
{
    lemma_first_value(m[section], key, i);
}

/// The first value of a key.
proof fn lemma_first_value(pairs: Seq<(Seq<char>, Seq<char>)>, key: Seq<char>, i: int)
    requires
        0 <= i <= pairs.len(),
        forall|k: int| 0 <= k < i ==> (#[trigger] pairs[k]).0 != key,
    ensures
        i < pairs.len() && pairs[i].0 == key ==> first_value(pairs, key) == Some(pairs[i].1),
        i == pairs.len() ==> first_value(pairs, key) is None,
    decreases pairs.len(),
{
    if i > 0 {
        let rest = pairs.subrange(1, pairs.len() as int);
        assert(pairs[0].0 != key);
        assert forall|k: int| 0 <= k < i - 1 implies (#[trigger] rest[k]).0 != key by {
            assert(rest[k] == pairs[k + 1]);
        }
        lemma_first_value(rest, key, i - 1);
        if i < pairs.len() {
            assert(rest[i - 1] == pairs[i]);
        }
    }
}

/// Whether a switch is as the file says: on for `true`, off for `false`, and as it is
/// by default where the file says nothing else.
pub open spec fn is_switch(
    m: Sections,
    section: Seq<char>,
    key: Seq<char>,
    default: bool,
    value: bool,
) -> bool {
    let said = lookup(m, section, key);
    &&& said == Some("true"@) ==> value
    &&& said == Some("false"@) ==> !value
    &&& said != Some("true"@) && said != Some("false"@) ==> value == default
}

/// Whether a level is as the file says, in any case, and that for information where
/// it says nothing else.
pub open spec fn is_level(m: Sections, key: Seq<char>, value: LevelFilter) -> bool {
    let said = lookup(m, "Logging"@, key);
    let text = said->0;
    &&& said is None ==> value == LevelFilter::Info
    &&& said is Some ==> {
        &&& value == LevelFilter::Off <==> eq_ignore_case(text, "OFF"@)
        &&& value == LevelFilter::Error <==> eq_ignore_case(text, "ERROR"@)
        &&& value == LevelFilter::Warn <==> eq_ignore_case(text, "WARN"@)
        &&& value == LevelFilter::Debug <==> eq_ignore_case(text, "DEBUG"@)
        &&& value == LevelFilter::Trace <==> eq_ignore_case(text, "TRACE"@)
    }
}

/// Whether a text that may be missing is as the file says; an empty one is missing.
pub open spec fn is_text(
    m: Sections,
    section: Seq<char>,
    key: Seq<char>,
    value: Option<Seq<char>>,
) -> bool {
    let said = lookup(m, section, key);
    &&& said is None ==> value is None
    &&& said is Some && said->0.len() == 0 ==> value is None
    &&& said is Some && said->0.len() > 0 ==> value == said
}

/// The names of the levels are different ones.
proof fn lemma_levels(s: Seq<char>)
    ensures
        eq_ignore_case(s, "OFF"@) ==> s.len() == 3,
        eq_ignore_case(s, "ERROR"@) ==> s.len() == 5 && (s[0] == 'E' || s[0] == 'e'),
        eq_ignore_case(s, "WARN"@) ==> s.len() == 4 && (s[0] == 'W' || s[0] == 'w'),
        eq_ignore_case(s, "INFO"@) ==> s.len() == 4 && (s[0] == 'I' || s[0] == 'i'),
        eq_ignore_case(s, "DEBUG"@) ==> s.len() == 5 && (s[0] == 'D' || s[0] == 'd'),
        eq_ignore_case(s, "TRACE"@) ==> s.len() == 5 && (s[0] == 'T' || s[0] == 't'),
{
    reveal_strlit("OFF");
    reveal_strlit("ERROR");
    reveal_strlit("WARN");
    reveal_strlit("INFO");
    reveal_strlit("DEBUG");
    reveal_strlit("TRACE");
    law_eq_ignore_case(s, "OFF"@);
    law_eq_ignore_case(s, "ERROR"@);
    law_eq_ignore_case(s, "WARN"@);
    law_eq_ignore_case(s, "INFO"@);
    law_eq_ignore_case(s, "DEBUG"@);
    law_eq_ignore_case(s, "TRACE"@);
}

/// What `true` and `false` are.
proof fn lemma_switches()
    ensures
        "true"@ != "false"@,
{
    reveal_strlit("true");
    reveal_strlit("false");
    assert("true"@.len() == 4 && "false"@.len() == 5);
}

/// The switches and levels of the settings, each under its section and key.
pub proof fn law_switches_are_read(m: Sections, s: AppSettings)
    requires
        s@ == settings_in(m),
    ensures
        is_switch(m, "Logging"@, "EnableFileLog"@, false, s.log_settings.enable_file_log),
        is_level(m, "FileLogLevel"@, s.log_settings.file_log_level),
        is_level(m, "ConsoleLogLevel"@, s.log_settings.console_log_level),
        is_switch(m, "AmllConnector"@, "Enabled"@, false, s.amll_connector_enabled),
        is_switch(
            m,
            "AmllConnector"@,
            "SendAudioDataToPlayer"@,
            true,
            s.send_audio_data_to_player,
        ),
        is_switch(
            m,
            "GeneralSettings"@,
            "AlwaysSearchAllSources"@,
            false,
            s.always_search_all_sources,
        ),
        is_switch(
            m,
            "GeneralSettings"@,
            "CheckedAmllUpdateSinceSuccess"@,
            false,
            s.checked_amll_update_since_last_success,
        ),
        is_switch(
            m,
            "GeneralSettings"@,
            "AutoCheckAmllUpdateOnStartup"@,
            true,
            s.auto_check_amll_index_update_on_startup,
        ),
        is_switch(
            m,
            "LyricStripping"@,
            "EnableOnlineLyricStripping"@,
            true,
            s.enable_online_lyric_stripping,
        ),
        is_switch(
            m,
            "LyricStripping"@,
            "StrippingKeywordCaseSensitive"@,
            false,
            s.stripping_keyword_case_sensitive,
        ),
        is_switch(
            m,
            "LyricStripping"@,
            "EnableTtmlRegexStripping"@,
            true,
            s.enable_ttml_regex_stripping,
        ),
        is_switch(
            m,
            "LyricStripping"@,
            "TtmlRegexStrippingCaseSensitive"@,
            false,
            s.ttml_regex_stripping_case_sensitive,
        ),
        is_switch(
            m,
            "WebsocketServer"@,
            "Enabled"@,
            true,
            s.websocket_server_settings.enabled,
        ),
        is_switch(
            m,
            "BatchConversion"@,
            "AutoPairEnabled"@,
            true,
            s.batch_auto_pair_enabled,
        ),
{
    lemma_switches();
    let a = lookup(m, "Logging"@, "FileLogLevel"@);
    let b = lookup(m, "Logging"@, "ConsoleLogLevel"@);
    if a is Some {
        lemma_levels(a->0);
    }
    if b is Some {
        lemma_levels(b->0);
    }
}

/// The texts, numbers, formats and lists of the settings, each under its section and
/// key. The keywords and expressions that are kept are added to those that there are
/// by default, and the other lists take their place.
pub proof fn law_values_are_read(m: Sections, s: AppSettings)
    requires
        s@ == settings_in(m),
    ensures
        ({
            let url = lookup(m, "AmllConnector"@, "WebSocketURL"@);
            &&& url is Some ==> s.amll_connector_websocket_url@ == url->0
            &&& url is None ==> s.amll_connector_websocket_url@ == "ws://localhost:11444"@
        }),
        is_text(
            m,
            "UiState"@,
            "LastSelectedSmtcSessionId"@,
            opt_view(s.last_selected_smtc_session_id),
        ),
        is_text(
            m,
            "GeneralSettings"@,
            "LastKnownAmllIndexHead"@,
            opt_view(s.last_known_amll_index_head),
        ),
        is_text(m, "BatchConversion"@, "OutputDirectory"@, opt_view(s.batch_output_directory)),
        ({
            let offset = lookup(m, "AmllConnector"@, "SmtcTimeOffsetMs"@);
            &&& offset is Some && int_of(offset->0) is Some ==> s.smtc_time_offset_ms == int_of(
                offset->0,
            )->0
            &&& offset is None || int_of(offset->0) is None ==> s.smtc_time_offset_ms == 0
        }),
        ({
            let port = lookup(m, "WebsocketServer"@, "Port"@);
            &&& port is Some && nat_of(port->0, 65535) is Some
                ==> s.websocket_server_settings.port == nat_of(port->0, 65535)->0
            &&& port is None || nat_of(port->0, 65535) is None
                ==> s.websocket_server_settings.port == 10086
        }),
        ({
            let source = lookup(m, "GeneralSettings"@, "LastSourceFormat"@);
            &&& source is Some && format_of(source->0) is Some ==> s.last_source_format
                == format_of(source->0)->0
            &&& source is None || format_of(source->0) is None ==> s.last_source_format
                == LyricFormat::Ass
        }),
        ({
            let target = lookup(m, "GeneralSettings"@, "LastTargetFormat"@);
            &&& target is Some && format_of(target->0) is Some ==> s.last_target_format
                == format_of(target->0)->0
            &&& target is None || format_of(target->0) is None ==> s.last_target_format
                == LyricFormat::Ttml
        }),
        ({
            let batch = lookup(m, "BatchConversion"@, "DefaultTargetFormat"@);
            &&& batch is Some ==> s.batch_default_target_format == format_of(batch->0)
            &&& batch is None ==> s.batch_default_target_format is None
        }),
        ({
            let order = lookup(m, "GeneralSettings"@, "AutoSearchSourceOrder"@);
            &&& order is Some && !is_blank(order->0) ==> s.auto_search_source_order@ == order_of(
                trim(order->0),
            )
            &&& order is None || is_blank(order->0) ==> s.auto_search_source_order@ == seq![
                AutoSearchSource::LocalCache,
                AutoSearchSource::QqMusic,
                AutoSearchSource::Kugou,
                AutoSearchSource::Netease,
                AutoSearchSource::AmllDb,
                AutoSearchSource::Musixmatch,
            ]
        }),
        ({
            let suffixes = lookup(m, "BatchConversion"@, "TranslationSuffixes"@);
            &&& suffixes is Some ==> views(s.batch_translation_suffixes@) == list_of(suffixes->0)
            &&& suffixes is None ==> views(s.batch_translation_suffixes@) == split_any(
                DEFAULT_TRANSLATION_SUFFIXES@,
                seq![';'],
            )
        }),
        ({
            let suffixes = lookup(m, "BatchConversion"@, "RomanizationSuffixes"@);
            &&& suffixes is Some ==> views(s.batch_romanization_suffixes@) == list_of(suffixes->0)
            &&& suffixes is None ==> views(s.batch_romanization_suffixes@) == split_any(
                DEFAULT_ROMANIZATION_SUFFIXES@,
                seq![';'],
            )
        }),
        ({
            let known = split_any(DEFAULT_STRIPPING_KEYWORDS@, seq![';']);
            let kept = lookup(m, "LyricStripping"@, "StrippingKeywords"@);
            &&& kept is Some ==> views(s.stripping_keywords@) == merged(
                known,
                list_of(kept->0),
                list_of(kept->0).len(),
            )
            &&& kept is None ==> views(s.stripping_keywords@) == known
        }),
        ({
            let known = split_any(DEFAULT_TTML_STRIPPING_REGEXES@, seq![';']);
            let kept = lookup(m, "LyricStripping"@, "TtmlStrippingRegexes"@);
            &&& kept is Some ==> views(s.ttml_stripping_regexes@) == merged(
                known,
                list_of(kept->0),
                list_of(kept->0).len(),
            )
            &&& kept is None ==> views(s.ttml_stripping_regexes@) == known
        }),
{
    assert(s@.log == s.log_settings);
    let offset = lookup(m, "AmllConnector"@, "SmtcTimeOffsetMs"@);
    if offset is Some {
        law_signed_number(offset->0);
    }
    let port = lookup(m, "WebsocketServer"@, "Port"@);
    if port is Some && nat_of(port->0, 65535) is Some {
        assert(nat_of(port->0, 65535)->0 <= 65535);
    }
}

/// A number with a sign is the number behind a minus, taken negative, or the number
/// behind a plus or without a sign. Nothing else is one, and neither is a number of
/// more than 64 bits.
pub proof fn law_signed_number(s: Seq<char>)
    ensures
        int_of(s) is Some ==> i64::MIN <= int_of(s)->0 <= i64::MAX,
        s.len() > 0 && s[0] == '-' ==> {
            let d = s.subrange(1, s.len() as int);
            &&& int_of(s) is Some <==> d.len() > 0 && all_ascii_digits(d) && dec_value(d)
                <= 0x8000_0000_0000_0000
            &&& int_of(s) is Some ==> int_of(s)->0 == -dec_value(d)
        },
        s.len() > 0 && s[0] == '+' ==> {
            let d = s.subrange(1, s.len() as int);
            &&& int_of(s) is Some <==> d.len() > 0 && all_ascii_digits(d) && dec_value(d)
                <= i64::MAX
            &&& int_of(s) is Some ==> int_of(s)->0 == dec_value(d)
        },
        s.len() == 0 || (s[0] != '-' && s[0] != '+') ==> {
            &&& int_of(s) is Some <==> s.len() > 0 && all_ascii_digits(s) && dec_value(s)
                <= i64::MAX
            &&& int_of(s) is Some ==> int_of(s)->0 == dec_value(s)
        },
{
}

/// The entries of a list are what stands between semicolons, without the white space
/// round it and without the empty ones, in order.
pub proof fn law_list(a: Seq<char>, b: Seq<char>)
    requires
        forall|k: int| 0 <= k < a.len() ==> #[trigger] a[k] != ';',
    ensures
        list_of(a) == (if trim(a).len() > 0 {
            seq![trim(a)]
        } else {
            Seq::empty()
        }),
        list_of(a.push(';') + b) == list_of(a) + list_of(b),
{
    let ds = seq![';'];
    assert(ds[0] == ';');
    assert(ds.contains(';'));
    assert forall|k: int| 0 <= k < a.len() implies !ds.contains(#[trigger] a[k]) by {
        if ds.contains(a[k]) {
            let m = choose|m: int| 0 <= m < ds.len() && ds[m] == a[k];
            assert(m == 0);
        }
    }
    law_split(a, ';', b, ds);
    let none = Seq::<Seq<char>>::empty();
    lemma_filled(a, none);
    assert(seq![a] + none =~= seq![a]);
    lemma_filled(a, split_any(b, ds));
    assert(list_of(a) =~= if trim(a).len() > 0 {
        seq![trim(a)]
    } else {
        Seq::empty()
    });
}

/// A list that is added to another keeps the other in front, and adds what is not yet
/// there: everything of both is in it, nothing else, and nothing new twice.
pub proof fn law_merged(known: Seq<Seq<char>>, more: Seq<Seq<char>>, n: nat)
    requires
        n <= more.len(),
    ensures
        ({
            let r = merged(known, more, n);
            &&& known.len() <= r.len()
            &&& r.take(known.len() as int) == known
            &&& forall|k: int| 0 <= k < n ==> r.contains(#[trigger] more[k])
            &&& forall|k: int|
                known.len() <= k < r.len() ==> more.take(n as int).contains(#[trigger] r[k])
            &&& forall|j: int, k: int|
                0 <= j < k < r.len() && known.len() <= k ==> #[trigger] r[j] != #[trigger] r[k]
        }),
    decreases n,
{
    let r = merged(known, more, n);
    if n == 0 {
        assert(r.take(known.len() as int) =~= known);
    } else {
        law_merged(known, more, (n - 1) as nat);
        let was = merged(known, more, (n - 1) as nat);
        let x = more[n - 1];
        assert forall|k: int| 0 <= k < n implies r.contains(#[trigger] more[k]) by {
            if k < n - 1 {
                assert(was.contains(more[k]));
                let j = choose|j: int| 0 <= j < was.len() && was[j] == more[k];
                assert(r[j] == more[k]);
            } else if !was.contains(x) {
                assert(r[was.len() as int] == x);
            }
        }
        assert forall|k: int| known.len() <= k < r.len() implies more.take(n as int).contains(
            #[trigger] r[k],
        ) by {
            if k < was.len() {
                assert(r[k] == was[k]);
                assert(more.take(n - 1).contains(was[k]));
                let front = more.take(n - 1);
                let j = choose|j: int| 0 <= j < front.len() && #[trigger] front[j] == was[k];
                assert(more.take(n as int)[j] == front[j]);
                assert(more.take(n as int)[j] == r[k]);
            } else {
                assert(more.take(n as int)[n - 1] == r[k]);
            }
        }
        assert(r.take(known.len() as int) =~= was.take(known.len() as int));
        assert forall|j: int, k: int|
            0 <= j < k < r.len() && known.len() <= k implies #[trigger] r[j] != #[trigger] r[k] by {
            assert(r[j] == was[j]);
            if k < was.len() {
                assert(r[k] == was[k]);
            }
        }
    }
}

/// A mark of byte order in front of a file is not looked at.
pub proof fn law_byte_order_mark(s: Seq<char>)
    ensures
        without_bom(seq!['\u{feff}'] + s) == s,
        s.len() == 0 || s[0] != '\u{feff}' ==> without_bom(s) == s,
{
    let t = seq!['\u{feff}'] + s;
    assert(t[0] == '\u{feff}');
    assert(t.subrange(1, t.len() as int) =~= s);
}

/// Metadata that is pinned has, under each key, the values of the last entry with it,
/// which stand between `;;;`.
pub proof fn law_pinned(pairs: Seq<(Seq<char>, Seq<char>)>, n: nat)
    requires
        n < pairs.len(),
    ensures
        ({
            let was = pinned_of(pairs, n);
            let now = pinned_of(pairs, n + 1);
            let (key, text) = pairs[n as int];
            &&& now.contains((key, split_values(text)))
            &&& forall|p: (Seq<char>, Seq<Seq<char>>)|
                p.0 != key ==> (#[trigger] now.contains(p) <==> was.contains(p))
        }),
        pinned_of(pairs, 0).len() == 0,
{
    let (key, text) = pairs[n as int];
    lemma_with_values(pinned_of(pairs, n), key, split_values(text));
}

/// Values that are set are there, and the others stay.
pub proof fn lemma_with_values(
    pinned: Seq<(Seq<char>, Seq<Seq<char>>)>,
    key: Seq<char>,
    values: Seq<Seq<char>>,
)
    ensures
        with_values(pinned, key, values).contains((key, values)),
        forall|p: (Seq<char>, Seq<Seq<char>>)|
            p.0 != key ==> (#[trigger] with_values(pinned, key, values).contains(p)
                <==> pinned.contains(p)),
    decreases pinned.len(),
{
    let now = with_values(pinned, key, values);
    if pinned.len() == 0 {
        assert(now[0] == (key, values));
    } else if pinned[0].0 == key {
        assert(now[0] == (key, values));
        assert forall|p: (Seq<char>, Seq<Seq<char>>)| p.0 != key implies (#[trigger] now.contains(p)
            <==> pinned.contains(p)) by {
            if pinned.contains(p) {
                let k = choose|k: int| 0 <= k < pinned.len() && pinned[k] == p;
                assert(now[k] == p);
            }
            if now.contains(p) {
                let k = choose|k: int| 0 <= k < now.len() && now[k] == p;
                assert(pinned[k] == p);
            }
        }
    } else {
        let rest = pinned.subrange(1, pinned.len() as int);
        lemma_with_values(rest, key, values);
        let more = with_values(rest, key, values);
        let k = choose|k: int| 0 <= k < more.len() && more[k] == (key, values);
        assert(now[k + 1] == (key, values));
        assert forall|p: (Seq<char>, Seq<Seq<char>>)| p.0 != key implies (#[trigger] now.contains(p)
            <==> pinned.contains(p)) by {
            assert(more.contains(p) <==> rest.contains(p));
            if pinned.contains(p) {
                let k = choose|k: int| 0 <= k < pinned.len() && pinned[k] == p;
                if k == 0 {
                    assert(now[0] == p);
                } else {
                    assert(rest[k - 1] == p);
                    let j = choose|j: int| 0 <= j < more.len() && more[j] == p;
                    assert(now[j + 1] == p);
                }
            }
            if now.contains(p) {
                let k = choose|k: int| 0 <= k < now.len() && now[k] == p;
                if k == 0 {
                    assert(pinned[0] == p);
                } else {
                    assert(more[k - 1] == p);
                    let j = choose|j: int| 0 <= j < rest.len() && rest[j] == p;
                    assert(pinned[j + 1] == p);
                }
            }
        }
    }
}

/// The settings where there is no file.
pub proof fn law_default_settings(s: AppSettings)
    requires
        s@ == default_settings(),
    ensures
        !s.log_settings.enable_file_log,
        s.log_settings.file_log_level == LevelFilter::Info,
        s.log_settings.console_log_level == LevelFilter::Info,
        s.pinned_metadata@.len() == 0,
        s.smtc_time_offset_ms == 0,
        !s.amll_connector_enabled,
        s.amll_connector_websocket_url@ == "ws://localhost:11444"@,
        s.auto_search_source_order@ == seq![
            AutoSearchSource::LocalCache,
            AutoSearchSource::QqMusic,
            AutoSearchSource::Kugou,
            AutoSearchSource::Netease,
            AutoSearchSource::AmllDb,
            AutoSearchSource::Musixmatch,
        ],
        !s.always_search_all_sources,
        s.last_selected_smtc_session_id is None,
        s.enable_online_lyric_stripping,
        !s.stripping_keyword_case_sensitive,
        s.enable_ttml_regex_stripping,
        !s.ttml_regex_stripping_case_sensitive,
        s.websocket_server_settings.enabled,
        s.websocket_server_settings.port == 10086,
        s.last_known_amll_index_head is None,
        !s.checked_amll_update_since_last_success,
        s.auto_check_amll_index_update_on_startup,
        s.last_source_format == LyricFormat::Ass,
        s.last_target_format == LyricFormat::Ttml,
        s.send_audio_data_to_player,
        s.batch_output_directory is None,
        s.batch_default_target_format is None,
        s.batch_auto_pair_enabled,
        views(s.stripping_keywords@) == split_any(DEFAULT_STRIPPING_KEYWORDS@, seq![';']),
        views(s.ttml_stripping_regexes@) == split_any(DEFAULT_TTML_STRIPPING_REGEXES@, seq![';']),
        views(s.batch_translation_suffixes@) == split_any(
            DEFAULT_TRANSLATION_SUFFIXES@,
            seq![';'],
        ),
        views(s.batch_romanization_suffixes@) == split_any(
            DEFAULT_ROMANIZATION_SUFFIXES@,
            seq![';'],
        ),
{
    assert(crate::app_settings::pinned_views(s.pinned_metadata@).len() == s.pinned_metadata@.len());
}

/// A number without a sign may have a plus in front, and is at most `max`.
pub proof fn law_unsigned_number(s: Seq<char>, max: nat)
    ensures
        s.len() > 0 && s[0] == '+' ==> {
            let d = s.subrange(1, s.len() as int);
            &&& nat_of(s, max) is Some <==> d.len() > 0 && all_ascii_digits(d) && dec_value(d)
                <= max
            &&& nat_of(s, max) is Some ==> nat_of(s, max)->0 == dec_value(d)
        },
        s.len() == 0 || s[0] != '+' ==> {
            &&& nat_of(s, max) is Some <==> s.len() > 0 && all_ascii_digits(s) && dec_value(s)
                <= max
            &&& nat_of(s, max) is Some ==> nat_of(s, max)->0 == dec_value(s)
        },
{
}

/// The values of a key stand between `;;;`.
pub proof fn law_split_values(a: Seq<char>, b: Seq<char>)
    requires
        forall|k: int| 0 <= k < a.len() ==> #[trigger] a[k] != ';',
    ensures
        split_values(a) == seq![a],
        b.len() == 0 || b[0] != ';' ==> split_values(a + ";;;"@ + b) == seq![a] + split_values(b),
{
    reveal_strlit(";;;");
    let p = ";;;"@;
    assert forall|i: int| 0 <= i < a.len() implies !stands_at(a, p, i) by {
        if stands_at(a, p, i) {
            assert(a.subrange(i, i + 3)[0] == ';');
        }
    }
    law_not_split(a, p);
    let s = a + p + b;
    assert forall|i: int| 0 <= i < a.len() implies !stands_at(s, p, i) by {
        if stands_at(s, p, i) {
            assert(s.subrange(i, i + 3)[0] == ';');
            assert(s[i] == a[i]);
        }
    }
    law_split_text(a, p, b);
}

} // verus!
