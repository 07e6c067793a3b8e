//! The settings of the application, and how they are kept in an INI file.

use vstd::prelude::*;

use crate::formats::{
    default_sources, format_name, format_of, order_of, order_text, search_order_to_string,
    string_to_search_order, AutoSearchSource, LyricFormat,
};
use crate::ini_file::{
    ini_get, ini_new, ini_pairs, ini_parse, ini_sections, ini_set, ini_text, lookup, no_sections,
    opt_sections, section_pairs, with_value,
};
use crate::text::{
    dec, eq_ignore_case, is_blank, join, join_strings, parse_dec, parse_digits, push_dec, split_any,
    split_at_any, split_at_str, split_str, str_eq, str_is_blank, string_of, to_chars, trim,
    trim_str, trimmed, views,
};
use crate::types::{opt_view, pair_views};

verus! {

/// The keywords by which descriptive lines are recognised, with `;` between
/// them.
pub const DEFAULT_STRIPPING_KEYWORDS: &'static str = "作曲;作词;编曲;演唱;歌手;歌名;专辑;发行;出品;监制;录音;混音;母带;吉他;贝斯;鼓;键盘;弦乐;和声;版权;制作人;原唱;翻唱;词;曲;发行人;宣推;录音制作;制作发行;音乐制作;录音师;混音工程师;母带工程师;制作统筹;艺术指导;出品团队;发行方;和声编写;封面设计;策划;营销推广;总策划;特别鸣谢;出品人;出品公司;联合出品;词曲提供;制作公司;推广策划;乐器演奏;钢琴/合成器演奏;钢琴演奏;合成器演奏;弦乐编写;弦乐监制;第一小提琴;第二小提琴;中提琴;大提琴;弦乐录音师;弦乐录音室;和声演唱;录/混音;制作助理;和音;乐队统筹;维伴音乐;灯光设计;配唱制作人;文案;设计;策划统筹;企划宣传;企划营销;录音室;混音室;母带后期制作人;母带后期处理工程师;母带后期处理录音室;鸣谢;OP;SP;Lyrics by;Composed by;Produced by;Published by;Vocals by;Background Vocals by;Additional Vocal by;Mixing Engineer;Mastered by;Executive Producer;Vocal Engineer;Vocals Produced by;Recorded at;Repertoire Owner;Co-Producer;Mastering Engineer;Written by;Lyrics;Composer;Arranged By;Record Producer;Guitar;Music Production;Recording Engineer;Backing Vocal;Art Director;Chief Producer;Production Team;Publisher;Lyricist;Arranger;Producer;Backing Vocals;Backing Vocals Design;Cover Design;Planner;Marketing Promotion;Chref Planner;Acknowledgement;Production Company;Jointly Produced by;Co-production;Presenter;Presented by;Co-produced by;Lyrics and Composition Provided by;Music and Lyrics Provided by;Lyrics & Composition Provided by;Words and Music by;Distribution;Release;Distributed by;Released by;Produce Company;Promotion Planning;Marketing Strategy;Promotion Strategy;Strings;First Violin;Second Violin;Viola;Cello;Vocal Producer;Supervised production;Copywriting;Design;Planner and coordinator;Propaganda;Arrangement;Guitars;Bass;Drums;Backing Vocal Arrangement;Strings Arrangement;Recording Studio;OP/发行;混音/母带工程师;OP/SP;词Lyrics;曲Composer;编曲Arranged By;制作人Record Producer;吉他Guitar;音乐制作Music Production;录音师Recording Engineer;混音工程师Mixing Engineer;母带工程师Mastering Engineer;和声Backing Vocal;制作统筹Executive Producer;艺术指导Art Director;监制Chief Producer;出品团队Production Team;发行方Publisher;词Lyricist;编曲Arranger;制作人Producer;和声Backing Vocals;和声编写Backing Vocals Design;混音Mixing Engineer;封面设计Cover Design;策划Planner;营销推广Marketing Promotion;总策划Chref Planner;特别鸣谢Acknowledgement;出品人Chief Producer;出品公司Production Company;联合出品Co-produced by;联合出品Jointly Produced by;联合出品Co-production;出品方Presenter;出品方Presented by;词曲提供Lyrics and Composition Provided by;词曲提供Music and Lyrics Provided by;词曲提供Lyrics & Composition Provided by;词曲提供Words and Music by;发行Distribution;发行Release;发行Distributed by;发行Released by;制作公司Produce Company;推广策划Promotion Planning;推广策划Marketing Strategy;推广策划Promotion Strategy;弦乐 Strings;第一小提琴 First Violin;第二小提琴 Second Violin;中提琴 Viola;大提琴 Cello;配唱制作人Vocal Producer;监制Supervised production;文案Copywriting;设计Design;策划统筹Planner and coordinator;企划宣传Propaganda;编曲Arrangement;吉他Guitars;贝斯Bass;鼓Drums;和声编写Backing Vocal Arrangement;弦乐编写Strings Arrangement;录音室Recording Studio;混音室Mixing Studio;母带后期制作人Mastering Producer;母带后期处理工程师Mastering Engineer;母带后期处理录音室Mastering Studio";

/// The regular expressions by which paragraphs are recognised that are to be
/// left out, with `;` between them.
pub const DEFAULT_TTML_STRIPPING_REGEXES: &'static str = "(?:【.*?未经.*?】|\\(.*?未经.*?\\)|「.*?未经.*?」|（.*?未经.*?）|『.*?未经.*?』);(?:【.*?音乐人.*?】|\\(.*?音乐人.*?\\)|「.*?音乐人.*?」|（.*?音乐人.*?）|『.*?音乐人.*?』);.*?未经.*?许可.*?不得.*?使用.*? ;.*?未经.*?许可.*?不得.*?方式.*? ;未经著作权人书面许可，\\s*不得以任何方式\\s*[(\\u{FF08}]包括.*?等[)\\u{FF09}]\\s*使用;.*?发行方\\s*[：:].*?;.*?(?:工作室|特别企划).*?";

/// The endings of the names of files with translations, with `;` between them.
pub const DEFAULT_TRANSLATION_SUFFIXES: &'static str = "_tr;_translation;_trans;.tr;.translation";

/// The endings of the names of files with romanizations, with `;` between them.
pub const DEFAULT_ROMANIZATION_SUFFIXES: &'static str = "_romaji;_romanization;_roma;.romaji;.romanization";

// ---------------------------------------------------------------------------
// Values in the file
// ---------------------------------------------------------------------------

/// How much is logged.
#[derive(Debug, Clone, Copy, PartialEq, Eq, Structural)]
pub enum LevelFilter {
    Off,
    Error,
    Warn,
    Info,
    Debug,
    Trace,
}

/// The name of a level.
pub open spec fn level_name(l: LevelFilter) -> Seq<char> {
    match l {
        LevelFilter::Off => "OFF"@,
        LevelFilter::Error => "ERROR"@,
        LevelFilter::Warn => "WARN"@,
        LevelFilter::Info => "INFO"@,
        LevelFilter::Debug => "DEBUG"@,
        LevelFilter::Trace => "TRACE"@,
    }
}

/// The level with this name, whatever its case.
pub open spec fn level_of(s: Seq<char>) -> Option<LevelFilter> {
    if eq_ignore_case(s, "OFF"@) {
        Some(LevelFilter::Off)
    } else if eq_ignore_case(s, "ERROR"@) {
        Some(LevelFilter::Error)
    } else if eq_ignore_case(s, "WARN"@) {
        Some(LevelFilter::Warn)
    } else if eq_ignore_case(s, "INFO"@) {
        Some(LevelFilter::Info)
    } else if eq_ignore_case(s, "DEBUG"@) {
        Some(LevelFilter::Debug)
    } else if eq_ignore_case(s, "TRACE"@) {
        Some(LevelFilter::Trace)
    } else {
        None
    }
}

/// `<log::LevelFilter as FromStr>::from_str` finds the level whose name differs
/// from the text in the case of ASCII letters at most.
#[verifier::external_body]
fn parse_level(s: &str) -> (r: Option<LevelFilter>)
    ensures
        r == level_of(s@),
{
    match s.parse::<log::LevelFilter>() {
        Ok(log::LevelFilter::Off) => Some(LevelFilter::Off),
        Ok(log::LevelFilter::Error) => Some(LevelFilter::Error),
        Ok(log::LevelFilter::Warn) => Some(LevelFilter::Warn),
        Ok(log::LevelFilter::Info) => Some(LevelFilter::Info),
        Ok(log::LevelFilter::Debug) => Some(LevelFilter::Debug),
        Ok(log::LevelFilter::Trace) => Some(LevelFilter::Trace),
        Err(_) => None,
    }
}

/// `log::LevelFilter::as_str` gives the name of a level.
#[verifier::external_body]
fn level_text(l: LevelFilter) -> (r: &'static str)
    ensures
        r@ == level_name(l),
{
    let level = match l {
        LevelFilter::Off => log::LevelFilter::Off,
        LevelFilter::Error => log::LevelFilter::Error,
        LevelFilter::Warn => log::LevelFilter::Warn,
        LevelFilter::Info => log::LevelFilter::Info,
        LevelFilter::Debug => log::LevelFilter::Debug,
        LevelFilter::Trace => log::LevelFilter::Trace,
    };
    level.as_str()
}

/// A truth value as it is written.
pub open spec fn bool_text(b: bool) -> Seq<char> {
    if b {
        "true"@
    } else {
        "false"@
    }
}

/// The truth value that a text writes.
pub open spec fn bool_of(s: Seq<char>) -> Option<bool> {
    if s == "true"@ {
        Some(true)
    } else if s == "false"@ {
        Some(false)
    } else {
        None
    }
}

/// The text of a truth value.
fn text_of_bool(b: bool) -> (r: &'static str)
    ensures
        r@ == bool_text(b),
{
    if b {
        "true"
    } else {
        "false"
    }
}

/// Reads a truth value.
fn parse_bool(s: &str) -> (r: Option<bool>)
    ensures
        r == bool_of(s@),
{
    if str_eq(s, "true") {
        Some(true)
    } else if str_eq(s, "false") {
        Some(false)
    } else {
        None
    }
}

/// A number as it is written.
pub open spec fn int_text(n: int) -> Seq<char> {
    if n < 0 {
        seq!['-'] + dec((-n) as nat)
    } else {
        dec(n as nat)
    }
}

/// `s` without a sign in front.
pub open spec fn unsigned_part(s: Seq<char>, sign: char) -> Seq<char> {
    if s.len() > 0 && s[0] == sign {
        s.subrange(1, s.len() as int)
    } else {
        s
    }
}

/// The number from zero to `max` that a text writes, with a plus sign allowed in
/// front.
pub open spec fn nat_of(s: Seq<char>, max: nat) -> Option<nat> {
    parse_dec(unsigned_part(s, '+'), max)
}

/// The 64-bit number that a text writes, with a sign allowed in front.
pub open spec fn int_of(s: Seq<char>) -> Option<int> {
    if s.len() > 0 && s[0] == '-' {
        match parse_dec(unsigned_part(s, '-'), 0x8000_0000_0000_0000) {
            Some(n) => Some(-n),
            None => None,
        }
    } else {
        match nat_of(s, 0x7fff_ffff_ffff_ffff) {
            Some(n) => Some(n as int),
            None => None,
        }
    }
}

/// Reads a number from zero to `max`.
fn parse_nat(s: &str, max: u64) -> (r: Option<u64>)
    ensures
        match r {
            Some(n) => nat_of(s@, max as nat) == Some(n as nat),
            None => nat_of(s@, max as nat) is None,
        },
{
    let v = to_chars(s);
    let from: usize = if v.len() > 0 && v[0] == '+' {
        1
    } else {
        0
    };
    proof {
        assert(v@.subrange(0, v@.len() as int) =~= v@);
    }
    parse_digits(vstd::slice::slice_subrange(v.as_slice(), from, v.len()), max)
}

/// Reads a 64-bit number.
fn parse_int(s: &str) -> (r: Option<i64>)
    ensures
        match r {
            Some(n) => int_of(s@) == Some(n as int),
            None => int_of(s@) is None,
        },
{
    let v = to_chars(s);
    if v.len() > 0 && v[0] == '-' {
        let digits = vstd::slice::slice_subrange(v.as_slice(), 1, v.len());
        match parse_digits(digits, 0x8000_0000_0000_0000) {
            Some(n) => if n == 0x8000_0000_0000_0000 {
                Some(i64::MIN)
            } else {
                Some(-(n as i64))
            },
            None => None,
        }
    } else {
        match parse_nat(s, 0x7fff_ffff_ffff_ffff) {
            Some(n) => Some(n as i64),
            None => None,
        }
    }
}

/// Writes a 64-bit number.
fn text_of_int(n: i64) -> (r: String)
    ensures
        r@ == int_text(n as int),
{
    let mut s = String::new();
    if n < 0 {
        s.push('-');
        let size: u64 = (-(n + 1)) as u64 + 1;
        push_dec(&mut s, size);
    } else {
        push_dec(&mut s, n as u64);
    }
    proof {
        assert(s@ =~= int_text(n as int));
    }
    s
}

/// Writes a number.
fn text_of_nat(n: u64) -> (r: String)
    ensures
        r@ == dec(n as nat),
{
    let mut s = String::new();
    push_dec(&mut s, n);
    proof {
        assert(s@ =~= dec(n as nat));
    }
    s
}

// ---------------------------------------------------------------------------
// Lists
// ---------------------------------------------------------------------------

/// The parts of a list that are not blank, trimmed.
pub open spec fn filled_parts(parts: Seq<Seq<char>>) -> Seq<Seq<char>>
    decreases parts.len(),
{
    if parts.len() == 0 {
        Seq::empty()
    } else {
        let before = filled_parts(parts.drop_last());
        let last = trim(parts.last());
        if last.len() > 0 {
            before.push(last)
        } else {
            before
        }
    }
}

/// The entries of a list that is written with `;` between them: trimmed, without
/// the empty ones.
pub open spec fn list_of(s: Seq<char>) -> Seq<Seq<char>> {
    filled_parts(split_any(s, seq![';']))
}

/// The entries of a default list.
pub open spec fn default_list(s: Seq<char>) -> Seq<Seq<char>> {
    split_any(s, seq![';'])
}

/// The parts of a text between the characters that are in `ds`: trimmed, without
/// the empty ones.
pub fn split_list(text: &str, ds: &[char]) -> (r: Vec<String>)
    ensures
        views(r@) == filled_parts(split_any(text@, ds@)),
{
    let v = to_chars(text);
    let parts = split_at_any(v.as_slice(), ds);
    let ghost all = split_any(text@, ds@);
    let mut out: Vec<String> = Vec::new();
    let mut i: usize = 0;
    proof {
        assert(views(out@) =~= filled_parts(all.subrange(0, 0)));
    }
    while i < parts.len()
        invariant
            i <= parts.len(),
            parts@.len() == all.len(),
            forall|k: int| 0 <= k < parts@.len() ==> #[trigger] parts@[k]@ == all[k],
            views(out@) == filled_parts(all.subrange(0, i as int)),
        decreases parts.len() - i,
    {
        let ghost before = out@;
        proof {
            let now = all.subrange(0, i + 1);
            assert(now.drop_last() =~= all.subrange(0, i as int));
            assert(parts@[i as int]@ == all[i as int]);
        }
        let part = trimmed(parts[i].as_slice());
        if part.len() > 0 {
            out.push(string_of(part));
            proof {
                assert(views(out@) =~= views(before).push(part@));
            }
        }
        i += 1;
    }
    proof {
        assert(all.subrange(0, i as int) =~= all);
    }
    out
}

/// Reads a list that is written with `;` between its entries.
fn read_list(text: &str) -> (r: Vec<String>)
    ensures
        views(r@) == list_of(text@),
{
    let semicolon: [char; 1] = [';'];
    proof {
        assert(semicolon@ =~= seq![';']);
    }
    split_list(text, &semicolon)
}

/// A default list.
fn make_default_list(text: &str) -> (r: Vec<String>)
    ensures
        views(r@) == default_list(text@),
{
    let v = to_chars(text);
    let semicolon: [char; 1] = [';'];
    proof {
        assert(semicolon@ =~= seq![';']);
    }
    let parts = split_at_any(v.as_slice(), &semicolon);
    let ghost all = default_list(text@);
    let mut out: Vec<String> = Vec::new();
    let mut i: usize = 0;
    while i < parts.len()
        invariant
            i <= parts.len(),
            parts@.len() == all.len(),
            forall|k: int| 0 <= k < parts@.len() ==> #[trigger] parts@[k]@ == all[k],
            out@.len() == i,
            forall|k: int| 0 <= k < i ==> (#[trigger] out@[k])@ == all[k],
        decreases parts.len() - i,
    {
        proof {
            assert(parts@[i as int]@ == all[i as int]);
        }
        out.push(string_of(parts[i].as_slice()));
        i += 1;
    }
    proof {
        assert(views(out@) =~= all);
    }
    out
}

/// A list with those of the first `n` entries of another added that it does not
/// have yet.
pub open spec fn merged(known: Seq<Seq<char>>, more: Seq<Seq<char>>, n: nat) -> Seq<Seq<char>>
    decreases n,
{
    if n == 0 {
        known
    } else {
        let before = merged(known, more, (n - 1) as nat);
        if before.contains(more[n - 1]) {
            before
        } else {
            before.push(more[n - 1])
        }
    }
}

/// Whether a list has an entry.
pub fn has_string(list: &Vec<String>, s: &String) -> (r: bool)
    ensures
        r == views(list@).contains(s@),
{
    let ghost all = views(list@);
    let mut i: usize = 0;
    while i < list.len()
        invariant
            i <= list.len(),
            all == views(list@),
            forall|k: int| 0 <= k < i ==> #[trigger] all[k] != s@,
        decreases list.len() - i,
    {
        if list[i] == *s {
            proof {
                assert(all[i as int] == s@);
            }
            return true;
        }
        i += 1;
    }
    false
}

/// Adds the entries of a list that another does not have yet.
fn merge(list: &mut Vec<String>, more: &Vec<String>)
    ensures
        views(final(list)@) == merged(views(old(list)@), views(more@), more@.len()),
{
    let ghost known = views(list@);
    let ghost all = views(more@);
    let mut i: usize = 0;
    while i < more.len()
        invariant
            i <= more.len(),
            all == views(more@),
            views(list@) == merged(known, all, i as nat),
        decreases more.len() - i,
    {
        let ghost before = list@;
        proof {
            assert(all[i as int] == more@[i as int]@);
        }
        if !has_string(list, &more[i]) {
            list.push(more[i].clone());
            proof {
                assert(views(list@) =~= views(before).push(all[i as int]));
            }
        }
        i += 1;
    }
}

// ---------------------------------------------------------------------------
// Pinned metadata
// ---------------------------------------------------------------------------

/// The values that a text holds, with `;;;` between them.
pub open spec fn split_values(s: Seq<char>) -> Seq<Seq<char>> {
    split_str(s, ";;;"@)
}

/// The views of lists by their keys.
pub open spec fn pinned_views(v: Seq<(String, Vec<String>)>) -> Seq<(Seq<char>, Seq<Seq<char>>)> {
    crate::amll_lyrics_fetcher::types::metadata_views(v)
}

/// `pinned` with the values of a key: in the place of those that it has, or at
/// the end.
pub open spec fn with_values(
    pinned: Seq<(Seq<char>, Seq<Seq<char>>)>,
    key: Seq<char>,
    values: Seq<Seq<char>>,
) -> Seq<(Seq<char>, Seq<Seq<char>>)>
    decreases pinned.len(),
{
    if pinned.len() == 0 {
        seq![(key, values)]
    } else if pinned[0].0 == key {
        pinned.update(0, (key, values))
    } else {
        seq![pinned[0]] + with_values(pinned.subrange(1, pinned.len() as int), key, values)
    }
}

/// The pinned metadata in the first `n` pairs of a section.
pub open spec fn pinned_of(pairs: Seq<(Seq<char>, Seq<char>)>, n: nat) -> Seq<
    (Seq<char>, Seq<Seq<char>>),
>
    decreases n,
{
    if n == 0 {
        Seq::empty()
    } else {
        with_values(
            pinned_of(pairs, (n - 1) as nat),
            pairs[n - 1].0,
            split_values(pairs[n - 1].1),
        )
    }
}

/// Where `with_values` writes.
proof fn lemma_with_values(
    pinned: Seq<(Seq<char>, Seq<Seq<char>>)>,
    key: Seq<char>,
    values: Seq<Seq<char>>,
    i: int,
)
    requires
        0 <= i <= pinned.len(),
        forall|k: int| 0 <= k < i ==> (#[trigger] pinned[k]).0 != key,
        i < pinned.len() ==> pinned[i].0 == key,
    ensures
        with_values(pinned, key, values) == if i < pinned.len() {
            pinned.update(i, (key, values))
        } else {
            pinned.push((key, values))
        },
    decreases pinned.len(),
{
    if pinned.len() == 0 {
        assert(with_values(pinned, key, values) =~= pinned.push((key, values)));
    } else if i == 0 {
    } else {
        let rest = pinned.subrange(1, pinned.len() as int);
        assert forall|k: int| 0 <= k < i - 1 implies (#[trigger] rest[k]).0 != key by {
            assert(rest[k] == pinned[k + 1]);
        }
        lemma_with_values(rest, key, values, i - 1);
        let w = with_values(pinned, key, values);
        if i < pinned.len() {
            assert(w =~= pinned.update(i, (key, values)));
        } else {
            assert(w =~= pinned.push((key, values)));
        }
    }
}

/// Reads the values that a text holds.
fn read_values(text: &str) -> (r: Vec<String>)
    ensures
        views(r@) == split_values(text@),
{
    proof {
        reveal_strlit(";;;");
    }
    split_at_str(text, ";;;")
}

/// Sets the values of a key.
pub fn set_values(pinned: &mut Vec<(String, Vec<String>)>, key: String, values: Vec<String>)
    ensures
        pinned_views(final(pinned)@) == with_values(
            pinned_views(old(pinned)@),
            key@,
            views(values@),
        ),
{
    let mut i: usize = 0;
    while i < pinned.len()
        invariant
            i <= pinned.len(),
            *pinned == *old(pinned),
            forall|k: int| 0 <= k < i ==> (#[trigger] pinned_views(pinned@)[k]).0 != key@,
        decreases pinned.len() - i,
    {
        if pinned[i].0 == key {
            proof {
                lemma_with_values(pinned_views(pinned@), key@, views(values@), i as int);
            }
            let ghost before = pinned@;
            pinned[i] = (key, values);
            proof {
                assert(pinned_views(pinned@) =~= pinned_views(before).update(
                    i as int,
                    (key@, views(values@)),
                ));
            }
            return ;
        }
        i += 1;
    }
    proof {
        lemma_with_values(pinned_views(pinned@), key@, views(values@), i as int);
    }
    let ghost before = pinned@;
    pinned.push((key, values));
    proof {
        assert(pinned_views(pinned@) =~= pinned_views(before).push((key@, views(values@))));
    }
}

/// Reads the pinned metadata of a file.
fn read_pinned(conf: &ini::Ini) -> (r: Vec<(String, Vec<String>)>)
    ensures
        ({
            let pairs = section_pairs(ini_sections(*conf), "PinnedMetadata"@);
            pinned_views(r@) == pinned_of(pairs, pairs.len())
        }),
{
    let list = ini_pairs(conf, "PinnedMetadata");
    let ghost pairs = pair_views(list@);
    let mut out: Vec<(String, Vec<String>)> = Vec::new();
    proof {
        assert(pinned_views(out@) =~= pinned_of(pairs, 0));
    }
    let mut i: usize = 0;
    while i < list.len()
        invariant
            i <= list.len(),
            pairs == pair_views(list@),
            pinned_views(out@) == pinned_of(pairs, i as nat),
        decreases list.len() - i,
    {
        proof {
            assert(pairs[i as int] == (list@[i as int].0@, list@[i as int].1@));
        }
        set_values(&mut out, list[i].0.clone(), read_values(list[i].1.as_str()));
        i += 1;
    }
    out
}

// ---------------------------------------------------------------------------
// The settings
// ---------------------------------------------------------------------------

/// What is logged.
#[derive(Debug, Clone, Copy, PartialEq, Eq, Structural)]
pub struct LogSettings {
    pub enable_file_log: bool,
    pub file_log_level: LevelFilter,
    pub console_log_level: LevelFilter,
}

/// The log settings by default.
pub open spec fn default_log() -> LogSettings {
    LogSettings {
        enable_file_log: false,
        file_log_level: LevelFilter::Info,
        console_log_level: LevelFilter::Info,
    }
}

impl Default for LogSettings {
    fn default() -> (r: LogSettings)
        ensures
            r == default_log(),
    {
        LogSettings {
            enable_file_log: false,
            file_log_level: LevelFilter::Info,
            console_log_level: LevelFilter::Info,
        }
    }
}

/// The application's own WebSocket server.
#[derive(Debug, Clone, Copy, PartialEq, Eq, Structural)]
pub struct WebsocketServerSettings {
    pub enabled: bool,
    pub port: u16,
}

/// The server settings by default.
pub open spec fn default_server() -> WebsocketServerSettings {
    WebsocketServerSettings { enabled: true, port: 10086 }
}

impl Default for WebsocketServerSettings {
    fn default() -> (r: WebsocketServerSettings)
        ensures
            r == default_server(),
    {
        WebsocketServerSettings { enabled: true, port: 10086 }
    }
}

/// The settings of the application.
#[derive(Debug, Clone)]
pub struct AppSettings {
    pub log_settings: LogSettings,
    /// Metadata that stays when a new song is loaded; no key occurs twice.
    pub pinned_metadata: Vec<(String, Vec<String>)>,
    pub smtc_time_offset_ms: i64,
    pub amll_connector_enabled: bool,
    pub amll_connector_websocket_url: String,
    pub auto_search_source_order: Vec<AutoSearchSource>,
    pub always_search_all_sources: bool,
    pub last_selected_smtc_session_id: Option<String>,
    pub enable_online_lyric_stripping: bool,
    pub stripping_keywords: Vec<String>,
    pub stripping_keyword_case_sensitive: bool,
    pub enable_ttml_regex_stripping: bool,
    pub ttml_stripping_regexes: Vec<String>,
    pub ttml_regex_stripping_case_sensitive: bool,
    pub websocket_server_settings: WebsocketServerSettings,
    pub last_known_amll_index_head: Option<String>,
    pub checked_amll_update_since_last_success: bool,
    pub auto_check_amll_index_update_on_startup: bool,
    pub last_source_format: LyricFormat,
    pub last_target_format: LyricFormat,
    pub send_audio_data_to_player: bool,
    pub batch_output_directory: Option<String>,
    pub batch_default_target_format: Option<LyricFormat>,
    pub batch_auto_pair_enabled: bool,
    pub batch_translation_suffixes: Vec<String>,
    pub batch_romanization_suffixes: Vec<String>,
}

/// `AppSettings` over mathematical values.
pub struct SettingsView {
    pub log: LogSettings,
    pub pinned: Seq<(Seq<char>, Seq<Seq<char>>)>,
    pub offset: i64,
    pub connector_enabled: bool,
    pub connector_url: Seq<char>,
    pub order: Seq<AutoSearchSource>,
    pub search_all: bool,
    pub session: Option<Seq<char>>,
    pub strip_keywords: bool,
    pub keywords: Seq<Seq<char>>,
    pub keywords_case: bool,
    pub strip_regexes: bool,
    pub regexes: Seq<Seq<char>>,
    pub regexes_case: bool,
    pub server: WebsocketServerSettings,
    pub index_head: Option<Seq<char>>,
    pub checked_update: bool,
    pub check_on_startup: bool,
    pub source_format: LyricFormat,
    pub target_format: LyricFormat,
    pub send_audio: bool,
    pub batch_directory: Option<Seq<char>>,
    pub batch_format: Option<LyricFormat>,
    pub batch_pair: bool,
    pub translation_suffixes: Seq<Seq<char>>,
    pub romanization_suffixes: Seq<Seq<char>>,
}

impl View for AppSettings {
    type V = SettingsView;

    open spec fn view(&self) -> SettingsView {
        SettingsView {
            log: self.log_settings,
            pinned: pinned_views(self.pinned_metadata@),
            offset: self.smtc_time_offset_ms,
            connector_enabled: self.amll_connector_enabled,
            connector_url: self.amll_connector_websocket_url@,
            order: self.auto_search_source_order@,
            search_all: self.always_search_all_sources,
            session: opt_view(self.last_selected_smtc_session_id),
            strip_keywords: self.enable_online_lyric_stripping,
            keywords: views(self.stripping_keywords@),
            keywords_case: self.stripping_keyword_case_sensitive,
            strip_regexes: self.enable_ttml_regex_stripping,
            regexes: views(self.ttml_stripping_regexes@),
            regexes_case: self.ttml_regex_stripping_case_sensitive,
            server: self.websocket_server_settings,
            index_head: opt_view(self.last_known_amll_index_head),
            checked_update: self.checked_amll_update_since_last_success,
            check_on_startup: self.auto_check_amll_index_update_on_startup,
            source_format: self.last_source_format,
            target_format: self.last_target_format,
            send_audio: self.send_audio_data_to_player,
            batch_directory: opt_view(self.batch_output_directory),
            batch_format: self.batch_default_target_format,
            batch_pair: self.batch_auto_pair_enabled,
            translation_suffixes: views(self.batch_translation_suffixes@),
            romanization_suffixes: views(self.batch_romanization_suffixes@),
        }
    }
}

/// The settings by default.
pub open spec fn default_settings() -> SettingsView {
    SettingsView {
        log: default_log(),
        pinned: Seq::empty(),
        offset: 0,
        connector_enabled: false,
        connector_url: "ws://localhost:11444"@,
        order: default_sources(),
        search_all: false,
        session: None,
        strip_keywords: true,
        keywords: default_list(DEFAULT_STRIPPING_KEYWORDS@),
        keywords_case: false,
        strip_regexes: true,
        regexes: default_list(DEFAULT_TTML_STRIPPING_REGEXES@),
        regexes_case: false,
        server: default_server(),
        index_head: None,
        checked_update: false,
        check_on_startup: true,
        source_format: LyricFormat::Ass,
        target_format: LyricFormat::Ttml,
        send_audio: true,
        batch_directory: None,
        batch_format: None,
        batch_pair: true,
        translation_suffixes: default_list(DEFAULT_TRANSLATION_SUFFIXES@),
        romanization_suffixes: default_list(DEFAULT_ROMANIZATION_SUFFIXES@),
    }
}

impl Default for AppSettings {
    fn default() -> (r: AppSettings)
        ensures
            r@ == default_settings(),
    {
        let r = AppSettings {
            log_settings: LogSettings::default(),
            pinned_metadata: Vec::new(),
            smtc_time_offset_ms: 0,
            amll_connector_enabled: false,
            amll_connector_websocket_url: "ws://localhost:11444".to_owned(),
            auto_search_source_order: AutoSearchSource::default_order(),
            always_search_all_sources: false,
            last_selected_smtc_session_id: None,
            enable_online_lyric_stripping: true,
            stripping_keywords: make_default_list(DEFAULT_STRIPPING_KEYWORDS),
            stripping_keyword_case_sensitive: false,
            enable_ttml_regex_stripping: true,
            ttml_stripping_regexes: make_default_list(DEFAULT_TTML_STRIPPING_REGEXES),
            ttml_regex_stripping_case_sensitive: false,
            websocket_server_settings: WebsocketServerSettings::default(),
            last_known_amll_index_head: None,
            checked_amll_update_since_last_success: false,
            auto_check_amll_index_update_on_startup: true,
            last_source_format: LyricFormat::Ass,
            last_target_format: LyricFormat::Ttml,
            send_audio_data_to_player: true,
            batch_output_directory: None,
            batch_default_target_format: None,
            batch_auto_pair_enabled: true,
            batch_translation_suffixes: make_default_list(DEFAULT_TRANSLATION_SUFFIXES),
            batch_romanization_suffixes: make_default_list(DEFAULT_ROMANIZATION_SUFFIXES),
        };
        proof {
            assert(pinned_views(r.pinned_metadata@) =~= default_settings().pinned);
        }
        r
    }
}

// ---------------------------------------------------------------------------
// Reading
// ---------------------------------------------------------------------------

/// The truth value of a key, or the default where there is none that can be
/// read.
pub open spec fn bool_or(v: Option<Seq<char>>, default: bool) -> bool {
    match v {
        Some(s) => match bool_of(s) {
            Some(b) => b,
            None => default,
        },
        None => default,
    }
}

/// The level of a key, or the default.
pub open spec fn level_or(v: Option<Seq<char>>, default: LevelFilter) -> LevelFilter {
    match v {
        Some(s) => match level_of(s) {
            Some(l) => l,
            None => default,
        },
        None => default,
    }
}

/// The format of a key.
pub open spec fn format_in(v: Option<Seq<char>>) -> Option<LyricFormat> {
    match v {
        Some(s) => format_of(s),
        None => None,
    }
}

/// The format of a key, or the default.
pub open spec fn format_or(v: Option<Seq<char>>, default: LyricFormat) -> LyricFormat {
    match format_in(v) {
        Some(f) => f,
        None => default,
    }
}

/// The text of a key, unless it is empty.
pub open spec fn text_in(v: Option<Seq<char>>) -> Option<Seq<char>> {
    match v {
        Some(s) => if s.len() > 0 {
            Some(s)
        } else {
            None
        },
        None => None,
    }
}

/// The number of a key, or zero.
pub open spec fn int_in(v: Option<Seq<char>>) -> i64 {
    match v {
        Some(s) => match int_of(s) {
            Some(n) => n as i64,
            None => 0,
        },
        None => 0,
    }
}

/// The port of a key, or the default.
pub open spec fn port_in(v: Option<Seq<char>>) -> u16 {
    match v {
        Some(s) => match nat_of(s, 65535) {
            Some(n) => n as u16,
            None => default_server().port,
        },
        None => default_server().port,
    }
}

/// The order of a key, or the default where there is none or it is blank.
pub open spec fn order_in(v: Option<Seq<char>>) -> Seq<AutoSearchSource> {
    match v {
        Some(s) => if is_blank(s) {
            default_sources()
        } else {
            order_of(trim(s))
        },
        None => default_sources(),
    }
}

/// The list of a key, or the default.
pub open spec fn list_or(v: Option<Seq<char>>, default: Seq<Seq<char>>) -> Seq<Seq<char>> {
    match v {
        Some(s) => list_of(s),
        None => default,
    }
}

/// The default list with the entries of a key's list added that it does not have
/// yet.
pub open spec fn added_to(v: Option<Seq<char>>, default: Seq<Seq<char>>) -> Seq<Seq<char>> {
    match v {
        Some(s) => merged(default, list_of(s), list_of(s).len()),
        None => default,
    }
}

/// The settings that a file says. What it does not say, or says in a way that
/// cannot be read, is as by default.
pub open spec fn settings_in(m: Map<Seq<char>, Seq<(Seq<char>, Seq<char>)>>) -> SettingsView {
    let d = default_settings();
    let pairs = section_pairs(m, "PinnedMetadata"@);
    SettingsView {
        log: LogSettings {
            enable_file_log: bool_or(lookup(m, "Logging"@, "EnableFileLog"@), false),
            file_log_level: level_or(lookup(m, "Logging"@, "FileLogLevel"@), LevelFilter::Info),
            console_log_level: level_or(
                lookup(m, "Logging"@, "ConsoleLogLevel"@),
                LevelFilter::Info,
            ),
        },
        pinned: pinned_of(pairs, pairs.len()),
        offset: int_in(lookup(m, "AmllConnector"@, "SmtcTimeOffsetMs"@)),
        connector_enabled: bool_or(lookup(m, "AmllConnector"@, "Enabled"@), false),
        connector_url: match lookup(m, "AmllConnector"@, "WebSocketURL"@) {
            Some(s) => s,
            None => d.connector_url,
        },
        order: order_in(lookup(m, "GeneralSettings"@, "AutoSearchSourceOrder"@)),
        search_all: bool_or(lookup(m, "GeneralSettings"@, "AlwaysSearchAllSources"@), false),
        session: text_in(lookup(m, "UiState"@, "LastSelectedSmtcSessionId"@)),
        strip_keywords: bool_or(
            lookup(m, "LyricStripping"@, "EnableOnlineLyricStripping"@),
            true,
        ),
        keywords: added_to(lookup(m, "LyricStripping"@, "StrippingKeywords"@), d.keywords),
        keywords_case: bool_or(
            lookup(m, "LyricStripping"@, "StrippingKeywordCaseSensitive"@),
            false,
        ),
        strip_regexes: bool_or(lookup(m, "LyricStripping"@, "EnableTtmlRegexStripping"@), true),
        regexes: added_to(lookup(m, "LyricStripping"@, "TtmlStrippingRegexes"@), d.regexes),
        regexes_case: bool_or(
            lookup(m, "LyricStripping"@, "TtmlRegexStrippingCaseSensitive"@),
            false,
        ),
        server: WebsocketServerSettings {
            enabled: bool_or(lookup(m, "WebsocketServer"@, "Enabled"@), true),
            port: port_in(lookup(m, "WebsocketServer"@, "Port"@)),
        },
        index_head: text_in(lookup(m, "GeneralSettings"@, "LastKnownAmllIndexHead"@)),
        checked_update: bool_or(
            lookup(m, "GeneralSettings"@, "CheckedAmllUpdateSinceSuccess"@),
            false,
        ),
        check_on_startup: bool_or(
            lookup(m, "GeneralSettings"@, "AutoCheckAmllUpdateOnStartup"@),
            true,
        ),
        source_format: format_or(
            lookup(m, "GeneralSettings"@, "LastSourceFormat"@),
            LyricFormat::Ass,
        ),
        target_format: format_or(
            lookup(m, "GeneralSettings"@, "LastTargetFormat"@),
            LyricFormat::Ttml,
        ),
        send_audio: bool_or(lookup(m, "AmllConnector"@, "SendAudioDataToPlayer"@), true),
        batch_directory: text_in(lookup(m, "BatchConversion"@, "OutputDirectory"@)),
        batch_format: format_in(lookup(m, "BatchConversion"@, "DefaultTargetFormat"@)),
        batch_pair: bool_or(lookup(m, "BatchConversion"@, "AutoPairEnabled"@), true),
        translation_suffixes: list_or(
            lookup(m, "BatchConversion"@, "TranslationSuffixes"@),
            d.translation_suffixes,
        ),
        romanization_suffixes: list_or(
            lookup(m, "BatchConversion"@, "RomanizationSuffixes"@),
            d.romanization_suffixes,
        ),
    }
}

/// Reads a truth value of a file.
fn read_bool(conf: &ini::Ini, section: &str, key: &str, default: bool) -> (r: bool)
    ensures
        r == bool_or(lookup(ini_sections(*conf), section@, key@), default),
{
    match ini_get(conf, section, key) {
        Some(s) => match parse_bool(s.as_str()) {
            Some(b) => b,
            None => default,
        },
        None => default,
    }
}

/// Reads a level of a file.
fn read_level(conf: &ini::Ini, section: &str, key: &str, default: LevelFilter) -> (r: LevelFilter)
    ensures
        r == level_or(lookup(ini_sections(*conf), section@, key@), default),
{
    match ini_get(conf, section, key) {
        Some(s) => match parse_level(s.as_str()) {
            Some(l) => l,
            None => default,
        },
        None => default,
    }
}

/// Reads a format of a file.
fn read_format(conf: &ini::Ini, section: &str, key: &str) -> (r: Option<LyricFormat>)
    ensures
        r == format_in(lookup(ini_sections(*conf), section@, key@)),
{
    match ini_get(conf, section, key) {
        Some(s) => LyricFormat::from_name(s.as_str()),
        None => None,
    }
}

/// Reads a text of a file.
fn read_text(conf: &ini::Ini, section: &str, key: &str) -> (r: Option<String>)
    ensures
        opt_view(r) == text_in(lookup(ini_sections(*conf), section@, key@)),
{
    match ini_get(conf, section, key) {
        Some(s) => if s.as_str().is_empty() {
            None
        } else {
            Some(s)
        },
        None => None,
    }
}

/// Reads a list of a file.
fn read_list_or(conf: &ini::Ini, section: &str, key: &str, default: Vec<String>) -> (r: Vec<String>)
    ensures
        views(r@) == list_or(lookup(ini_sections(*conf), section@, key@), views(default@)),
{
    match ini_get(conf, section, key) {
        Some(s) => read_list(s.as_str()),
        None => default,
    }
}

/// Reads the entries that a file adds to a default list.
fn read_added(conf: &ini::Ini, section: &str, key: &str, default: Vec<String>) -> (r: Vec<String>)
    ensures
        views(r@) == added_to(lookup(ini_sections(*conf), section@, key@), views(default@)),
{
    let mut list = default;
    match ini_get(conf, section, key) {
        Some(s) => {
            let more = read_list(s.as_str());
            proof {
                assert(views(more@).len() == more@.len());
            }
            merge(&mut list, &more);
        },
        None => {},
    }
    list
}

/// What became of the file with the settings.
pub enum ConfigFile {
    /// It is not known where it should stand.
    NoPlace,
    /// There is none.
    Missing,
    /// It could not be read.
    Unreadable,
    /// It has been read, and holds this text.
    Read(String),
}

/// A text without the mark at its front that says how it is encoded.
pub open spec fn without_bom(s: Seq<char>) -> Seq<char> {
    if s.len() > 0 && s[0] == '\u{feff}' {
        s.subrange(1, s.len() as int)
    } else {
        s
    }
}

/// Parses the text of a file with settings.
fn parse_settings(text: &str) -> (r: Option<ini::Ini>)
    ensures
        opt_sections(r) == ini_text(without_bom(text@)),
{
    let v = to_chars(text);
    if v.len() > 0 && v[0] == '\u{feff}' {
        let rest = string_of(vstd::slice::slice_subrange(v.as_slice(), 1, v.len()));
        ini_parse(rest.as_str())
    } else {
        ini_parse(text)
    }
}

impl AppSettings {
    /// The settings that a file says.
    pub fn from_ini(conf: &ini::Ini) -> (r: AppSettings)
        ensures
            r@ == settings_in(ini_sections(*conf)),
    {
        let d = AppSettings::default();
        let log_settings = LogSettings {
            enable_file_log: read_bool(conf, "Logging", "EnableFileLog", false),
            file_log_level: read_level(conf, "Logging", "FileLogLevel", LevelFilter::Info),
            console_log_level: read_level(conf, "Logging", "ConsoleLogLevel", LevelFilter::Info),
        };
        let smtc_time_offset_ms: i64 = match ini_get(conf, "AmllConnector", "SmtcTimeOffsetMs") {
            Some(s) => match parse_int(s.as_str()) {
                Some(n) => n,
                None => 0,
            },
            None => 0,
        };
        let amll_connector_websocket_url = match ini_get(conf, "AmllConnector", "WebSocketURL") {
            Some(s) => s,
            None => d.amll_connector_websocket_url,
        };
        let auto_search_source_order = match ini_get(
            conf,
            "GeneralSettings",
            "AutoSearchSourceOrder",
        ) {
            Some(s) => if str_is_blank(s.as_str()) {
                AutoSearchSource::default_order()
            } else {
                string_to_search_order(trim_str(s.as_str()).as_str())
            },
            None => AutoSearchSource::default_order(),
        };
        let port: u16 = match ini_get(conf, "WebsocketServer", "Port") {
            Some(s) => match parse_nat(s.as_str(), 65535) {
                Some(n) => n as u16,
                None => 10086,
            },
            None => 10086,
        };
        let last_source_format = match read_format(conf, "GeneralSettings", "LastSourceFormat") {
            Some(f) => f,
            None => LyricFormat::Ass,
        };
        let last_target_format = match read_format(conf, "GeneralSettings", "LastTargetFormat") {
            Some(f) => f,
            None => LyricFormat::Ttml,
        };
        AppSettings {
            log_settings,
            pinned_metadata: read_pinned(conf),
            smtc_time_offset_ms,
            amll_connector_enabled: read_bool(conf, "AmllConnector", "Enabled", false),
            amll_connector_websocket_url,
            auto_search_source_order,
            always_search_all_sources: read_bool(
                conf,
                "GeneralSettings",
                "AlwaysSearchAllSources",
                false,
            ),
            last_selected_smtc_session_id: read_text(conf, "UiState", "LastSelectedSmtcSessionId"),
            enable_online_lyric_stripping: read_bool(
                conf,
                "LyricStripping",
                "EnableOnlineLyricStripping",
                true,
            ),
            stripping_keywords: read_added(
                conf,
                "LyricStripping",
                "StrippingKeywords",
                d.stripping_keywords,
            ),
            stripping_keyword_case_sensitive: read_bool(
                conf,
                "LyricStripping",
                "StrippingKeywordCaseSensitive",
                false,
            ),
            enable_ttml_regex_stripping: read_bool(
                conf,
                "LyricStripping",
                "EnableTtmlRegexStripping",
                true,
            ),
            ttml_stripping_regexes: read_added(
                conf,
                "LyricStripping",
                "TtmlStrippingRegexes",
                d.ttml_stripping_regexes,
            ),
            ttml_regex_stripping_case_sensitive: read_bool(
                conf,
                "LyricStripping",
                "TtmlRegexStrippingCaseSensitive",
                false,
            ),
            websocket_server_settings: WebsocketServerSettings {
                enabled: read_bool(conf, "WebsocketServer", "Enabled", true),
                port,
            },
            last_known_amll_index_head: read_text(
                conf,
                "GeneralSettings",
                "LastKnownAmllIndexHead",
            ),
            checked_amll_update_since_last_success: read_bool(
                conf,
                "GeneralSettings",
                "CheckedAmllUpdateSinceSuccess",
                false,
            ),
            auto_check_amll_index_update_on_startup: read_bool(
                conf,
                "GeneralSettings",
                "AutoCheckAmllUpdateOnStartup",
                true,
            ),
            last_source_format,
            last_target_format,
            send_audio_data_to_player: read_bool(
                conf,
                "AmllConnector",
                "SendAudioDataToPlayer",
                true,
            ),
            batch_output_directory: read_text(conf, "BatchConversion", "OutputDirectory"),
            batch_default_target_format: read_format(
                conf,
                "BatchConversion",
                "DefaultTargetFormat",
            ),
            batch_auto_pair_enabled: read_bool(conf, "BatchConversion", "AutoPairEnabled", true),
            batch_translation_suffixes: read_list_or(
                conf,
                "BatchConversion",
                "TranslationSuffixes",
                d.batch_translation_suffixes,
            ),
            batch_romanization_suffixes: read_list_or(
                conf,
                "BatchConversion",
                "RomanizationSuffixes",
                d.batch_romanization_suffixes,
            ),
        }
    }

    /// The settings of a file that has been parsed, and whether they are to be saved:
    /// those by default, which are saved, where it could not be.
    pub fn from_parsed(conf: Option<ini::Ini>) -> (r: (AppSettings, bool))
        ensures
            match opt_sections(conf) {
                Some(sections) => r.0@ == settings_in(sections) && !r.1,
                None => r.0@ == default_settings() && r.1,
            },
    {
        match conf {
            Some(c) => (AppSettings::from_ini(&c), false),
            None => (AppSettings::default(), true),
        }
    }

    /// The settings to start with, and whether they are to be saved: those of
    /// the file where it could be read and parsed, and else those by default, which are
    /// saved wherever there is a place for them.
    pub fn load(file: &ConfigFile) -> (r: (AppSettings, bool))
        ensures
            match file {
                ConfigFile::NoPlace => r.0@ == default_settings() && !r.1,
                ConfigFile::Missing => r.0@ == default_settings() && r.1,
                ConfigFile::Unreadable => r.0@ == default_settings() && r.1,
                ConfigFile::Read(text) => match ini_text(without_bom(text@)) {
                    Some(sections) => r.0@ == settings_in(sections) && !r.1,
                    None => r.0@ == default_settings() && r.1,
                },
            },
    {
        match file {
            ConfigFile::NoPlace => (AppSettings::default(), false),
            ConfigFile::Missing => (AppSettings::default(), true),
            ConfigFile::Unreadable => (AppSettings::default(), true),
            ConfigFile::Read(text) => AppSettings::from_parsed(parse_settings(text.as_str())),
        }
    }
}

// ---------------------------------------------------------------------------
// Writing
// ---------------------------------------------------------------------------

/// The sections with the first `n` entries of the pinned metadata written.
/// Entries without values are left out.
pub open spec fn with_pinned(
    m: Map<Seq<char>, Seq<(Seq<char>, Seq<char>)>>,
    pinned: Seq<(Seq<char>, Seq<Seq<char>>)>,
    n: nat,
) -> Map<Seq<char>, Seq<(Seq<char>, Seq<char>)>>
    decreases n,
{
    if n == 0 {
        m
    } else {
        let before = with_pinned(m, pinned, (n - 1) as nat);
        let (key, values) = pinned[n - 1];
        if values.len() == 0 {
            before
        } else {
            with_value(before, "PinnedMetadata"@, key, join(values, ";;;"@))
        }
    }
}

/// The sections with the log settings written.
pub open spec fn with_log(m: Map<Seq<char>, Seq<(Seq<char>, Seq<char>)>>, l: LogSettings) -> Map<
    Seq<char>,
    Seq<(Seq<char>, Seq<char>)>,
> {
    let m1 = with_value(m, "Logging"@, "EnableFileLog"@, bool_text(l.enable_file_log));
    let m2 = with_value(m1, "Logging"@, "FileLogLevel"@, level_name(l.file_log_level));
    with_value(m2, "Logging"@, "ConsoleLogLevel"@, level_name(l.console_log_level))
}

/// The sections with the connector's settings written.
pub open spec fn with_connector(
    m: Map<Seq<char>, Seq<(Seq<char>, Seq<char>)>>,
    s: SettingsView,
) -> Map<Seq<char>, Seq<(Seq<char>, Seq<char>)>> {
    let m1 = with_value(m, "AmllConnector"@, "Enabled"@, bool_text(s.connector_enabled));
    let m2 = with_value(m1, "AmllConnector"@, "WebSocketURL"@, s.connector_url);
    let m3 = with_value(
        m2,
        "AmllConnector"@,
        "SendAudioDataToPlayer"@,
        bool_text(s.send_audio),
    );
    with_value(m3, "AmllConnector"@, "SmtcTimeOffsetMs"@, int_text(s.offset as int))
}

/// The sections with the general settings written.
pub open spec fn with_general(
    m: Map<Seq<char>, Seq<(Seq<char>, Seq<char>)>>,
    s: SettingsView,
) -> Map<Seq<char>, Seq<(Seq<char>, Seq<char>)>> {
    let m1 = with_value(
        m,
        "GeneralSettings"@,
        "AutoSearchSourceOrder"@,
        order_text(s.order),
    );
    let m2 = with_value(
        m1,
        "GeneralSettings"@,
        "AlwaysSearchAllSources"@,
        bool_text(s.search_all),
    );
    let m3 = with_value(
        m2,
        "GeneralSettings"@,
        "LastSourceFormat"@,
        format_name(s.source_format),
    );
    let m4 = with_value(
        m3,
        "GeneralSettings"@,
        "LastTargetFormat"@,
        format_name(s.target_format),
    );
    with_value(
        m4,
        "UiState"@,
        "LastSelectedSmtcSessionId"@,
        match s.session {
            Some(id) => id,
            None => ""@,
        },
    )
}

/// The sections with the settings for leaving out lines written.
pub open spec fn with_stripping(
    m: Map<Seq<char>, Seq<(Seq<char>, Seq<char>)>>,
    s: SettingsView,
) -> Map<Seq<char>, Seq<(Seq<char>, Seq<char>)>> {
    let m1 = with_value(
        m,
        "LyricStripping"@,
        "EnableOnlineLyricStripping"@,
        bool_text(s.strip_keywords),
    );
    let m2 = with_value(
        m1,
        "LyricStripping"@,
        "StrippingKeywords"@,
        join(s.keywords, ";"@),
    );
    let m3 = with_value(
        m2,
        "LyricStripping"@,
        "StrippingKeywordCaseSensitive"@,
        bool_text(s.keywords_case),
    );
    let m4 = with_value(
        m3,
        "LyricStripping"@,
        "EnableTtmlRegexStripping"@,
        bool_text(s.strip_regexes),
    );
    let m5 = with_value(
        m4,
        "LyricStripping"@,
        "TtmlStrippingRegexes"@,
        join(s.regexes, ";"@),
    );
    with_value(
        m5,
        "LyricStripping"@,
        "TtmlRegexStrippingCaseSensitive"@,
        bool_text(s.regexes_case),
    )
}

/// The sections with the server's settings written.
pub open spec fn with_server(
    m: Map<Seq<char>, Seq<(Seq<char>, Seq<char>)>>,
    w: WebsocketServerSettings,
) -> Map<Seq<char>, Seq<(Seq<char>, Seq<char>)>> {
    let m1 = with_value(m, "WebsocketServer"@, "Enabled"@, bool_text(w.enabled));
    with_value(m1, "WebsocketServer"@, "Port"@, dec(w.port as nat))
}

/// The sections with the settings for batches written.
pub open spec fn with_batch(
    m: Map<Seq<char>, Seq<(Seq<char>, Seq<char>)>>,
    s: SettingsView,
) -> Map<Seq<char>, Seq<(Seq<char>, Seq<char>)>> {
    let m1 = match s.batch_directory {
        Some(dir) => with_value(m, "BatchConversion"@, "OutputDirectory"@, dir),
        None => m,
    };
    let m2 = match s.batch_format {
        Some(f) => with_value(m1, "BatchConversion"@, "DefaultTargetFormat"@, format_name(f)),
        None => m1,
    };
    let m3 = with_value(m2, "BatchConversion"@, "AutoPairEnabled"@, bool_text(s.batch_pair));
    let m4 = with_value(
        m3,
        "BatchConversion"@,
        "TranslationSuffixes"@,
        join(s.translation_suffixes, ";"@),
    );
    with_value(
        m4,
        "BatchConversion"@,
        "RomanizationSuffixes"@,
        join(s.romanization_suffixes, ";"@),
    )
}

/// The sections of the file that settings are saved in.
pub open spec fn saved(s: SettingsView) -> Map<Seq<char>, Seq<(Seq<char>, Seq<char>)>> {
    let m1 = with_log(no_sections(), s.log);
    let m2 = with_pinned(m1, s.pinned, s.pinned.len());
    let m3 = with_connector(m2, s);
    let m4 = with_general(m3, s);
    let m5 = with_stripping(m4, s);
    let m6 = with_server(m5, s.server);
    with_batch(m6, s)
}

impl AppSettings {
    /// Writes the pinned metadata.
    fn write_pinned(&self, conf: &mut ini::Ini)
        ensures
            ini_sections(*final(conf)) == with_pinned(
                ini_sections(*old(conf)),
                self@.pinned,
                self@.pinned.len(),
            ),
    {
        let ghost start = ini_sections(*conf);
        let mut i: usize = 0;
        while i < self.pinned_metadata.len()
            invariant
                i <= self.pinned_metadata.len(),
                ini_sections(*conf) == with_pinned(start, self@.pinned, i as nat),
            decreases self.pinned_metadata.len() - i,
        {
            let entry = &self.pinned_metadata[i];
            proof {
                assert(self@.pinned[i as int] == (entry.0@, views(entry.1@)));
            }
            if entry.1.len() > 0 {
                let value = join_strings(entry.1.as_slice(), ";;;");
                ini_set(conf, "PinnedMetadata", entry.0.as_str(), value.as_str());
            }
            i += 1;
        }
    }

    /// Writes the log settings.
    fn write_log(&self, conf: &mut ini::Ini)
        ensures
            ini_sections(*final(conf)) == with_log(ini_sections(*old(conf)), self.log_settings),
    {
        let l = &self.log_settings;
        ini_set(conf, "Logging", "EnableFileLog", text_of_bool(l.enable_file_log));
        ini_set(conf, "Logging", "FileLogLevel", level_text(l.file_log_level));
        ini_set(conf, "Logging", "ConsoleLogLevel", level_text(l.console_log_level));
    }

    /// Writes the connector's settings.
    fn write_connector(&self, conf: &mut ini::Ini)
        ensures
            ini_sections(*final(conf)) == with_connector(ini_sections(*old(conf)), self@),
    {
        ini_set(conf, "AmllConnector", "Enabled", text_of_bool(self.amll_connector_enabled));
        ini_set(
            conf,
            "AmllConnector",
            "WebSocketURL",
            self.amll_connector_websocket_url.as_str(),
        );
        ini_set(
            conf,
            "AmllConnector",
            "SendAudioDataToPlayer",
            text_of_bool(self.send_audio_data_to_player),
        );
        let offset = text_of_int(self.smtc_time_offset_ms);
        ini_set(conf, "AmllConnector", "SmtcTimeOffsetMs", offset.as_str());
    }

    /// Writes the general settings.
    fn write_general(&self, conf: &mut ini::Ini)
        ensures
            ini_sections(*final(conf)) == with_general(ini_sections(*old(conf)), self@),
    {
        let order = search_order_to_string(&self.auto_search_source_order);
        ini_set(conf, "GeneralSettings", "AutoSearchSourceOrder", order.as_str());
        ini_set(
            conf,
            "GeneralSettings",
            "AlwaysSearchAllSources",
            text_of_bool(self.always_search_all_sources),
        );
        ini_set(conf, "GeneralSettings", "LastSourceFormat", self.last_source_format.name());
        ini_set(conf, "GeneralSettings", "LastTargetFormat", self.last_target_format.name());
        match &self.last_selected_smtc_session_id {
            Some(id) => {
                ini_set(conf, "UiState", "LastSelectedSmtcSessionId", id.as_str());
            },
            None => {
                ini_set(conf, "UiState", "LastSelectedSmtcSessionId", "");
            },
        }
    }

    /// Writes the settings for leaving out lines.
    fn write_stripping(&self, conf: &mut ini::Ini)
        ensures
            ini_sections(*final(conf)) == with_stripping(ini_sections(*old(conf)), self@),
    {
        ini_set(
            conf,
            "LyricStripping",
            "EnableOnlineLyricStripping",
            text_of_bool(self.enable_online_lyric_stripping),
        );
        let keywords = join_strings(self.stripping_keywords.as_slice(), ";");
        ini_set(conf, "LyricStripping", "StrippingKeywords", keywords.as_str());
        ini_set(
            conf,
            "LyricStripping",
            "StrippingKeywordCaseSensitive",
            text_of_bool(self.stripping_keyword_case_sensitive),
        );
        ini_set(
            conf,
            "LyricStripping",
            "EnableTtmlRegexStripping",
            text_of_bool(self.enable_ttml_regex_stripping),
        );
        let regexes = join_strings(self.ttml_stripping_regexes.as_slice(), ";");
        ini_set(conf, "LyricStripping", "TtmlStrippingRegexes", regexes.as_str());
        ini_set(
            conf,
            "LyricStripping",
            "TtmlRegexStrippingCaseSensitive",
            text_of_bool(self.ttml_regex_stripping_case_sensitive),
        );
    }

    /// Writes the server's settings.
    fn write_server(&self, conf: &mut ini::Ini)
        ensures
            ini_sections(*final(conf)) == with_server(
                ini_sections(*old(conf)),
                self.websocket_server_settings,
            ),
    {
        let w = &self.websocket_server_settings;
        ini_set(conf, "WebsocketServer", "Enabled", text_of_bool(w.enabled));
        let port = text_of_nat(w.port as u64);
        ini_set(conf, "WebsocketServer", "Port", port.as_str());
    }

    /// Writes the settings for batches.
    fn write_batch(&self, conf: &mut ini::Ini)
        ensures
            ini_sections(*final(conf)) == with_batch(ini_sections(*old(conf)), self@),
    {
        match &self.batch_output_directory {
            Some(dir) => {
                ini_set(conf, "BatchConversion", "OutputDirectory", dir.as_str());
            },
            None => {},
        }
        match &self.batch_default_target_format {
            Some(f) => {
                ini_set(conf, "BatchConversion", "DefaultTargetFormat", f.name());
            },
            None => {},
        }
        ini_set(
            conf,
            "BatchConversion",
            "AutoPairEnabled",
            text_of_bool(self.batch_auto_pair_enabled),
        );
        let translations = join_strings(self.batch_translation_suffixes.as_slice(), ";");
        ini_set(conf, "BatchConversion", "TranslationSuffixes", translations.as_str());
        let romanizations = join_strings(self.batch_romanization_suffixes.as_slice(), ";");
        ini_set(conf, "BatchConversion", "RomanizationSuffixes", romanizations.as_str());
    }

    /// The file that the settings are saved in.
    pub fn save(&self) -> (r: ini::Ini)
        ensures
            ini_sections(r) == saved(self@),
    {
        let mut conf = ini_new();
        self.write_log(&mut conf);
        self.write_pinned(&mut conf);
        self.write_connector(&mut conf);
        self.write_general(&mut conf);
        self.write_stripping(&mut conf);
        self.write_server(&mut conf);
        self.write_batch(&mut conf);
        conf
    }
}

} // verus!
