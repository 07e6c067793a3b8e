use unilyric::ass_generator::{
    clean_parentheses_from_bg_text, format_ass_time, generate_ass, round_duration_to_cs,
    ASS_HEADER,
};
use unilyric::ass_parser::{
    checked_ass_time, checked_karaoke_text, checked_load_ass, load_and_process_ass_from_string,
    parse_actor, parse_ass_time, parse_event, parse_karaoke_text,
};
use unilyric::text::{int_problem, IntProblem};
use unilyric::types::{
    ActorRole, AssLineContent, BackgroundSection, ConvertError, TtmlParagraph, TtmlSyllable,
};

fn syl(text: &str, start_ms: u64, end_ms: u64, space: bool) -> TtmlSyllable {
    TtmlSyllable { text: text.to_string(), start_ms, end_ms, ends_with_space: space }
}

fn paragraph(syllables: Vec<TtmlSyllable>, agent: &str) -> TtmlParagraph {
    TtmlParagraph {
        p_start_ms: syllables[0].start_ms,
        p_end_ms: syllables[syllables.len() - 1].end_ms,
        agent: agent.to_string(),
        main_syllables: syllables,
        background_section: None,
        translation: None,
        romanization: None,
    }
}

#[test]
fn times_are_written_in_centiseconds() {
    assert_eq!(format_ass_time(0), "0:00:00.00");
    assert_eq!(format_ass_time(4), "0:00:00.00");
    assert_eq!(format_ass_time(5), "0:00:00.01");
    assert_eq!(format_ass_time(3_723_456), "1:02:03.46");
    assert_eq!(format_ass_time(59_999), "0:01:00.00");
}

#[test]
fn times_are_read() {
    assert_eq!(parse_ass_time("1:02:03.46", 1).unwrap(), 3_723_460);
    assert_eq!(parse_ass_time("0:00:00.00", 1).unwrap(), 0);
    assert!(matches!(parse_ass_time("1:2:3", 7), Err(ConvertError::InvalidAssTime(7, _))));
}

#[test]
fn times_are_read_back() {
    for ms in [0u64, 9, 12_345, 3_599_995, 360_000_000] {
        assert_eq!(parse_ass_time(&format_ass_time(ms), 1).unwrap(), (ms + 5) / 10 * 10);
    }
}

#[test]
fn other_digits_are_digits_but_not_numbers() {
    // The pattern takes any decimal digit, the number only ASCII digits.
    assert!(matches!(
        parse_ass_time("1:٠٢:03.46", 1),
        Err(ConvertError::ParseInt(IntProblem::InvalidDigit))
    ));
    assert!(matches!(parse_ass_time("1:x2:03.46", 1), Err(ConvertError::InvalidAssTime(1, _))));
}

#[test]
fn numbers_fail_for_the_reasons_that_std_gives() {
    let texts = [
        "0", "18446744073709551615", "18446744073709551616", "99999999999999999999", "1x", "x",
        "٣", "1٣", "9999999999999999999٣", "99999999999999999999٣", "184467440737095516150x",
        "18446744073709551615x",
    ];
    for text in texts {
        let chars: Vec<char> = text.chars().collect();
        let expected = match text.parse::<u64>() {
            Ok(_) => None,
            Err(e) => Some(match e.kind() {
                std::num::IntErrorKind::Empty => IntProblem::Empty,
                std::num::IntErrorKind::PosOverflow => IntProblem::PosOverflow,
                _ => IntProblem::InvalidDigit,
            }),
        };
        assert_eq!(int_problem(&chars, u64::MAX), expected, "{}", text);
    }
    assert_eq!(int_problem(&[], u64::MAX), Some(IntProblem::Empty));
    assert!(matches!(
        parse_ass_time("99999999999999999999:00:00.00", 1),
        Err(ConvertError::ParseInt(IntProblem::PosOverflow))
    ));
}

#[test]
fn times_beyond_64_bits_are_told() {
    assert!(checked_ass_time("18446744073709551615:00:00.00", 1).is_none());
    assert_eq!(checked_ass_time("0:00:01.00", 1).unwrap().unwrap(), 1000);
}

#[test]
fn durations_are_rounded() {
    assert_eq!(round_duration_to_cs(14), 1);
    assert_eq!(round_duration_to_cs(15), 2);
    assert_eq!(round_duration_to_cs(0), 0);
}

#[test]
fn background_texts_lose_their_parentheses() {
    assert_eq!(clean_parentheses_from_bg_text(" (ooh) "), "ooh");
    assert_eq!(clean_parentheses_from_bg_text("（啊）"), "啊");
    assert_eq!(clean_parentheses_from_bg_text("a(b)c"), "a(b)c");
}

#[test]
fn karaoke_is_read() {
    let (syllables, end) = parse_karaoke_text("{\\k20}你{\\k10}{\\k30}好 {\\k5}!", 1000, 1).unwrap();
    assert_eq!(syllables.len(), 3);
    assert_eq!(syllables[0].text, "你");
    assert_eq!((syllables[0].start_ms, syllables[0].end_ms), (1000, 1200));
    assert!(!syllables[0].ends_with_space);
    assert_eq!(syllables[1].text, "好");
    assert_eq!((syllables[1].start_ms, syllables[1].end_ms), (1300, 1600));
    assert!(syllables[1].ends_with_space);
    assert_eq!(syllables[2].text, "!");
    assert_eq!(end, 1650);
}

#[test]
fn karaoke_beyond_the_range_is_told() {
    let text = "{\\k99999999999}a";
    assert!(matches!(
        parse_karaoke_text(text, 0, 3),
        Err(ConvertError::InvalidAssKaraoke(3, _))
    ));
    assert!(checked_karaoke_text("{\\k9}a{\\k9}b", u64::MAX, 3).is_none());
    assert!(checked_karaoke_text("{\\k9}a", 0, 3).is_some());
}

#[test]
fn actors_are_read() {
    let a = parse_actor("v2 itunes:song-part=\"Verse\" x-mark", "orig", 1).unwrap();
    assert_eq!(a.role, Some(ActorRole::Vocal2));
    assert!(a.is_marker);
    assert_eq!(a.song_part.as_deref(), Some("Verse"));
    let bg = parse_actor("x-bg", "default", 1).unwrap();
    assert_eq!(bg.role, Some(ActorRole::Background));
    assert!(bg.is_background);
    let none = parse_actor("", "orig", 1).unwrap();
    assert_eq!(none.role, Some(ActorRole::Vocal1));
    let chorus = parse_actor("合", "orig", 1).unwrap();
    assert_eq!(chorus.role, Some(ActorRole::Chorus));
}

#[test]
fn translations_have_a_language() {
    assert_eq!(parse_actor("x-lang:en", "ts", 1).unwrap().lang_code.as_deref(), Some("en"));
    assert_eq!(parse_actor("", "ts", 1).unwrap().lang_code.as_deref(), Some("zh-CN"));
    assert_eq!(parse_actor("", "bg-ts", 1).unwrap().lang_code, None);
}

#[test]
fn conflicting_actors_are_refused() {
    match parse_actor("v1 v2", "orig", 9) {
        Err(ConvertError::ConflictingActorTags { line_num, tags }) => {
            assert_eq!(line_num, 9);
            assert_eq!(tags, vec!["v1".to_string(), "v2".to_string()]);
        }
        _ => panic!("a conflict is owed"),
    }
    assert!(parse_actor("v1 v2", "ts", 9).is_ok());
}

#[test]
fn events_are_read() {
    let line: Vec<char> =
        "Dialogue: 0,0:00:01.00,0:00:02.00,orig,v1,0,0,0,,a, b ".chars().collect();
    let e = parse_event(&line).unwrap();
    assert!(e.is_dialogue);
    assert_eq!((e.start.as_str(), e.end.as_str()), ("0:00:01.00", "0:00:02.00"));
    assert_eq!((e.style.as_str(), e.actor.as_str(), e.effect.as_str()), ("orig", "v1", ""));
    assert_eq!(e.text, "a, b");
    let short: Vec<char> = "Dialogue: 0,0:00:01.00,0:00:02.00,orig,v1,0,0".chars().collect();
    assert!(parse_event(&short).is_none());
    let other: Vec<char> = "Style: orig".chars().collect();
    assert!(parse_event(&other).is_none());
}

#[test]
fn files_start_with_the_header() {
    let out = generate_ass(vec![], "Comment: 0,0:00:00.00,0:00:00.00,meta,,0,0,0,,title: t\n").unwrap();
    assert_eq!(
        out,
        format!("{}Comment: 0,0:00:00.00,0:00:00.00,meta,,0,0,0,,title: t\n", ASS_HEADER)
    );
}

#[test]
fn paragraphs_are_written() {
    let mut p = paragraph(vec![syl("He", 1000, 1200, false), syl("llo", 1250, 1500, true)], "V2");
    p.translation = Some(("你好".to_string(), Some("zh".to_string())));
    p.romanization = Some("nihao".to_string());
    p.background_section = Some(BackgroundSection {
        start_ms: 1600,
        end_ms: 1700,
        syllables: vec![syl("(ooh)", 1600, 1700, false)],
        translation: None,
        romanization: None,
    });
    let out = generate_ass(vec![p], "").unwrap();
    let events = &out[ASS_HEADER.len()..];
    assert_eq!(
        events,
        "Dialogue: 0,0:00:01.00,0:00:01.50,orig,v2,0,0,0,,{\\k20}He{\\k5}{\\k25}llo\n\
         Dialogue: 0,0:00:01.60,0:00:01.70,orig,x-bg,0,0,0,,{\\k10}ooh\n\
         Dialogue: 0,0:00:01.00,0:00:01.50,ts,x-lang:zh,0,0,0,,你好\n\
         Dialogue: 0,0:00:01.00,0:00:01.50,roma,,0,0,0,,nihao\n"
    );
}

#[test]
fn a_written_file_is_read_back() {
    let mut p = paragraph(vec![syl("He", 1000, 1200, false), syl("llo", 1250, 1500, false)], "v1000");
    p.translation = Some(("你好".to_string(), Some("zh".to_string())));
    p.romanization = Some("nihao".to_string());
    let q = paragraph(vec![syl("a", 2000, 2010, true), syl("b, c", 2010, 2100, false)], "v2");
    let text = generate_ass(
        vec![p, q],
        "Comment: 0,0:00:00.00,0:00:00.00,meta,,0,0,0,,lang: en\n\
         Comment: 0,0:00:00.00,0:00:00.00,meta,,0,0,0,,v1: Someone\n\
         Comment: 0,0:00:00.00,0:00:00.00,meta,,0,0,0,,songwriter: W\n\
         Comment: 0,0:00:00.00,0:00:00.00,meta,,0,0,0,,appleMusicId: 12\n",
    )
    .unwrap();
    let data = load_and_process_ass_from_string(&text).unwrap();
    assert_eq!(data.language_code.as_deref(), Some("en"));
    assert_eq!(data.agent_names, vec![("v1".to_string(), "Someone".to_string())]);
    assert_eq!(data.songwriters, vec!["W".to_string()]);
    assert_eq!(data.apple_music_id, "12");
    assert_eq!(data.metadata.len(), 4);
    assert_eq!(data.detected_translation_language.as_deref(), Some("zh"));
    assert_eq!(data.lines.len(), 4);
    match &data.lines[0].content {
        Some(AssLineContent::LyricLine { role, syllables, .. }) => {
            assert_eq!(*role, ActorRole::Chorus);
            assert_eq!(syllables.len(), 2);
            assert_eq!(syllables[1].text, "llo");
            assert_eq!((syllables[1].start_ms, syllables[1].end_ms), (1250, 1500));
        }
        _ => panic!("a lyric line is owed"),
    }
    assert_eq!((data.lines[0].start_ms, data.lines[0].end_ms), (1000, 1500));
    assert!(matches!(
        &data.lines[1].content,
        Some(AssLineContent::MainTranslation { text, .. }) if text == "你好"
    ));
    assert!(matches!(
        &data.lines[2].content,
        Some(AssLineContent::MainRomanization { text }) if text == "nihao"
    ));
    match &data.lines[3].content {
        Some(AssLineContent::LyricLine { syllables, .. }) => {
            assert!(syllables[0].ends_with_space);
            assert_eq!(syllables[1].text, "b, c");
        }
        _ => panic!("a lyric line is owed"),
    }
}

#[test]
fn effects_leave_lines_out_whatever_their_case() {
    let file = |effect: &str| {
        format!("Dialogue: 0,0:00:01.00,0:00:02.00,orig,v1,0,0,0,{},{{\\k10}}a\n", effect)
    };
    assert_eq!(load_and_process_ass_from_string(&file("fx")).unwrap().lines.len(), 0);
    assert_eq!(load_and_process_ass_from_string(&file("KARAOKE")).unwrap().lines.len(), 1);
    assert_eq!(load_and_process_ass_from_string(&file("")).unwrap().lines.len(), 1);
}

#[test]
fn background_texts_join_their_line() {
    let text = "Dialogue: 0,0:00:01.00,0:00:02.00,orig,x-bg,0,0,0,,{\\k10}a\n\
                Dialogue: 0,0:00:01.00,0:00:02.00,bg-ts,x-lang:en,0,0,0,,T\n\
                Dialogue: 0,0:00:01.00,0:00:02.00,bg-roma,,0,0,0,,R\n\
                Dialogue: 0,0:00:05.00,0:00:06.00,bg-roma,,0,0,0,,lost\n";
    let data = load_and_process_ass_from_string(text).unwrap();
    assert_eq!(data.lines.len(), 1);
    match &data.lines[0].content {
        Some(AssLineContent::LyricLine { bg_translation, bg_romanization, .. }) => {
            assert_eq!(bg_translation, &Some((Some("en".to_string()), "T".to_string())));
            assert_eq!(bg_romanization.as_deref(), Some("R"));
        }
        _ => panic!("a lyric line is owed"),
    }
}

#[test]
fn markers_are_kept() {
    let text = "x\nComment: 0,0:00:01.00,0:00:02.00,orig,x-mark,0,0,0,,here\n";
    let data = load_and_process_ass_from_string(text).unwrap();
    assert_eq!(data.markers, vec![(2usize, "here".to_string())]);
    assert_eq!(data.lines.len(), 0);
}

#[test]
fn an_error_ends_the_reading() {
    let text = "Dialogue: 0,0:00:01.00,0:00:02.00,orig,v1 v2,0,0,0,,{\\k10}a\n";
    assert!(load_and_process_ass_from_string(text).is_err());
    assert!(checked_load_ass(text).unwrap().is_err());
    let far = "Dialogue: 0,18446744073709551615:00:00.00,0:00:02.00,orig,v1,0,0,0,,{\\k10}a\n";
    assert!(checked_load_ass(far).is_none());
}

#[test]
fn the_header_says_nothing() {
    let data = load_and_process_ass_from_string(ASS_HEADER).unwrap();
    assert!(data.lines.is_empty() && data.metadata.is_empty() && data.markers.is_empty());
}

#[test]
fn a_written_background_voice_is_read_back() {
    let mut p = paragraph(vec![syl("a", 1000, 1200, false), syl("b", 1200, 1500, true)], "v2");
    p.translation = Some(("t".to_string(), None));
    p.background_section = Some(BackgroundSection {
        start_ms: 1600,
        end_ms: 1700,
        syllables: vec![syl("(ooh", 1600, 1650, true), syl("aah)", 1650, 1700, false)],
        translation: Some(("T".to_string(), Some("en".to_string()))),
        romanization: Some("R".to_string()),
    });
    let data = load_and_process_ass_from_string(&generate_ass(vec![p], "").unwrap()).unwrap();
    assert_eq!(data.lines.len(), 3);
    match &data.lines[0].content {
        Some(AssLineContent::LyricLine { role, syllables, .. }) => {
            assert_eq!(*role, ActorRole::Vocal2);
            // A space behind the last syllable is lost.
            assert!(!syllables[1].ends_with_space);
        }
        _ => panic!("a lyric line is owed"),
    }
    match &data.lines[1].content {
        Some(AssLineContent::LyricLine { role, syllables, bg_translation, bg_romanization }) => {
            assert_eq!(*role, ActorRole::Background);
            assert_eq!(syllables[0].text, "ooh");
            assert!(syllables[0].ends_with_space);
            assert_eq!((syllables[1].text.as_str(), syllables[1].start_ms), ("aah", 1650));
            assert_eq!(bg_translation, &Some((Some("en".to_string()), "T".to_string())));
            assert_eq!(bg_romanization.as_deref(), Some("R"));
        }
        _ => panic!("a lyric line is owed"),
    }
    assert!(matches!(
        &data.lines[2].content,
        Some(AssLineContent::MainTranslation { lang_code: Some(l), .. }) if l == "zh-CN"
    ));
    assert_eq!(data.detected_translation_language.as_deref(), Some("en"));
}

#[test]
fn joined_paragraphs_are_written_one_after_the_other() {
    let p = paragraph(vec![syl("a", 1000, 1200, false)], "v1");
    let q = paragraph(vec![syl("b", 2000, 2200, false)], "v2");
    let first = generate_ass(vec![p.clone()], "").unwrap();
    let second = generate_ass(vec![q.clone()], "").unwrap();
    let both = generate_ass(vec![p, q], "").unwrap();
    assert_eq!(both, format!("{}{}", first, &second[ASS_HEADER.len()..]));
    assert!(checked_load_ass(&both).is_some());
}

#[test]
fn the_first_bad_line_decides() {
    let bad = "Dialogue: 0,0:00:01.00,0:00:02.00,orig,v1 v2,0,0,0,,{\\k10}a\n";
    let worse = "Dialogue: 0,0:00:01.00,0:00:02.00,orig,v1,0,0,0,,{\\k99999999999}a\n";
    assert!(matches!(
        load_and_process_ass_from_string(&format!("x\n{}{}", bad, worse)),
        Err(ConvertError::ConflictingActorTags { line_num: 2, .. })
    ));
    assert!(matches!(
        load_and_process_ass_from_string(&format!("{}{}", worse, bad)),
        Err(ConvertError::InvalidAssKaraoke(1, _))
    ));
}
