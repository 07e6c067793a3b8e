use unilyric::chinese_conversion_processor::{
    convert, or_unchanged, ChineseConversionOptions, ChineseConversionProcessor,
};
use unilyric::json_parser::{
    assemble, load_from_data, ttml_of, AppleMusicData, ParsedJsonDataBundle, ParsedTtml,
};
use unilyric::krc_generator::generate_krc_from_ttml_data;
use unilyric::types::{AssMetadata, BackgroundSection, ConvertError, TtmlParagraph, TtmlSyllable};

fn syl(text: &str, start_ms: u64, end_ms: u64, space: bool) -> TtmlSyllable {
    TtmlSyllable { text: text.to_string(), start_ms, end_ms, ends_with_space: space }
}

fn paragraph(start: u64, end: u64, syllables: Vec<TtmlSyllable>) -> TtmlParagraph {
    TtmlParagraph {
        p_start_ms: start,
        p_end_ms: end,
        agent: "v1".to_string(),
        main_syllables: syllables,
        background_section: None,
        translation: None,
        romanization: None,
    }
}

#[test]
fn krc_lines_are_written() {
    let p = paragraph(1000, 2000, vec![syl("a", 1000, 1300, true), syl("b", 1300, 1900, true)]);
    assert_eq!(
        generate_krc_from_ttml_data(&[p], "[ti:T]\n").unwrap(),
        "[ti:T]\n[1000,1000]<0,300,0>a<0,0,0>  <300,600,0>b\n"
    );
}

#[test]
fn krc_offsets_count_from_the_line_start() {
    let p = paragraph(1000, 2000, vec![syl("Hi", 1200, 1500, false)]);
    assert_eq!(generate_krc_from_ttml_data(&[p], "").unwrap(), "[1000,1000]<200,300,0>Hi\n");
    // A syllable in front of the line's start stands at it.
    let early = paragraph(1000, 2000, vec![syl("Hi", 900, 1500, false)]);
    assert_eq!(generate_krc_from_ttml_data(&[early], "").unwrap(), "[1000,1000]<0,600,0>Hi\n");
}

#[test]
fn krc_spaces_stand_between_syllables() {
    let p = paragraph(1000, 2000, vec![syl("Hi", 1000, 1500, true), syl("all", 1500, 2000, true)]);
    assert_eq!(
        generate_krc_from_ttml_data(&[p], "").unwrap(),
        "[1000,1000]<0,500,0>Hi<0,0,0>  <500,500,0>all\n"
    );
}

#[test]
fn krc_keeps_pauses() {
    let p = paragraph(0, 0, vec![syl("", 100, 200, false), syl("", 200, 200, false), syl("x", 200, 500, false)]);
    let gap = paragraph(600, 900, vec![]);
    let nothing = paragraph(900, 900, vec![]);
    assert_eq!(
        generate_krc_from_ttml_data(&[p, gap, nothing], "").unwrap(),
        "[0,400]<100,100,0><200,300,0>x\n[600,300]\n"
    );
}

#[test]
fn krc_ends_in_one_newline_or_is_empty() {
    assert_eq!(generate_krc_from_ttml_data(&[], "").unwrap(), "");
    assert_eq!(generate_krc_from_ttml_data(&[], "\n\n").unwrap(), "");
    assert_eq!(generate_krc_from_ttml_data(&[], "[ti:T]\n\n").unwrap(), "[ti:T]\n");
}

#[test]
fn krc_leaves_background_voices_out() {
    let plain = paragraph(0, 10, vec![syl("a", 0, 10, false)]);
    let mut rich = plain.clone();
    rich.translation = Some(("t".to_string(), None));
    rich.main_syllables[0].ends_with_space = true;
    rich.background_section = Some(BackgroundSection {
        start_ms: 0,
        end_ms: 10,
        syllables: vec![syl("b", 0, 10, false)],
        translation: None,
        romanization: None,
    });
    assert_eq!(
        generate_krc_from_ttml_data(&[plain], "").unwrap(),
        generate_krc_from_ttml_data(&[rich], "").unwrap()
    );
}

#[test]
fn scripts_are_converted() {
    assert_eq!(convert("漢語", "t2s.json"), "汉语");
    assert_eq!(convert("汉语", "s2t.json"), "漢語");
}

#[test]
fn unknown_configurations_change_nothing() {
    assert_eq!(convert("漢語", "no-such.json"), "漢語");
    assert_eq!(or_unchanged("a", None), "a");
    assert_eq!(or_unchanged("a", Some("b".to_string())), "b");
}

#[test]
fn conversion_keeps_times() {
    let mut v = vec![paragraph(1, 2, vec![syl("漢", 1, 2, true)])];
    v[0].background_section = Some(BackgroundSection {
        start_ms: 1,
        end_ms: 2,
        syllables: vec![syl("語", 1, 2, false)],
        translation: None,
        romanization: None,
    });
    let p = ChineseConversionProcessor::new();
    p.process(&mut v, &ChineseConversionOptions { config_name: Some("t2s.json".to_string()) });
    assert_eq!(v[0].main_syllables[0].text, "汉");
    assert_eq!(v[0].background_section.as_ref().unwrap().syllables[0].text, "语");
    assert_eq!((v[0].p_start_ms, v[0].main_syllables[0].end_ms), (1, 2));
    assert!(v[0].main_syllables[0].ends_with_space);
}

#[test]
fn no_configuration_converts_nothing() {
    let p = ChineseConversionProcessor::default();
    let mut v = vec![paragraph(1, 2, vec![syl("漢", 1, 2, true)])];
    p.process(&mut v, &ChineseConversionOptions { config_name: None });
    assert_eq!(v[0].main_syllables[0].text, "漢");
    p.process(&mut v, &ChineseConversionOptions { config_name: Some(String::new()) });
    assert_eq!(v[0].main_syllables[0].text, "漢");
}

fn data(ttml: &str) -> AppleMusicData {
    AppleMusicData {
        id: "1".to_string(),
        data_type: "syllable-lyrics".to_string(),
        ttml: ttml.to_string(),
        play_params_id: "p".to_string(),
        play_params_catalog_id: "c".to_string(),
    }
}

fn meta(key: &str, value: &str) -> AssMetadata {
    AssMetadata { key: key.to_string(), value: value.to_string() }
}

fn ttml(metadata: Vec<AssMetadata>) -> ParsedTtml {
    ParsedTtml {
        paragraphs: vec![],
        metadata,
        is_line_timed: true,
        detected_formatted: true,
        detected_translation_language: Some("zh".to_string()),
    }
}

#[test]
fn apple_music_data_is_read() {
    let b = load_from_data(
        &vec![data("<tt/>")],
        Ok(ttml(vec![
            meta("Lang", "ja"),
            meta("lang", "en"),
            meta("songwriter", "W"),
            meta("V1", "Singer"),
            meta("appleMusicId", "9"),
            meta("album", "A"),
        ])),
    )
    .unwrap();
    assert_eq!(b.raw_ttml_string, "<tt/>");
    assert!(b.is_line_timed && b.detected_formatted_ttml);
    assert_eq!(b.language_code.as_deref(), Some("ja"));
    assert_eq!(b.songwriters, vec!["W".to_string()]);
    assert_eq!(b.agent_names, vec![("V1".to_string(), "Singer".to_string())]);
    // The entry's own id comes first.
    assert_eq!(b.apple_music_id, "1");
    assert_eq!(b.general_metadata.len(), 2);
    assert_eq!(b.general_metadata[0].key, "lang");
    assert_eq!(b.general_metadata[1].key, "album");
    assert_eq!(b._detected_source_translation_language.as_deref(), Some("zh"));
}

#[test]
fn ids_are_found_where_they_stand() {
    let mut d = data("<tt/>");
    d.id = String::new();
    assert_eq!(load_from_data(&vec![d.clone()], Ok(ttml(vec![]))).unwrap().apple_music_id, "c");
    d.play_params_catalog_id = String::new();
    assert_eq!(load_from_data(&vec![d.clone()], Ok(ttml(vec![]))).unwrap().apple_music_id, "p");
    d.play_params_id = String::new();
    let t = ttml(vec![meta("AppleMusicID", "9")]);
    assert_eq!(load_from_data(&vec![d], Ok(t)).unwrap().apple_music_id, "9");
}

#[test]
fn unusable_data_is_refused() {
    assert!(matches!(
        ttml_of(&vec![]),
        Err(ConvertError::InvalidJsonStructure(m)) if m == "JSON 'data' 为空。"
    ));
    let mut d = data("<x/>");
    d.data_type = "lyrics".to_string();
    assert!(matches!(
        load_from_data(&vec![d], Ok(ttml(vec![]))),
        Err(ConvertError::InvalidJsonStructure(m))
            if m == "期望的 data_type 是 'syllable-lyrics', 但找到的是 'lyrics'"
    ));
    assert!(matches!(
        load_from_data(&vec![data("<x")], Err("bad".to_string())),
        Err(ConvertError::Internal(m)) if m == "无法解析JSON中的TTML内容: bad"
    ));
    assert_eq!(ttml_of(&vec![data("<x/>")]).unwrap(), "<x/>");
}

#[test]
fn keys_are_told_apart_in_lower_case() {
    let b = assemble(
        ttml(vec![meta("SongWriter", "W")]),
        &vec!["songwriter".to_string()],
        "id".to_string(),
        "raw".to_string(),
    );
    assert_eq!(b.songwriters, vec!["W".to_string()]);
    assert_eq!(b.raw_ttml_string, "raw");
}

#[test]
fn a_bundle_is_empty_by_default() {
    let b = ParsedJsonDataBundle::default();
    assert!(b.paragraphs.is_empty() && b.general_metadata.is_empty());
    assert_eq!((b.apple_music_id.as_str(), b.raw_ttml_string.as_str()), ("", ""));
    assert!(!b.is_line_timed && !b.detected_formatted_ttml && b.language_code.is_none());
}
