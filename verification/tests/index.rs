use unilyric::amll_lyrics_fetcher::amll_fetcher::{
    any_contains, cached_head, cached_index, downloaded_index, fetched_lyrics, index_lines,
    index_url, latest_commit, search_lyrics_in_index, ttml_url,
};
use unilyric::amll_lyrics_fetcher::types::{AmllIndexEntry, AmllSearchField};
use unilyric::types::ConvertError;

fn entry(file: &str, metadata: Vec<(&str, Vec<&str>)>) -> AmllIndexEntry {
    AmllIndexEntry {
        metadata: metadata
            .into_iter()
            .map(|(k, v)| (k.to_string(), v.into_iter().map(|s| s.to_string()).collect()))
            .collect(),
        raw_lyric_file: file.to_string(),
    }
}

#[test]
fn addresses_are_put_together() {
    let e = entry("1.ttml", vec![]);
    assert_eq!(index_url("https://x"), "https://x/metadata/raw-lyrics-index.jsonl");
    assert_eq!(ttml_url("https://x", &e), "https://x/raw-lyrics/1.ttml");
}

#[test]
fn versions_are_read() {
    assert_eq!(latest_commit(&vec!["a".to_string(), "b".to_string()]).unwrap(), "a");
    assert!(matches!(
        latest_commit(&vec![]),
        Err(ConvertError::Internal(m)) if m == "未找到索引文件的 commit 信息。"
    ));
    assert_eq!(cached_head(" abc\n").as_deref(), Some("abc"));
    assert_eq!(cached_head(" \n"), None);
}

#[test]
fn blank_lines_are_left_out() {
    assert_eq!(index_lines("a\r\n \n\nb"), vec!["a".to_string(), "b".to_string()]);
    assert!(index_lines("").is_empty());
}

#[test]
fn downloaded_lines_that_cannot_be_read_are_left_out() {
    let lines = vec![None, Some(entry("1", vec![]))];
    assert_eq!(downloaded_index("x\ny", lines).unwrap().len(), 1);
    assert!(matches!(
        downloaded_index("x", vec![None]),
        Err(ConvertError::Internal(m)) if m == "无法从下载的索引内容中解析出条目"
    ));
    assert_eq!(downloaded_index(" ", vec![]).unwrap().len(), 0);
}

#[test]
fn a_cached_index_is_whole_or_refused() {
    assert_eq!(cached_index(vec![Ok(entry("1", vec![]))]).unwrap().len(), 1);
    assert!(matches!(
        cached_index(vec![Ok(entry("1", vec![])), Err("bad".to_string())]),
        Err(ConvertError::JsonParse(m)) if m == "bad"
    ));
}

#[test]
fn entries_are_found() {
    let index = vec![
        entry("1", vec![("musicName", vec!["Hello"]), ("artists", vec!["X"])]),
        entry("2", vec![("musicName", vec!["Other", "hELLO Again"])]),
        entry("3", vec![("artists", vec!["hello"])]),
    ];
    let found = search_lyrics_in_index("HELLO", &AmllSearchField::MusicName, &index);
    let files: Vec<&str> = found.iter().map(|e| e.raw_lyric_file.as_str()).collect();
    assert_eq!(files, vec!["1", "2"]);
    assert_eq!(search_lyrics_in_index("x", &AmllSearchField::Artists, &index).len(), 1);
    assert_eq!(search_lyrics_in_index("zz", &AmllSearchField::MusicName, &index).len(), 0);
    assert_eq!(search_lyrics_in_index("", &AmllSearchField::MusicName, &index).len(), 0);
    // A longer query finds no more, and finds it among what the shorter one found.
    let longer = search_lyrics_in_index("hello a", &AmllSearchField::MusicName, &index);
    let within = search_lyrics_in_index("hello a", &AmllSearchField::MusicName, &found);
    assert_eq!((longer.len(), within.len()), (1, 1));
    // Another search in what was found finds the same.
    assert_eq!(search_lyrics_in_index("HELLO", &AmllSearchField::MusicName, &found).len(), 2);
}

#[test]
fn case_is_folded_beyond_ascii() {
    let index = vec![entry("1", vec![("album", vec!["Ärger"])])];
    assert_eq!(search_lyrics_in_index("ÄRGER", &AmllSearchField::Album, &index).len(), 1);
    // Texts that are already in lower case are compared as they are.
    assert!(any_contains(&vec!["x àb".to_string()], "àb"));
    assert!(!any_contains(&vec!["ÀB".to_string()], "àb"));
}

#[test]
fn fields_have_keys_and_names() {
    assert_eq!(AmllSearchField::default(), AmllSearchField::MusicName);
    assert_eq!(AmllSearchField::Isrc.to_key_string(), "isrc");
    assert_eq!(AmllSearchField::Isrc.display_name(), "ISRC 号码");
    assert_eq!(AmllSearchField::all_fields().len(), 10);
}

#[test]
fn fetched_lyrics_carry_the_index() {
    let e = entry(
        "7.ttml",
        vec![("musicName", vec!["N", "M"]), ("artists", vec!["A", "B"]), ("album", vec!["L"])],
    );
    let f = fetched_lyrics(&e, "<tt/>".to_string());
    assert_eq!(f.song_name.as_deref(), Some("N"));
    assert_eq!(f.artists_name, vec!["A".to_string(), "B".to_string()]);
    assert_eq!(f.album_name.as_deref(), Some("L"));
    assert_eq!(f.ttml_content, "<tt/>");
    assert_eq!(f.all_metadata_from_index, e.metadata);
}
