use sub_renamer::text::parse_extensions;

#[test]
fn test_parse_extensions() {
    assert_eq!(parse_extensions("srt,ass,vtt"), vec!["srt", "ass", "vtt"]);
    assert_eq!(parse_extensions("mkv, mp4 , avi"), vec!["mkv", "mp4", "avi"]);
    assert_eq!(parse_extensions(""), Vec::<String>::new());
}

#[test]
fn test_parse_extensions_lowercases_tokens() {
    assert_eq!(parse_extensions("SRT,Ass"), vec!["srt", "ass"]);
}

#[test]
fn test_parse_extensions_drops_empty_tokens() {
    assert_eq!(parse_extensions(",srt,, ,mkv,"), vec!["srt", "mkv"]);
}

#[test]
fn test_parse_extensions_trims_tabs_and_spaces() {
    assert_eq!(parse_extensions("\tsrt , vtt\t"), vec!["srt", "vtt"]);
}
