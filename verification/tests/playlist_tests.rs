use downloader::plan::PlanError;
use downloader::playlist::{
    names_media, parse_playlist, prefer_absolute, resolve_media_url, split_lines,
};

#[test]
fn playlist_lists_relative_and_absolute_segments() {
    let text = "#EXTM3U\n#EXT-X-VERSION:3\n#EXTINF:10,\nseg1.ts\n#EXTINF:10,\nseg2.ts\n#EXTINF:10,\nhttp://cdn/seg3.ts\n#EXT-X-ENDLIST\n";
    let urls = parse_playlist("http://example.com/videos/list.m3u8", text).unwrap();
    assert_eq!(
        urls,
        vec![
            "http://example.com/videos/seg1.ts".to_string(),
            "http://example.com/videos/seg2.ts".to_string(),
            "http://cdn/seg3.ts".to_string(),
        ]
    );
}

#[test]
fn playlist_skips_lines_without_a_dot() {
    let urls = parse_playlist("http://h/p/list.m3u8", "\nsegment\n\nclip.ts\n").unwrap();
    assert_eq!(urls, vec!["http://h/p/clip.ts".to_string()]);
}

#[test]
fn playlist_of_an_unparsable_url_is_refused() {
    assert_eq!(parse_playlist("not a url", "seg1.ts\n").err(), Some(PlanError::InvalidUrl));
    assert_eq!(parse_playlist("", "").err(), Some(PlanError::InvalidUrl));
}

#[test]
fn playlist_without_entries_is_empty() {
    assert_eq!(parse_playlist("http://h/list.m3u8", "").unwrap(), Vec::<String>::new());
    assert_eq!(parse_playlist("http://h/list.m3u8", "#EXTM3U\n").unwrap(), Vec::<String>::new());
}

#[test]
fn absolute_line_comes_back_in_normal_form() {
    assert_eq!(
        resolve_media_url("http://h/list.m3u8", "HTTP://CDN.Example.COM/a/../seg.ts"),
        Some("http://cdn.example.com/seg.ts".to_string())
    );
}

#[test]
fn relative_line_is_resolved_against_the_playlist() {
    assert_eq!(
        resolve_media_url("http://h/a/b/list.m3u8", "../c/seg.ts"),
        Some("http://h/a/c/seg.ts".to_string())
    );
    assert_eq!(
        resolve_media_url("http://h/a/b/list.m3u8", "/root/seg.ts?x=1"),
        Some("http://h/root/seg.ts?x=1".to_string())
    );
}

#[test]
fn comment_and_dotless_lines_name_nothing() {
    assert_eq!(resolve_media_url("http://h/list.m3u8", "#seg.ts"), None);
    assert_eq!(resolve_media_url("http://h/list.m3u8", "segment"), None);
    assert_eq!(resolve_media_url("http://h/list.m3u8", ""), None);
    assert_eq!(resolve_media_url("nonsense", "seg.ts"), None);
}

#[test]
fn media_lines_are_told_apart() {
    assert!(names_media("seg1.ts"));
    assert!(names_media("."));
    assert!(names_media(" #not-a-comment.ts"));
    assert!(!names_media("#EXTINF:10.5,"));
    assert!(!names_media("segment"));
    assert!(!names_media(""));
}

#[test]
fn lines_end_at_line_feeds() {
    assert_eq!(split_lines("a\nb"), vec!["a".to_string(), "b".to_string()]);
    assert_eq!(split_lines("a\nb\n"), vec!["a".to_string(), "b".to_string()]);
    assert_eq!(split_lines("a\n\nb"), vec!["a".to_string(), "".to_string(), "b".to_string()]);
    assert_eq!(split_lines("\n"), vec!["".to_string()]);
    assert_eq!(split_lines(""), Vec::<String>::new());
    assert_eq!(split_lines("one"), vec!["one".to_string()]);
}

#[test]
fn lines_drop_a_carriage_return_before_a_line_feed() {
    assert_eq!(split_lines("a\r\nb\r\n"), vec!["a".to_string(), "b".to_string()]);
    assert_eq!(split_lines("a\r\nb\r"), vec!["a".to_string(), "b\r".to_string()]);
    assert_eq!(split_lines("a\r\r\n"), vec!["a\r".to_string()]);
    assert_eq!(split_lines("\r\n"), vec!["".to_string()]);
}

#[test]
fn lines_agree_with_the_standard_library() {
    for text in ["", "\n", "a", "a\n", "a\r\n", "a\r", "\r", "\r\n\r\n", "x\n\ny\r\n\r\nz", "é\nü\r\n"] {
        let expected: Vec<String> = text.lines().map(|l| l.to_string()).collect();
        assert_eq!(split_lines(text), expected);
    }
}

#[test]
fn absolute_reading_of_a_line_is_preferred() {
    let a = Some("http://a/".to_string());
    let b = Some("http://b/".to_string());
    assert_eq!(prefer_absolute(a.clone(), b.clone()), a);
    assert_eq!(prefer_absolute(a.clone(), None), a);
    assert_eq!(prefer_absolute(None, b.clone()), b);
    assert_eq!(prefer_absolute(None, None), None);
}
