use downloader::encoding::ContentDecoder;
use downloader::manager::{detect_playlist, Download, Downloader};
use downloader::response::{read_visible, Response};
use downloader::user_agent::UserAgent;

fn response(fields: &[(&str, &str)]) -> Response {
    Response::new(fields.iter().map(|(n, v)| (n.to_string(), v.as_bytes().to_vec())).collect())
}

fn intervals(download: &Download) -> Vec<(u64, u64)> {
    match download {
        Download::Ranged { segments, .. } => segments.iter().map(|s| (s.start, s.end)).collect(),
        _ => panic!("no ranged download"),
    }
}

#[test]
fn small_ranged_download() {
    let downloader = Downloader::new(false, &UserAgent::Chrome, 1000, 3);
    let head = response(&[("content-length", "2500"), ("accept-ranges", "bytes")]);
    let download = downloader.download_file("http://example.com/data.bin", &head, &Vec::new());
    assert_eq!(intervals(&download), vec![(0, 999), (1000, 1999), (2000, 2499)]);
    match download {
        Download::Ranged { filename, segments, length } => {
            assert_eq!(filename, "data.bin");
            assert_eq!(length, 2500);
            let headers: Vec<String> = segments.iter().map(|s| s.get_range_header()).collect();
            assert_eq!(headers, vec!["bytes=0-999", "bytes=1000-1999", "bytes=2000-2499"]);
            for s in &segments {
                assert_eq!(s.url.as_str(), "http://example.com/data.bin");
            }
        }
        _ => panic!("no ranged download"),
    }
}

#[test]
fn server_without_ranges() {
    let downloader = Downloader::new(false, &UserAgent::Chrome, 1000, 3);
    let head = response(&[("content-length", "800")]);
    match downloader.download_file("http://example.com/data.bin", &head, &Vec::new()) {
        Download::Full { filename } => assert_eq!(filename, "data.bin"),
        _ => panic!("no full download"),
    }
    let none = response(&[("content-length", "800"), ("accept-ranges", "none")]);
    assert!(matches!(
        downloader.download_file("http://example.com/data.bin", &none, &Vec::new()),
        Download::Full { .. }
    ));
}

#[test]
fn server_without_length() {
    let downloader = Downloader::new(false, &UserAgent::Chrome, 1000, 3);
    let head = response(&[("accept-ranges", "bytes")]);
    assert!(matches!(
        downloader.download_file("http://example.com/data.bin", &head, &Vec::new()),
        Download::Full { .. }
    ));
    let garbled = response(&[("accept-ranges", "bytes"), ("content-length", "12 bytes")]);
    assert!(matches!(
        downloader.download_file("http://example.com/data.bin", &garbled, &Vec::new()),
        Download::Full { .. }
    ));
}

#[test]
fn hls_playlist_is_detected_by_its_url() {
    let downloader = Downloader::new(false, &UserAgent::Chrome, 1000, 3);
    let head = response(&[("content-length", "300"), ("accept-ranges", "bytes")]);
    match downloader.download_file("http://example.com/v/movie.m3u8", &head, &Vec::new()) {
        Download::Playlist { filename } => assert_eq!(filename, "movie.ts"),
        _ => panic!("no playlist"),
    }
    let taken = vec!["movie.m3u8".to_string()];
    match downloader.download_file("http://example.com/v/movie.m3u8", &head, &taken) {
        Download::Playlist { filename } => assert_eq!(filename, "movie (1).ts"),
        _ => panic!("no playlist"),
    }
}

#[test]
fn hls_playlist_is_detected_by_its_content_type() {
    let downloader = Downloader::new(false, &UserAgent::Chrome, 1000, 3);
    let head = response(&[("Content-Type", "application/vnd.apple.mpegurl; charset=utf-8")]);
    match downloader.download_file("http://example.com/v/stream", &head, &Vec::new()) {
        Download::Playlist { filename } => assert_eq!(filename, "stream"),
        _ => panic!("no playlist"),
    }
}

#[test]
fn playlists_are_told_apart() {
    assert!(detect_playlist("http://h/a.m3u8", None));
    assert!(detect_playlist(".m3u8", Some("text/plain")));
    assert!(detect_playlist("http://h/a", Some("application/vnd.apple.mpegurl")));
    assert!(detect_playlist("http://h/a", Some("x application/vnd.apple.mpegurl y")));
    assert!(!detect_playlist("http://h/a.m3u8?x=1", None));
    assert!(!detect_playlist("http://h/a.M3U8", None));
    assert!(!detect_playlist("http://h/a", Some("application/x-mpegurl")));
    assert!(!detect_playlist("m3u8", Some("")));
}

#[test]
fn chunk_size_of_one_gives_a_segment_per_byte() {
    let downloader = Downloader::new(true, &UserAgent::Firefox, 1, 1);
    let head = response(&[("content-length", "3"), ("accept-ranges", "bytes")]);
    let download = downloader.download_file("http://h/x", &head, &Vec::new());
    assert_eq!(intervals(&download), vec![(0, 0), (1, 1), (2, 2)]);
    assert!(downloader.client().use_tor);
    assert_eq!(downloader.client().user_agent, UserAgent::Firefox);
    assert_eq!(downloader.max_concurrent(), 1);
}

#[test]
fn header_names_are_found_in_any_case() {
    let head = response(&[("Content-Length", "42"), ("ACCEPT-RANGES", "bytes")]);
    assert_eq!(head.content_length(), Some(42));
    assert_eq!(head.accept_ranges(), Some("bytes".to_string()));
    assert_eq!(head.get_from_header("content-LENGTH"), Some("42".to_string()));
    assert_eq!(head.content_type(), None);
    assert_eq!(head.content_disposition(), None);
}

#[test]
fn first_field_of_a_name_counts() {
    let head = response(&[("content-type", "a"), ("x", "y"), ("content-type", "b")]);
    assert_eq!(head.content_type(), Some("a".to_string()));
}

#[test]
fn header_values_must_be_visible_text() {
    let head = Response::new(vec![
        ("content-type".to_string(), vec![0xff, b'a']),
        ("content-disposition".to_string(), b"a\tb c~".to_vec()),
        ("accept-ranges".to_string(), vec![b'a', 0x7f]),
        ("content-encoding".to_string(), vec![0x1f]),
    ]);
    assert_eq!(head.content_type(), None);
    assert_eq!(head.content_disposition(), Some("a\tb c~".to_string()));
    assert_eq!(head.accept_ranges(), None);
    assert_eq!(head.content_encoding(), None);
    assert_eq!(read_visible(&Vec::new()), Some(String::new()));
    assert_eq!(read_visible(&vec![b' ', b'~', 9]), Some(" ~\t".to_string()));
    assert_eq!(read_visible(&vec![b'a', 10]), None);
    assert_eq!(read_visible(&vec![128]), None);
}

#[test]
fn content_length_is_a_decimal_number() {
    for (text, expected) in [
        ("0", Some(0u64)),
        ("007", Some(7)),
        ("+15", Some(15)),
        ("18446744073709551615", Some(u64::MAX)),
        ("18446744073709551616", None),
        ("99999999999999999999999", None),
        ("", None),
        ("+", None),
        ("-1", None),
        ("++1", None),
        ("1+", None),
        (" 1", None),
        ("1 ", None),
        ("12a", None),
        ("0x10", None),
    ] {
        let head = response(&[("content-length", text)]);
        assert_eq!(head.content_length(), expected, "for {:?}", text);
        assert_eq!(head.content_length(), text.parse::<u64>().ok());
    }
}

#[test]
fn body_decoder_follows_content_encoding() {
    assert_eq!(response(&[]).text_decoder(), None);
    assert_eq!(response(&[("content-encoding", "gzip")]).text_decoder(), Some(ContentDecoder::Gzip));
    assert_eq!(response(&[("content-encoding", "br")]).text_decoder(), Some(ContentDecoder::Unknown));
    assert_eq!(response(&[("Content-Encoding", "zstd")]).text_decoder(), Some(ContentDecoder::Zstd));
}
