use downloader::config::{Config, DEFAULT_CHUNK_SIZE, DEFAULT_MAX_CONCURRENT};
use downloader::constant::{CHROME_USER_AGENT, FIREFOX_USER_AGENT, TOR_PROXY_SCHEME};
use downloader::decimal::{parse_u64, push_decimal};
use downloader::dto::DownloadInfo;
use downloader::encoding::ContentDecoder;
use downloader::headers::Headers;
use downloader::manager::{segment_label, Downloader};
use downloader::segment::Segment;
use downloader::text::{
    eq_ignoring_case, find_chars, from_chars, last_index_of_char, to_chars, to_lower, trim_chars,
};
use downloader::user_agent::{UserAgent, UserAgentError};
use std::sync::Arc;

#[test]
fn fresh_config_has_the_defaults() {
    let config = Config::new();
    assert!(!config.use_tor);
    assert_eq!(config.user_agent, UserAgent::Chrome);
    assert_eq!(config.chunk_size, 10_000_000);
    assert_eq!(config.max_concurrent_count, 5);
    assert_eq!(DEFAULT_CHUNK_SIZE, 10_000_000);
    assert_eq!(DEFAULT_MAX_CONCURRENT, 5);
    assert!(config.is_usable());
}

#[test]
fn config_needs_a_chunk_size_and_a_permit() {
    let mut config = Config::new();
    config.chunk_size = 0;
    assert!(!config.is_usable());
    assert!(Downloader::from_config(&config).is_none());
    config.chunk_size = 1;
    config.max_concurrent_count = 0;
    assert!(!config.is_usable());
    assert!(Downloader::from_config(&config).is_none());
    config.max_concurrent_count = 1;
    let downloader = Downloader::from_config(&config).unwrap();
    assert_eq!(downloader.segment_size(), 1);
    assert_eq!(downloader.max_concurrent(), 1);
    assert_eq!(downloader.client().user_agent, UserAgent::Chrome);
    assert!(!downloader.client().use_tor);
}

#[test]
fn user_agent_header_values() {
    assert_eq!(UserAgent::Firefox.to_header_value(), FIREFOX_USER_AGENT);
    assert_eq!(UserAgent::Chrome.to_header_value(), CHROME_USER_AGENT);
    assert!(UserAgent::Firefox.to_header_value().ends_with("Firefox/113.0"));
    assert!(UserAgent::Chrome.to_header_value().contains("Chrome/125.0.0.0"));
    assert_eq!(TOR_PROXY_SCHEME, "socks5h://127.0.0.1:9050");
}

#[test]
fn user_agent_names() {
    assert_eq!(UserAgent::from_str("FireFox"), Ok(UserAgent::Firefox));
    assert_eq!(UserAgent::from_str("Chrome"), Ok(UserAgent::Chrome));
    assert_eq!(UserAgent::from_str("Firefox"), Err(UserAgentError));
    assert_eq!(UserAgent::from_str("chrome"), Err(UserAgentError));
    assert_eq!(UserAgent::from_str(""), Err(UserAgentError));
    assert_eq!(UserAgentError.message(), "Failed to parsing UserAgent");
    assert_eq!(UserAgent::Firefox.name(), "FireFox");
    assert_eq!(UserAgent::Chrome.name(), "Chrome");
    for agent in [UserAgent::Firefox, UserAgent::Chrome] {
        assert_eq!(UserAgent::from_str(agent.name()), Ok(agent));
    }
}

#[test]
fn content_decoder_names() {
    let all = [
        (ContentDecoder::Brotli, "brotli"),
        (ContentDecoder::Bzip2, "bzip2"),
        (ContentDecoder::Deflate, "deflate"),
        (ContentDecoder::Gzip, "gzip"),
        (ContentDecoder::Lzma, "lzma"),
        (ContentDecoder::Xz, "xz"),
        (ContentDecoder::Zlib, "zlib"),
        (ContentDecoder::Zstd, "zstd"),
        (ContentDecoder::Deflate64, "dflate64"),
        (ContentDecoder::Unknown, "unknown"),
    ];
    for (decoder, name) in all {
        assert_eq!(decoder.as_str(), name);
        assert_eq!(ContentDecoder::from_str(name), decoder);
        assert!(decoder.eq_name(name));
        assert!(!decoder.eq_name("other"));
    }
    assert_eq!(ContentDecoder::from_str("deflate64"), ContentDecoder::Unknown);
    assert_eq!(ContentDecoder::from_str("GZIP"), ContentDecoder::Unknown);
    assert_eq!(ContentDecoder::from_str(""), ContentDecoder::Unknown);
}

#[test]
fn segment_range_header() {
    let url = Arc::new("http://h/f".to_string());
    assert_eq!(Segment::new(url.clone(), 0, 999).get_range_header(), "bytes=0-999");
    assert_eq!(Segment::new(url.clone(), 0, 0).get_range_header(), "bytes=0-0");
    assert_eq!(
        Segment::new(url.clone(), 1000, u64::MAX).get_range_header(),
        "bytes=1000-18446744073709551615"
    );
}

#[test]
fn segment_size_and_text() {
    let segment = Segment::new(Arc::new("http://h/f".to_string()), 2000, 2499);
    assert_eq!(segment.url.as_str(), "http://h/f");
    assert_eq!(segment.start, 2000);
    assert_eq!(segment.end, 2499);
    assert_eq!(segment.size(), 500);
    assert_eq!(segment.to_text(), "Segment(url:http://h/f,start:2000,end:2499)");
    assert_eq!(Segment::new(Arc::new(String::new()), 7, 7).size(), 1);
}

#[test]
fn descriptions() {
    let downloader = Downloader::new(false, &UserAgent::Chrome, 10_000_000, 5);
    assert_eq!(downloader.to_text(), "Downloader(Client(),10000000,5)");
    assert_eq!(downloader.client().to_text(), "Client()");
}

#[test]
fn progress_labels() {
    assert_eq!(segment_label(0, 3), "1/3");
    assert_eq!(segment_label(2, 3), "3/3");
    assert_eq!(segment_label(9, 120), "10/120");
}

#[test]
fn download_info_holds_url_and_headers() {
    let mut headers = Headers::new();
    headers.insert("accept".to_string(), "*/*".to_string());
    let info = DownloadInfo { url: "http://h/x".to_string(), headers: Some(headers) };
    assert_eq!(info.url, "http://h/x");
    assert_eq!(info.headers.unwrap().get("accept"), Some("*/*".to_string()));
    let bare = DownloadInfo { url: String::new(), headers: None };
    assert!(bare.headers.is_none());
}

#[test]
fn decimal_numerals() {
    for n in [0u64, 1, 9, 10, 99, 100, 12345, u64::MAX] {
        let mut out = Vec::new();
        push_decimal(&mut out, n);
        let text: String = out.iter().collect();
        assert_eq!(text, n.to_string());
        assert_eq!(parse_u64(&text), Some(n));
    }
    let mut out = vec!['x'];
    push_decimal(&mut out, 42);
    assert_eq!(out, vec!['x', '4', '2']);
}

#[test]
fn characters_round_trip() {
    for text in ["", "abc", "caf\u{e9} \u{1f600}", "a\nb"] {
        let chars = to_chars(text);
        assert_eq!(chars, text.chars().collect::<Vec<char>>());
        assert_eq!(from_chars(&chars), text);
    }
}

#[test]
fn text_search() {
    let hay = to_chars("abcabc");
    assert_eq!(find_chars(&hay, &to_chars("bc")), Some(1));
    assert_eq!(find_chars(&hay, &to_chars("abcabc")), Some(0));
    assert_eq!(find_chars(&hay, &to_chars("cb")), None);
    assert_eq!(find_chars(&hay, &to_chars("abcabcd")), None);
    assert_eq!(find_chars(&hay, &to_chars("")), Some(0));
    assert_eq!(find_chars(&to_chars(""), &to_chars("")), Some(0));
    assert_eq!(last_index_of_char(&hay, 'b'), Some(4));
    assert_eq!(last_index_of_char(&hay, 'x'), None);
    assert_eq!(trim_chars(&to_chars("\"\"a\"b\"\""), '"'), to_chars("a\"b"));
    assert_eq!(trim_chars(&to_chars("\"\"\""), '"'), to_chars(""));
    assert_eq!(trim_chars(&to_chars("ab"), '"'), to_chars("ab"));
}

#[test]
fn case_of_ascii_letters_is_ignored() {
    assert_eq!(to_lower("Cache-Control"), to_chars("cache-control"));
    assert_eq!(to_lower("AZ az \u{c9}[`{"), to_chars("az az \u{c9}[`{"));
    assert!(eq_ignoring_case("User-Agent", "uSER-aGENT"));
    assert!(!eq_ignoring_case("User-Agent", "User_Agent"));
    assert!(!eq_ignoring_case("a", "ab"));
}
