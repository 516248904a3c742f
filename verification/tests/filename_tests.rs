use downloader::filename::{
    candidate_name, choose_name, filename_from_disposition, free_file_name, is_taken,
};
use downloader::manager::{media_file_name, output_path, Downloader};
use downloader::response::Response;
use downloader::user_agent::UserAgent;

fn names(list: &[&str]) -> Vec<String> {
    list.iter().map(|s| s.to_string()).collect()
}

fn response(fields: &[(&str, &str)]) -> Response {
    Response::new(fields.iter().map(|(n, v)| (n.to_string(), v.as_bytes().to_vec())).collect())
}

#[test]
fn free_name_is_the_name_itself() {
    assert_eq!(free_file_name("foo.bin", &names(&[])), "foo.bin");
    assert_eq!(free_file_name("foo.bin", &names(&["bar.bin", "foo (1).bin"])), "foo.bin");
}

#[test]
fn taken_name_gets_a_number() {
    assert_eq!(free_file_name("foo.bin", &names(&["foo.bin"])), "foo (1).bin");
    assert_eq!(free_file_name("foo.bin", &names(&["foo.bin", "foo (1).bin"])), "foo (2).bin");
    assert_eq!(
        free_file_name("foo.bin", &names(&["foo (2).bin", "foo (1).bin", "foo.bin", "foo.bin"])),
        "foo (3).bin"
    );
}

#[test]
fn taken_name_without_extension_gets_a_number() {
    assert_eq!(free_file_name("foo", &names(&["foo"])), "foo (1)");
    assert_eq!(free_file_name("foo", &names(&["foo", "foo (1)"])), "foo (2)");
}

#[test]
fn free_name_is_never_taken() {
    let mut taken = names(&["a.txt"]);
    for _ in 0..12 {
        let next = free_file_name("a.txt", &taken);
        assert!(!is_taken(&taken, &next));
        taken.push(next);
    }
    assert_eq!(taken[12], "a (12).txt");
}

#[test]
fn candidates_keep_the_extension() {
    assert_eq!(candidate_name("archive.tar.gz", 0), "archive.tar.gz");
    assert_eq!(candidate_name("archive.tar.gz", 1), "archive.tar (1).gz");
    assert_eq!(candidate_name("archive.tar.gz", 10), "archive.tar (10).gz");
    assert_eq!(candidate_name("a.b", u64::MAX), "a (18446744073709551615).b");
}

#[test]
fn candidates_of_names_with_a_dot_at_an_end() {
    assert_eq!(candidate_name(".bashrc", 1), ".bashrc (1)");
    assert_eq!(candidate_name("foo.", 2), "foo (2)");
    assert_eq!(candidate_name("", 1), " (1)");
}

#[test]
fn disposition_gives_the_quoted_name() {
    assert_eq!(
        filename_from_disposition("attachment; filename=\"report final.pdf\""),
        Some("report final.pdf".to_string())
    );
    assert_eq!(filename_from_disposition("attachment; filename=plain.txt"), Some("plain.txt".to_string()));
    assert_eq!(filename_from_disposition("filename=\"\"\"x\"\"\""), Some("x".to_string()));
    assert_eq!(filename_from_disposition("filename="), Some("".to_string()));
}

#[test]
fn disposition_without_marker_gives_nothing() {
    assert_eq!(filename_from_disposition("attachment"), None);
    assert_eq!(filename_from_disposition(""), None);
    assert_eq!(filename_from_disposition("attachment; FILENAME=x"), None);
}

#[test]
fn disposition_name_ends_at_the_next_marker() {
    assert_eq!(
        filename_from_disposition("attachment; filename=\"a.txt\"filename=\"b.txt\""),
        Some("a.txt".to_string())
    );
    assert_eq!(
        filename_from_disposition("attachment; filename=\"a.txt\"; size=3"),
        Some("a.txt\"; size=3".to_string())
    );
}

#[test]
fn name_comes_from_disposition_first() {
    assert_eq!(choose_name(Some("attachment; filename=\"a.pdf\""), Some("/x/y.bin")), "a.pdf");
    assert_eq!(choose_name(Some("attachment; filename=\"dir/a.pdf\""), None), "a.pdf");
}

#[test]
fn name_comes_from_the_path_next() {
    assert_eq!(choose_name(None, Some("/x/y.bin")), "y.bin");
    assert_eq!(choose_name(Some("inline"), Some("/x/y.bin")), "y.bin");
    assert_eq!(choose_name(None, Some("plain")), "plain");
}

#[test]
fn name_falls_back_to_the_default() {
    assert_eq!(choose_name(None, None), "downloaded_file.ts");
    assert_eq!(choose_name(None, Some("/")), "downloaded_file.ts");
    assert_eq!(choose_name(None, Some("/dir/")), "downloaded_file.ts");
    assert_eq!(choose_name(Some("inline"), None), "downloaded_file.ts");
}

#[test]
fn filename_from_content_disposition() {
    let downloader = Downloader::new(false, &UserAgent::Chrome, 1000, 3);
    let head = response(&[("content-disposition", "attachment; filename=\"report final.pdf\"")]);
    assert_eq!(
        downloader.get_filename(&head, "http://example.com/download?id=7", &names(&[])),
        "report final.pdf"
    );
}

#[test]
fn filename_from_the_path_of_the_url() {
    let downloader = Downloader::new(false, &UserAgent::Chrome, 1000, 3);
    let head = response(&[]);
    assert_eq!(
        downloader.get_filename(&head, "http://example.com/a/b/file.bin?x=1#frag", &names(&[])),
        "file.bin"
    );
    assert_eq!(
        downloader.get_filename(&head, "http://example.com/a/b/file.bin", &names(&["file.bin"])),
        "file (1).bin"
    );
    assert_eq!(downloader.get_filename(&head, "http://example.com", &names(&[])), "downloaded_file.ts");
    assert_eq!(downloader.get_filename(&head, "no url at all", &names(&[])), "downloaded_file.ts");
}

#[test]
fn media_name_replaces_the_playlist_ending() {
    assert_eq!(media_file_name("movie.m3u8"), "movie.ts");
    assert_eq!(media_file_name("movie (1).m3u8"), "movie (1).ts");
    assert_eq!(media_file_name("movie.mp4"), "movie.mp4");
    assert_eq!(media_file_name("m3u8"), "m3u8");
    assert_eq!(media_file_name(".m3u8"), ".m3u8.ts");
    assert_eq!(media_file_name("dir/.m3u8"), "dir/.m3u8.ts");
    assert_eq!(media_file_name("..m3u8"), "..ts");
}

#[test]
fn output_path_is_in_the_output_directory() {
    assert_eq!(output_path("movie.ts"), "files/movie.ts");
}

#[test]
fn media_name_agrees_with_the_standard_library() {
    for name in [
        "a.m3u8", ".m3u8", "dir/.m3u8", "dir/a.m3u8", "a.b.m3u8", "a..m3u8", "x y (1).m3u8",
        "a/./.m3u8", "a.m3u8.m3u8",
    ] {
        let expected = std::path::Path::new(name).with_extension("ts").to_string_lossy().to_string();
        assert_eq!(media_file_name(name), expected, "for {:?}", name);
    }
}

#[test]
fn numbered_names_agree_with_the_standard_library() {
    for name in ["foo.bin", "foo", ".bashrc", "foo.", "a.b.c", "..x", "a b.txt", "archive.tar.gz"] {
        let path = std::path::Path::new(name);
        let stem = path.file_stem().unwrap_or_default().to_string_lossy();
        let extension = path.extension().unwrap_or_default().to_string_lossy();
        let expected = if extension.is_empty() {
            format!("{} ({})", stem, 7)
        } else {
            format!("{} ({}).{}", stem, 7, extension)
        };
        assert_eq!(candidate_name(name, 7), expected, "for {:?}", name);
    }
}

#[test]
fn disposition_agrees_with_the_standard_library() {
    for value in [
        "attachment; filename=\"report final.pdf\"",
        "filename=a",
        "filename=",
        "xfilename=filename=",
        "filename=a;filename=b;filename=c",
        "attachment",
        "filename=\"\"\"",
        "filename=\"a\" ",
        "FILENAME=a",
        "filenam=filename",
    ] {
        let expected = value.split("filename=").nth(1).map(|f| f.trim_matches('"').to_string());
        assert_eq!(filename_from_disposition(value), expected, "for {:?}", value);
    }
}
