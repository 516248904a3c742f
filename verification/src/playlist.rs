//! Reading a media playlist: its lines, and the URLs that they name.

use vstd::prelude::*;
use crate::plan::{texts_of, PlanError};
use crate::text::{from_chars, slice_chars, text_of, to_chars};
use crate::urls::{absolute_url, join_url, joined_url, parse_url};

verus! {

/// The position of the first line feed in `s` at or after `from`, or the
/// length of `s` where there is none.
pub open spec fn line_end(s: Seq<char>, from: int) -> int
    decreases s.len() - from,
{
    if from < 0 || from >= s.len() {
        s.len() as int
    } else if s[from] == '\n' {
        from
    } else {
        line_end(s, from + 1)
    }
}

/// The line that spans `[from, end)` of `s`: where a line feed ends it, a
/// carriage return right before that line feed is no part of the line.
pub open spec fn line_content(s: Seq<char>, from: int, end: int) -> Seq<char> {
    if end < s.len() && from < end && s[end - 1] == '\r' {
        s.subrange(from, end - 1)
    } else {
        s.subrange(from, end)
    }
}

/// The lines of `s` from position `from` on.
pub open spec fn lines_from(s: Seq<char>, from: int) -> Seq<Seq<char>>
    decreases s.len() + 1 - from,
{
    if from < 0 || from >= s.len() {
        Seq::empty()
    } else {
        let end = line_end(s, from);
        if from <= end <= s.len() {
            seq![line_content(s, from, end)] + lines_from(s, end + 1)
        } else {
            Seq::empty()
        }
    }
}

/// The lines of `s`: a line ends at a line feed or at a carriage return
/// followed by a line feed, neither of which belongs to it; the end of `s`
/// ends the last line, and after a final line ending no empty line follows.
pub open spec fn lines(s: Seq<char>) -> Seq<Seq<char>> {
    lines_from(s, 0)
}

/// A line that may name a media segment: it does not start with `#` and has
/// a `.` in it.
pub open spec fn is_media_line(line: Seq<char>) -> bool {
    &&& !(line.len() > 0 && line[0] == '#')
    &&& line.contains('.')
}

/// The URL that a playlist line names: the line itself where it is an
/// absolute URL, else the line resolved against the playlist's own URL.
pub open spec fn media_url(base: Seq<char>, line: Seq<char>) -> Option<Seq<char>> {
    if !is_media_line(line) {
        None
    } else if absolute_url(line) is Some {
        absolute_url(line)
    } else {
        joined_url(base, line)
    }
}

/// The URLs that the first `count` of `lines` name, in order.
pub open spec fn media_urls(base: Seq<char>, lines: Seq<Seq<char>>, count: int) -> Seq<Seq<char>>
    decreases count,
{
    if count <= 0 || count > lines.len() {
        Seq::empty()
    } else {
        let before = media_urls(base, lines, count - 1);
        match media_url(base, lines[count - 1]) {
            Some(url) => before.push(url),
            None => before,
        }
    }
}

/// The media URLs that the playlist `text`, fetched from `base`, lists.
pub open spec fn playlist_urls(base: Seq<char>, text: Seq<char>) -> Seq<Seq<char>> {
    media_urls(base, lines(text), lines(text).len() as int)
}

/// The end of a line is at or after its start and within the text.
proof fn lemma_line_end(s: Seq<char>, from: int)
    requires
        0 <= from <= s.len(),
    ensures
        from <= line_end(s, from) <= s.len(),
        line_end(s, from) < s.len() ==> s[line_end(s, from)] == '\n',
    decreases s.len() - from,
{
    if from < s.len() && s[from] != '\n' {
        lemma_line_end(s, from + 1);
    }
}

/// Splits `text` into its lines.
pub fn split_lines(text: &str) -> (result: Vec<String>)
    ensures
        texts_of(result@) == lines(text@),
{
    let chars = to_chars(text);
    let mut result: Vec<String> = Vec::new();
    let mut from: usize = 0;
    while from < chars.len()
        invariant
            from <= chars.len(),
            chars@ == text@,
            texts_of(result@) + lines_from(chars@, from as int) == lines(chars@),
        decreases chars.len() - from,
    {
        let mut end: usize = from;
        while end < chars.len() && chars[end] != '\n'
            invariant
                from <= end <= chars.len(),
                line_end(chars@, from as int) == line_end(chars@, end as int),
            decreases chars.len() - end,
        {
            end += 1;
        }
        let stop: usize = if end < chars.len() && from < end && chars[end - 1] == '\r' {
            end - 1
        } else {
            end
        };
        let line = from_chars(&slice_chars(&chars, from, stop));
        let ghost before = texts_of(result@);
        let ghost rest = lines_from(chars@, end + 1);
        result.push(line);
        proof {
            assert(line@ == line_content(chars@, from as int, end as int));
            assert(texts_of(result@) =~= before.push(line@));
            assert(lines_from(chars@, from as int) == seq![line@] + rest);
            assert(before.push(line@) + rest =~= before + (seq![line@] + rest));
        }
        if end == chars.len() {
            proof {
                assert(rest =~= Seq::<Seq<char>>::empty());
                assert(texts_of(result@) + Seq::<Seq<char>>::empty() =~= texts_of(result@));
            }
            return result;
        }
        from = end + 1;
    }
    proof {
        assert(lines_from(chars@, from as int) =~= Seq::<Seq<char>>::empty());
        assert(texts_of(result@) + Seq::<Seq<char>>::empty() =~= texts_of(result@));
    }
    result
}

/// Tells whether a playlist line may name a media segment.
pub fn names_media(line: &str) -> (r: bool)
    ensures
        r == is_media_line(line@),
{
    let chars = to_chars(line);
    if chars.len() > 0 && chars[0] == '#' {
        return false;
    }
    let mut i: usize = 0;
    while i < chars.len()
        invariant
            i <= chars.len(),
            chars@ == line@,
            !(line@.len() > 0 && line@[0] == '#'),
            forall|j: int| 0 <= j < i ==> chars@[j] != '.',
        decreases chars.len() - i,
    {
        if chars[i] == '.' {
            assert(line@[i as int] == '.');
            return true;
        }
        i += 1;
    }
    false
}

/// Chooses between the two readings of a playlist line: the line as an
/// absolute URL where it is one, else the line resolved against the
/// playlist's URL.
pub fn prefer_absolute(absolute: Option<String>, resolved: Option<String>) -> (url: Option<String>)
    ensures
        text_of(url) == if absolute is Some {
            text_of(absolute)
        } else {
            text_of(resolved)
        },
{
    match absolute {
        Some(url) => Some(url),
        None => resolved,
    }
}

/// Gives the URL that a playlist line names, if it names one: the line as
/// an absolute URL, or else resolved against `base`, the playlist's URL.
pub fn resolve_media_url(base: &str, line: &str) -> (url: Option<String>)
    ensures
        text_of(url) == media_url(base@, line@),
{
    if !names_media(line) {
        return None;
    }
    let absolute = parse_url(line);
    let resolved = if absolute.is_none() {
        join_url(base, line)
    } else {
        None
    };
    prefer_absolute(absolute, resolved)
}

/// Lists the media URLs of the playlist `text` that was fetched from `url`.
/// It fails exactly where `url` itself is no absolute URL.
pub fn parse_playlist(url: &str, text: &str) -> (result: Result<Vec<String>, PlanError>)
    ensures
        match result {
            Ok(urls) => absolute_url(url@) is Some && texts_of(urls@) == playlist_urls(url@, text@),
            Err(e) => e == PlanError::InvalidUrl && absolute_url(url@) is None,
        },
{
    if parse_url(url).is_none() {
        return Err(PlanError::InvalidUrl);
    }
    let all_lines = split_lines(text);
    let mut urls: Vec<String> = Vec::new();
    let mut i: usize = 0;
    while i < all_lines.len()
        invariant
            i <= all_lines.len(),
            texts_of(all_lines@) == lines(text@),
            texts_of(urls@) == media_urls(url@, lines(text@), i as int),
        decreases all_lines.len() - i,
    {
        let ghost before = texts_of(urls@);
        proof {
            assert(texts_of(all_lines@)[i as int] == all_lines@[i as int]@);
        }
        match resolve_media_url(url, all_lines[i].as_str()) {
            Some(found) => {
                urls.push(found);
                proof {
                    assert(texts_of(urls@) =~= before.push(found@));
                }
            },
            None => {},
        }
        i += 1;
    }
    Ok(urls)
}

} // verus!
