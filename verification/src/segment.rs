//! One contiguous piece of a download.

use std::sync::Arc;
use vstd::prelude::*;
use crate::decimal::{decimal, push_decimal};
use crate::text::{append_str, from_chars};

verus! {

/// A byte interval `[start, end]` of the output and the URL that serves it.
#[derive(Clone, Debug)]
pub struct Segment {
    pub url: Arc<String>,
    pub start: u64,
    pub end: u64,
}

/// The mathematical content of a [`Segment`].
pub struct SegmentView {
    pub url: Seq<char>,
    pub start: nat,
    pub end: nat,
}

impl View for Segment {
    type V = SegmentView;

    open spec fn view(&self) -> SegmentView {
        SegmentView { url: self.url@, start: self.start as nat, end: self.end as nat }
    }
}

impl SegmentView {
    /// The number of bytes in the interval, which includes both of its ends.
    pub open spec fn size(self) -> nat {
        (self.end + 1 - self.start) as nat
    }

    /// The byte at `position` lies in the interval.
    pub open spec fn covers(self, position: nat) -> bool {
        self.start <= position <= self.end
    }
}

/// The text of a `Range` header value for the interval `[start, end]`.
pub open spec fn range_header(start: nat, end: nat) -> Seq<char> {
    "bytes="@ + decimal(start) + seq!['-'] + decimal(end)
}

/// The line that reports a failed attempt at a segment: why it failed, the
/// segment's interval, the number of the attempt and how many there are.
pub open spec fn retry_text(segment: SegmentView, reason: Seq<char>, attempt: nat, limit: nat) -> Seq<
    char,
> {
    "Failed to download segment: "@ + reason + ", Chunk "@ + decimal(segment.start) + "-"@
        + decimal(segment.end) + " retrying "@ + decimal(attempt) + "/"@ + decimal(limit) + "..."@
}

/// The line that reports a segment as given up after `limit` attempts.
pub open spec fn exhausted_text(segment: SegmentView, limit: nat) -> Seq<char> {
    "Failed to download chunk "@ + decimal(segment.start) + "-"@ + decimal(segment.end)
        + " after "@ + decimal(limit) + " attempts"@
}

/// The text that says why the request for a segment failed.
pub open spec fn fetch_error_text(segment: SegmentView, reason: Seq<char>) -> Seq<char> {
    "Failed to download segment "@ + segment.url + ": "@ + reason + ", Chunk "@ + decimal(
        segment.start,
    ) + "-"@ + decimal(segment.end)
}

/// The text that describes the segment with the given content.
pub open spec fn segment_text(segment: SegmentView) -> Seq<char> {
    "Segment(url:"@ + segment.url + ",start:"@ + decimal(segment.start) + ",end:"@ + decimal(
        segment.end,
    ) + ")"@
}

impl Segment {
    /// The interval is not empty: it ends at or after its start.
    pub open spec fn well_formed(&self) -> bool {
        self.start <= self.end
    }

    pub fn new(url: Arc<String>, start: u64, end: u64) -> (segment: Self)
        ensures
            segment.url == url,
            segment.start == start,
            segment.end == end,
            segment@ == (SegmentView { url: url@, start: start as nat, end: end as nat }),
    {
        Self { url, start, end }
    }

    /// The value of the `Range` header that asks for this segment.
    pub fn get_range_header(&self) -> (header: String)
        ensures
            header@ == range_header(self.start as nat, self.end as nat),
    {
        let mut out: Vec<char> = Vec::new();
        append_str(&mut out, "bytes=");
        push_decimal(&mut out, self.start);
        out.push('-');
        push_decimal(&mut out, self.end);
        proof {
            assert(out@ =~= range_header(self.start as nat, self.end as nat));
        }
        from_chars(&out)
    }

    /// The number of bytes in the segment.
    pub fn size(&self) -> (bytes: u64)
        requires
            self.well_formed(),
            self.end - self.start < u64::MAX,
        ensures
            bytes == self@.size(),
    {
        self.end - self.start + 1
    }

    /// A one-line description of the segment.
    pub fn to_text(&self) -> (text: String)
        ensures
            text@ == segment_text(self@),
    {
        let mut out: Vec<char> = Vec::new();
        append_str(&mut out, "Segment(url:");
        append_str(&mut out, self.url.as_str());
        append_str(&mut out, ",start:");
        push_decimal(&mut out, self.start);
        append_str(&mut out, ",end:");
        push_decimal(&mut out, self.end);
        append_str(&mut out, ")");
        proof {
            assert(out@ =~= segment_text(self@));
        }
        from_chars(&out)
    }

    /// The line that reports a failed attempt at this segment.
    pub fn retry_message(&self, reason: &str, attempt: u32, limit: u32) -> (line: String)
        ensures
            line@ == retry_text(self@, reason@, attempt as nat, limit as nat),
    {
        let mut out: Vec<char> = Vec::new();
        append_str(&mut out, "Failed to download segment: ");
        append_str(&mut out, reason);
        append_str(&mut out, ", Chunk ");
        push_decimal(&mut out, self.start);
        append_str(&mut out, "-");
        push_decimal(&mut out, self.end);
        append_str(&mut out, " retrying ");
        push_decimal(&mut out, attempt as u64);
        append_str(&mut out, "/");
        push_decimal(&mut out, limit as u64);
        append_str(&mut out, "...");
        proof {
            assert(out@ =~= retry_text(self@, reason@, attempt as nat, limit as nat));
        }
        from_chars(&out)
    }

    /// The line that reports this segment as given up.
    pub fn exhausted_message(&self, limit: u32) -> (line: String)
        ensures
            line@ == exhausted_text(self@, limit as nat),
    {
        let mut out: Vec<char> = Vec::new();
        append_str(&mut out, "Failed to download chunk ");
        push_decimal(&mut out, self.start);
        append_str(&mut out, "-");
        push_decimal(&mut out, self.end);
        append_str(&mut out, " after ");
        push_decimal(&mut out, limit as u64);
        append_str(&mut out, " attempts");
        proof {
            assert(out@ =~= exhausted_text(self@, limit as nat));
        }
        from_chars(&out)
    }

    /// The text that says why the request for this segment failed.
    pub fn fetch_error(&self, reason: &str) -> (text: String)
        ensures
            text@ == fetch_error_text(self@, reason@),
    {
        let mut out: Vec<char> = Vec::new();
        append_str(&mut out, "Failed to download segment ");
        append_str(&mut out, self.url.as_str());
        append_str(&mut out, ": ");
        append_str(&mut out, reason);
        append_str(&mut out, ", Chunk ");
        push_decimal(&mut out, self.start);
        append_str(&mut out, "-");
        push_decimal(&mut out, self.end);
        proof {
            assert(out@ =~= fetch_error_text(self@, reason@));
        }
        from_chars(&out)
    }
}

} // verus!
