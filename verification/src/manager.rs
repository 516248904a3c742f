//! The download job: what kind of resource it is about, under which name
//! it is stored, and in which steps it goes.

use vstd::prelude::*;
use crate::client::Client;
use crate::config::Config;
use crate::decimal::{decimal, push_decimal};
use crate::filename::{choose_name, chosen_name, free_file_name, free_name};
use crate::headers::Headers;
use crate::plan::{
    is_contiguous, is_range_plan, lemma_range_plan_unique, lemma_sizes_sum_grows, offset_plan,
    offset_segments, paired, plan_total, range_segments, sizes_sum, texts_of, views_of, PlanError,
};
use crate::pool::{PoolView, WorkerPool};
use crate::response::{announced_length, header_text, Response};
use crate::segment::{range_header, Segment, SegmentView};
use crate::text::{
    append_chars, append_str, contains_text, ends_with, ends_with_chars, find_chars, from_chars,
    same_text, slice_chars, to_chars,
};
use crate::urls::{path_of_url, url_path};
use crate::user_agent::UserAgent;

verus! {

/// The directory that downloads are stored in.
pub const OUTPUT_DIRECTORY: &'static str = "files/";

/// The ending of the URL of a playlist.
pub const PLAYLIST_SUFFIX: &'static str = ".m3u8";

/// The content type of a playlist.
pub const PLAYLIST_CONTENT_TYPE: &'static str = "application/vnd.apple.mpegurl";

/// The ending of the name under which the media of a playlist is stored.
pub const MEDIA_SUFFIX: &'static str = ".ts";

/// The resource is a playlist: its URL ends like one, or its content type
/// says so.
pub open spec fn is_playlist(url: Seq<char>, content_type: Option<Seq<char>>) -> bool {
    ||| ends_with(url, PLAYLIST_SUFFIX@)
    ||| (content_type is Some && contains_text(content_type->0, PLAYLIST_CONTENT_TYPE@))
}

/// The name under which the media of a playlist is stored: a name that
/// ends like a playlist gets the media ending in place of that ending; where
/// nothing but a directory stands before the ending, the media ending is
/// added to the name instead.
pub open spec fn media_name(name: Seq<char>) -> Seq<char> {
    if !ends_with(name, PLAYLIST_SUFFIX@) {
        name
    } else {
        let stem = name.subrange(0, name.len() - PLAYLIST_SUFFIX@.len());
        if stem.len() == 0 || stem.last() == '/' {
            name + MEDIA_SUFFIX@
        } else {
            stem + MEDIA_SUFFIX@
        }
    }
}

/// The name that a download gets: the one that the response and the URL
/// give, told apart from the names in `taken`.
pub open spec fn stored_name(
    fields: Seq<(Seq<char>, Seq<u8>)>,
    url: Seq<char>,
    taken: Seq<Seq<char>>,
) -> Seq<char> {
    free_name(chosen_name(header_text(fields, "content-disposition"@), url_path(url)), taken)
}

/// The server serves byte ranges of a resource of known length.
pub open spec fn serves_ranges(fields: Seq<(Seq<char>, Seq<u8>)>) -> bool {
    announced_length(fields) is Some && header_text(fields, "accept-ranges"@) == Some("bytes"@)
}

/// The label of the progress of segment `index`, counted from 0, of
/// `total`.
pub open spec fn progress_label(index: nat, total: nat) -> Seq<char> {
    decimal(index + 1) + "/"@ + decimal(total)
}

/// The headers of the request for a segment: the caller's, and the range
/// where the segment is a range of its URL.
pub open spec fn request_headers(
    base: Map<Seq<char>, Seq<char>>,
    start: nat,
    end: nat,
    ranged: bool,
) -> Map<Seq<char>, Seq<char>> {
    if ranged {
        base.insert("Range"@, range_header(start, end))
    } else {
        base
    }
}

/// How a download goes on after the first look at the resource.
#[derive(Debug)]
pub enum Download {
    /// The resource is a playlist: fetch it, find out the size of each
    /// media segment that it lists, and store them under this name.
    Playlist { filename: String },
    /// The resource is fetched in these byte ranges.
    Ranged { filename: String, segments: Vec<Segment>, length: u64 },
    /// The resource is fetched in one piece, written from byte 0 on.
    Full { filename: String },
}

/// The content of a [`Download`].
pub enum DownloadView {
    Playlist { filename: Seq<char> },
    Ranged { filename: Seq<char>, segments: Seq<SegmentView>, length: nat },
    Full { filename: Seq<char> },
}

impl View for Download {
    type V = DownloadView;

    open spec fn view(&self) -> DownloadView {
        match self {
            Download::Playlist { filename } => DownloadView::Playlist { filename: filename@ },
            Download::Ranged { filename, segments, length } => DownloadView::Ranged {
                filename: filename@,
                segments: views_of(segments@),
                length: *length as nat,
            },
            Download::Full { filename } => DownloadView::Full { filename: filename@ },
        }
    }
}

/// `download` is how the resource at `url` is fetched, given the header
/// fields of the first answer, the size of a segment and the names that
/// are taken.
pub open spec fn is_download_of(
    download: Download,
    chunk: nat,
    url: Seq<char>,
    fields: Seq<(Seq<char>, Seq<u8>)>,
    taken: Seq<Seq<char>>,
) -> bool {
    match download {
        Download::Playlist { filename } => {
            &&& is_playlist(url, header_text(fields, "content-type"@))
            &&& filename@ == media_name(stored_name(fields, url, taken))
        },
        Download::Ranged { filename, segments, length } => {
            &&& !is_playlist(url, header_text(fields, "content-type"@))
            &&& serves_ranges(fields)
            &&& announced_length(fields) == Some(length)
            &&& filename@ == stored_name(fields, url, taken)
            &&& is_range_plan(segments@, url, length as nat, chunk)
        },
        Download::Full { filename } => {
            &&& !is_playlist(url, header_text(fields, "content-type"@))
            &&& !serves_ranges(fields)
            &&& filename@ == stored_name(fields, url, taken)
        },
    }
}

/// Planning the same URL twice with the same answer to the first request
/// gives the same kind of download, the same name and the same segments.
pub proof fn lemma_download_determined(
    first: Download,
    second: Download,
    chunk: nat,
    url: Seq<char>,
    fields: Seq<(Seq<char>, Seq<u8>)>,
    taken: Seq<Seq<char>>,
)
    requires
        is_download_of(first, chunk, url, fields, taken),
        is_download_of(second, chunk, url, fields, taken),
    ensures
        first@ == second@,
{
    match (first, second) {
        (
            Download::Ranged { filename: _, segments: a, length },
            Download::Ranged { filename: _, segments: b, length: _ },
        ) => {
            lemma_range_plan_unique(a@, b@, url, length as nat, chunk);
        },
        _ => {},
    }
}

/// Where a job stands.
#[derive(Clone, Copy, Debug, PartialEq, Eq, Structural)]
pub enum JobState {
    Planning,
    Downloading,
    Finalizing,
    Done,
    Aborted,
}

/// What happened in a job.
#[derive(Clone, Copy, Debug, PartialEq, Eq, Structural)]
pub enum JobEvent {
    /// The plan is made and the output file is open.
    Planned,
    /// No plan could be made.
    PlanFailed,
    /// The output file could not be opened or written.
    FileFailed,
    /// Every segment's task has ended, with the segment fetched or given up.
    PoolJoined,
    /// The output file is flushed.
    Synced,
}

/// The state of a job after `event`.
pub open spec fn job_after(state: JobState, event: JobEvent) -> JobState {
    match (state, event) {
        (JobState::Planning, JobEvent::Planned) => JobState::Downloading,
        (JobState::Planning, JobEvent::PlanFailed) => JobState::Aborted,
        (JobState::Planning, JobEvent::FileFailed) => JobState::Aborted,
        (JobState::Downloading, JobEvent::PoolJoined) => JobState::Finalizing,
        (JobState::Downloading, JobEvent::FileFailed) => JobState::Aborted,
        (JobState::Finalizing, JobEvent::Synced) => JobState::Done,
        (JobState::Finalizing, JobEvent::FileFailed) => JobState::Aborted,
        _ => state,
    }
}

impl JobState {
    /// Takes the job to its next state.
    pub fn next(self, event: JobEvent) -> (state: JobState)
        ensures
            state == job_after(self, event),
    {
        match (self, event) {
            (JobState::Planning, JobEvent::Planned) => JobState::Downloading,
            (JobState::Planning, JobEvent::PlanFailed) => JobState::Aborted,
            (JobState::Planning, JobEvent::FileFailed) => JobState::Aborted,
            (JobState::Downloading, JobEvent::PoolJoined) => JobState::Finalizing,
            (JobState::Downloading, JobEvent::FileFailed) => JobState::Aborted,
            (JobState::Finalizing, JobEvent::Synced) => JobState::Done,
            (JobState::Finalizing, JobEvent::FileFailed) => JobState::Aborted,
            _ => self,
        }
    }

    /// Tells whether the job is over.
    pub fn is_terminal(self) -> (over: bool)
        ensures
            over == (self == JobState::Done || self == JobState::Aborted),
    {
        match self {
            JobState::Done => true,
            JobState::Aborted => true,
            _ => false,
        }
    }
}

/// A job is aborted only where no plan could be made or the output file
/// failed; a job that is over stays as it is.
pub proof fn lemma_job_aborts_on_fatal_errors_only(state: JobState, event: JobEvent)
    ensures
        state != JobState::Aborted && job_after(state, event) == JobState::Aborted ==> event
            == JobEvent::PlanFailed || event == JobEvent::FileFailed,
        state == JobState::Done || state == JobState::Aborted ==> job_after(state, event) == state,
        job_after(state, JobEvent::PoolJoined) != JobState::Aborted || state == JobState::Aborted,
{
}

/// Tells whether a resource is a playlist.
pub fn detect_playlist(url: &str, content_type: Option<&str>) -> (playlist: bool)
    ensures
        playlist == is_playlist(
            url@,
            match content_type {
                Some(t) => Some(t@),
                None => None,
            },
        ),
{
    if ends_with_chars(&to_chars(url), &to_chars(PLAYLIST_SUFFIX)) {
        return true;
    }
    match content_type {
        Some(t) => find_chars(&to_chars(t), &to_chars(PLAYLIST_CONTENT_TYPE)).is_some(),
        None => false,
    }
}

/// Gives the name under which the media of a playlist is stored.
pub fn media_file_name(name: &str) -> (result: String)
    ensures
        result@ == media_name(name@),
{
    let chars = to_chars(name);
    let suffix = to_chars(PLAYLIST_SUFFIX);
    if !ends_with_chars(&chars, &suffix) {
        return from_chars(&chars);
    }
    let cut: usize = chars.len() - suffix.len();
    let mut out: Vec<char> = if cut == 0 || chars[cut - 1] == '/' {
        slice_chars(&chars, 0, chars.len())
    } else {
        slice_chars(&chars, 0, cut)
    };
    proof {
        assert(chars@.subrange(0, chars@.len() as int) =~= chars@);
        if cut > 0 {
            assert(chars@.subrange(0, cut as int).last() == chars@[cut - 1]);
        }
    }
    append_str(&mut out, MEDIA_SUFFIX);
    from_chars(&out)
}

/// Gives the label of the progress of segment `index`, counted from 0, of
/// `total`.
pub fn segment_label(index: usize, total: usize) -> (label: String)
    requires
        index < total,
    ensures
        label@ == progress_label(index as nat, total as nat),
{
    let mut out: Vec<char> = Vec::new();
    push_decimal(&mut out, (index + 1) as u64);
    append_str(&mut out, "/");
    push_decimal(&mut out, total as u64);
    proof {
        assert(out@ =~= progress_label(index as nat, total as nat));
    }
    from_chars(&out)
}

/// Gives the path of the file that is stored under `filename`.
pub fn output_path(filename: &str) -> (path: String)
    ensures
        path@ == OUTPUT_DIRECTORY@ + filename@,
{
    let mut out: Vec<char> = to_chars(OUTPUT_DIRECTORY);
    append_str(&mut out, filename);
    from_chars(&out)
}

/// Gives the headers of the request for a segment: a copy of the caller's
/// headers, with the segment's range under `Range` where the plan is one of
/// ranges.
pub fn segment_headers(default_headers: Option<&Headers>, segment: &Segment, accept_ranges: bool) -> (headers:
    Headers)
    ensures
        headers@ == request_headers(
            match default_headers {
                Some(h) => h@,
                None => Map::empty(),
            },
            segment.start as nat,
            segment.end as nat,
            accept_ranges,
        ),
{
    let mut headers = match default_headers {
        Some(h) => h.duplicate(),
        None => Headers::new(),
    };
    if accept_ranges {
        headers.insert("Range".to_owned(), segment.get_range_header());
    }
    headers
}

/// Adds up the sizes of the segments. The result is `None` where a segment
/// ends before it starts or the sum does not fit in 64 bits.
pub fn total_size(segments: &Vec<Segment>) -> (total: Option<u64>)
    ensures
        match total {
            Some(sum) => sum == sizes_sum(views_of(segments@), segments@.len() as int) && forall|
                i: int,
            |
                0 <= i < segments@.len() ==> (#[trigger] segments@[i]).well_formed(),
            None => (exists|i: int| 0 <= i < segments@.len() && !(#[trigger] segments@[i]).well_formed())
                || sizes_sum(views_of(segments@), segments@.len() as int) > u64::MAX,
        },
{
    let mut sum: u64 = 0;
    let mut i: usize = 0;
    while i < segments.len()
        invariant
            i <= segments.len(),
            sum == sizes_sum(views_of(segments@), i as int),
            forall|j: int| 0 <= j < i ==> (#[trigger] segments@[j]).well_formed(),
        decreases segments.len() - i,
    {
        let start = segments[i].start;
        let end = segments[i].end;
        proof {
            assert(views_of(segments@)[i as int] == segments@[i as int]@);
            lemma_sizes_sum_grows(views_of(segments@), i + 1, segments@.len() as int);
        }
        if end < start {
            assert(!segments@[i as int].well_formed());
            return None;
        }
        let size = end - start;
        if size == u64::MAX || size + 1 > u64::MAX - sum {
            return None;
        }
        sum = sum + (size + 1);
        i += 1;
    }
    Some(sum)
}

/// One download job's settings: those of the HTTP client, the size of a
/// segment, and how many segments are fetched at a time.
#[derive(Debug)]
pub struct Downloader {
    client: Client,
    segment_size: u64,
    max_concurrent: usize,
}

impl Downloader {
    #[verifier::type_invariant]
    spec fn sound(&self) -> bool {
        self.segment_size >= 1 && self.max_concurrent >= 1
    }

    /// The size of a segment, in bytes.
    pub closed spec fn chunk(&self) -> nat {
        self.segment_size as nat
    }

    /// How many segments are fetched at a time.
    pub closed spec fn concurrency(&self) -> nat {
        self.max_concurrent as nat
    }

    /// The settings of the HTTP client.
    pub closed spec fn client_settings(&self) -> Client {
        self.client
    }

    pub fn new(use_tor: bool, user_agent: &UserAgent, segment_size: u64, max_concurrent: usize) -> (downloader:
        Self)
        requires
            segment_size >= 1,
            max_concurrent >= 1,
        ensures
            downloader.chunk() == segment_size,
            downloader.concurrency() == max_concurrent,
            downloader.client_settings().use_tor == use_tor,
            downloader.client_settings().user_agent == *user_agent,
            downloader.client_settings().default_headers@ == Map::<Seq<char>, Seq<char>>::empty(),
    {
        Self { client: Client::new(use_tor, user_agent), segment_size, max_concurrent }
    }

    /// Makes a downloader from the settings, if they can be worked with.
    pub fn from_config(config: &Config) -> (downloader: Option<Self>)
        ensures
            downloader is Some <==> config.usable(),
            downloader matches Some(d) ==> {
                &&& d.chunk() == config.chunk_size
                &&& d.concurrency() == config.max_concurrent_count
                &&& d.client_settings().use_tor == config.use_tor
                &&& d.client_settings().user_agent == config.user_agent
            },
    {
        if config.is_usable() {
            Some(
                Self::new(
                    config.use_tor,
                    &config.user_agent,
                    config.chunk_size,
                    config.max_concurrent_count,
                ),
            )
        } else {
            None
        }
    }

    /// The settings of the HTTP client.
    pub fn client(&self) -> (client: &Client)
        ensures
            *client == self.client_settings(),
    {
        &self.client
    }

    /// The size of a segment; at least 1.
    pub fn segment_size(&self) -> (size: u64)
        ensures
            size == self.chunk(),
            size >= 1,
    {
        proof {
            use_type_invariant(self);
        }
        self.segment_size
    }

    /// How many segments are fetched at a time; at least 1.
    pub fn max_concurrent(&self) -> (limit: usize)
        ensures
            limit == self.concurrency(),
            limit >= 1,
    {
        proof {
            use_type_invariant(self);
        }
        self.max_concurrent
    }

    /// A one-line description of the downloader.
    pub fn to_text(&self) -> (text: String)
        ensures
            text@ == "Downloader(Client(),"@ + decimal(self.chunk()) + ","@ + decimal(
                self.concurrency(),
            ) + ")"@,
    {
        let mut out: Vec<char> = Vec::new();
        append_str(&mut out, "Downloader(");
        append_str(&mut out, self.client.to_text().as_str());
        append_str(&mut out, ",");
        push_decimal(&mut out, self.segment_size);
        append_str(&mut out, ",");
        push_decimal(&mut out, self.max_concurrent as u64);
        append_str(&mut out, ")");
        proof {
            reveal_strlit("Downloader(Client(),");
            reveal_strlit("Downloader(");
            reveal_strlit("Client()");
            reveal_strlit(",");
            assert("Downloader("@ + "Client()"@ + ","@ =~= "Downloader(Client(),"@);
            assert(out@ =~= "Downloader(Client(),"@ + decimal(self.chunk()) + ","@ + decimal(
                self.concurrency(),
            ) + ")"@);
        }
        from_chars(&out)
    }

    /// Gives the name under which the download is stored: the file name of
    /// the response's `Content-Disposition`, else the last segment of the
    /// URL's path, else the default name; and of these the first candidate
    /// that none of the files in `taken` has.
    pub fn get_filename(&self, response: &Response, url: &str, taken: &Vec<String>) -> (filename:
        String)
        ensures
            filename@ == stored_name(response@, url@, texts_of(taken@)),
            !texts_of(taken@).contains(filename@),
    {
        let disposition = response.content_disposition();
        let path = path_of_url(url);
        let name = choose_name(
            match &disposition {
                Some(d) => Some(d.as_str()),
                None => None,
            },
            match &path {
                Some(p) => Some(p.as_str()),
                None => None,
            },
        );
        free_file_name(name.as_str(), taken)
    }

    /// Decides from the answer to the first request how the resource at
    /// `url` is fetched, and under which name it is stored. `taken` holds
    /// the names of the files that are there already.
    pub fn download_file(&self, url: &str, head_response: &Response, taken: &Vec<String>) -> (download:
        Download)
        ensures
            is_download_of(download, self.chunk(), url@, head_response@, texts_of(taken@)),
    {
        proof {
            use_type_invariant(self);
        }
        let content_type = head_response.content_type();
        let filename = self.get_filename(head_response, url, taken);
        let playlist = detect_playlist(
            url,
            match &content_type {
                Some(t) => Some(t.as_str()),
                None => None,
            },
        );
        if playlist {
            return Download::Playlist { filename: media_file_name(filename.as_str()) };
        }
        let content_length = head_response.content_length();
        let accept_ranges = head_response.accept_ranges();
        match (content_length, accept_ranges) {
            (Some(length), Some(ranges)) => {
                if same_text(ranges.as_str(), "bytes") {
                    let segments = range_segments(url, length, self.segment_size);
                    Download::Ranged { filename, segments, length }
                } else {
                    Download::Full { filename }
                }
            },
            _ => Download::Full { filename },
        }
    }

    /// Lays the media segments of a playlist out one after another, given
    /// the size that was found for each of their URLs. A segment of unknown
    /// size, or of size 0, gets no place.
    pub fn get_segments_info(&self, urls: &Vec<String>, sizes: &Vec<Option<u64>>) -> (result: Result<
        Vec<Segment>,
        PlanError,
    >)
        ensures
            match result {
                Ok(segments) => {
                    &&& views_of(segments@) == offset_plan(
                        texts_of(urls@),
                        sizes@,
                        paired(texts_of(urls@), sizes@),
                    )
                    &&& is_contiguous(views_of(segments@))
                    &&& plan_total(views_of(segments@)) <= u64::MAX
                },
                Err(e) => {
                    &&& e == PlanError::TooLarge
                    &&& plan_total(
                        offset_plan(texts_of(urls@), sizes@, paired(texts_of(urls@), sizes@)),
                    ) > u64::MAX
                },
            },
    {
        offset_segments(urls, sizes)
    }

    /// Sets up the pool that fetches the segments: one task for each, and as
    /// many permits as segments may be fetched at a time.
    pub fn download_parallel(&self, segments: &Vec<Segment>) -> (pool: WorkerPool)
        ensures
            pool@ == (PoolView {
                total: segments@.len(),
                limit: self.concurrency(),
                launched: 0,
                finished: 0,
            }),
            pool@.valid(),
    {
        proof {
            use_type_invariant(self);
        }
        WorkerPool::new(segments.len(), self.max_concurrent)
    }
}

} // verus!
