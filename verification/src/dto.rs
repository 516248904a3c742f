//! What a caller asks for.

use vstd::prelude::*;
use crate::headers::Headers;

verus! {

/// A request for a download: the URL, and the headers to send with it.
#[derive(Clone, Debug)]
pub struct DownloadInfo {
    pub url: String,
    pub headers: Option<Headers>,
}

} // verus!
