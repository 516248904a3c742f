//! Fixed texts of the request layer.

use vstd::prelude::*;

verus! {

/// The proxy that requests go through when Tor is switched on.
pub const TOR_PROXY_SCHEME: &'static str = "socks5h://127.0.0.1:9050";

/// The name under which the Firefox user agent is configured.
pub const FIREFOX: &'static str = "FireFox";

/// The name under which the Chrome user agent is configured.
pub const CHROME: &'static str = "Chrome";

/// The `User-Agent` value that stands for Firefox.
pub const FIREFOX_USER_AGENT: &'static str =
    "Mozilla/5.0 (Windows NT 10.0; Win64; x64; rv:109.0) Gecko/20100101 Firefox/113.0";

/// The `User-Agent` value that stands for Chrome.
pub const CHROME_USER_AGENT: &'static str =
    "Mozilla/5.0 (Windows NT 10.0; Win64; x64) AppleWebKit/537.36 (KHTML, like Gecko) Chrome/125.0.0.0 Safari/537.36 GLS/100.10.9939.100";

/// What is said of a user agent name that is not known.
pub const USER_AGENT_PARSE_ERROR: &'static str = "Failed to parsing UserAgent";

} // verus!
