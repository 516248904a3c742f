//! The browsers whose `User-Agent` value a request may carry.

use vstd::prelude::*;
use crate::constant::{
    CHROME, CHROME_USER_AGENT, FIREFOX, FIREFOX_USER_AGENT, USER_AGENT_PARSE_ERROR,
};
use crate::text::same_text;

verus! {

/// A browser to pass for.
#[derive(Clone, Copy, Debug, PartialEq, Eq, Structural)]
pub enum UserAgent {
    Firefox,
    Chrome,
}

/// A name that stands for no user agent.
#[derive(Clone, Copy, Debug, PartialEq, Eq, Structural)]
pub struct UserAgentError;

impl UserAgentError {
    /// What is said of the error.
    pub fn message(&self) -> (text: &'static str)
        ensures
            text@ == USER_AGENT_PARSE_ERROR@,
    {
        USER_AGENT_PARSE_ERROR
    }
}

/// The `User-Agent` value of `agent`.
pub open spec fn header_text(agent: UserAgent) -> Seq<char> {
    match agent {
        UserAgent::Firefox => FIREFOX_USER_AGENT@,
        UserAgent::Chrome => CHROME_USER_AGENT@,
    }
}

/// The name under which `agent` is configured.
pub open spec fn agent_name(agent: UserAgent) -> Seq<char> {
    match agent {
        UserAgent::Firefox => FIREFOX@,
        UserAgent::Chrome => CHROME@,
    }
}

/// The user agent that is configured under `name`, if there is one.
pub open spec fn agent_named(name: Seq<char>) -> Option<UserAgent> {
    if name == FIREFOX@ {
        Some(UserAgent::Firefox)
    } else if name == CHROME@ {
        Some(UserAgent::Chrome)
    } else {
        None
    }
}

impl UserAgent {
    /// The value of the `User-Agent` header for this browser.
    pub fn to_header_value(&self) -> (value: &'static str)
        ensures
            value@ == header_text(*self),
    {
        match self {
            UserAgent::Firefox => FIREFOX_USER_AGENT,
            UserAgent::Chrome => CHROME_USER_AGENT,
        }
    }

    /// Reads the name of a user agent: `FireFox` or `Chrome`, in exactly
    /// this spelling.
    pub fn from_str(s: &str) -> (agent: Result<UserAgent, UserAgentError>)
        ensures
            match agent {
                Ok(found) => agent_named(s@) == Some(found),
                Err(_) => agent_named(s@) is None,
            },
    {
        if same_text(s, FIREFOX) {
            Ok(UserAgent::Firefox)
        } else if same_text(s, CHROME) {
            Ok(UserAgent::Chrome)
        } else {
            Err(UserAgentError)
        }
    }

    /// The name under which this user agent is configured.
    pub fn name(&self) -> (name: &'static str)
        ensures
            name@ == agent_name(*self),
    {
        match self {
            UserAgent::Firefox => FIREFOX,
            UserAgent::Chrome => CHROME,
        }
    }
}

/// A user agent is read back from its own name.
pub proof fn lemma_agent_name_round_trip(agent: UserAgent)
    ensures
        agent_named(agent_name(agent)) == Some(agent),
{
    reveal_strlit("FireFox");
    reveal_strlit("Chrome");
    assert(FIREFOX@.len() != CHROME@.len());
}

} // verus!
