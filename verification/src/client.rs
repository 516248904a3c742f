//! What a request is sent with: the settings of the HTTP client, and the
//! header fields that it accepts.

use reqwest::header::{HeaderName, HeaderValue};
use vstd::prelude::*;
use crate::headers::{pairs_of, Headers};
use crate::text::text_of;
use crate::user_agent::UserAgent;

verus! {

/// What `HeaderName::from_bytes` makes of the bytes of `name`: the header
/// name in its normal form, or `None` where `name` is no header name.
pub uninterp spec fn header_name(name: Seq<char>) -> Option<Seq<char>>;

/// A character that a header value may hold: a tab, or any character from
/// the space on but the delete character.
pub open spec fn is_value_char(c: char) -> bool {
    (c as u32 >= 32 && c as u32 != 127) || c as u32 == 9
}

/// `value` can be sent as a header value.
pub open spec fn is_header_value(value: Seq<char>) -> bool {
    forall|i: int| 0 <= i < value.len() ==> is_value_char(#[trigger] value[i])
}

/// `HeaderName::from_bytes` on the bytes of `name`, with the name that it
/// gives copied into a string. The result is `None` where it returns an
/// error.
#[verifier::external_body]
fn normal_header_name(name: &str) -> (normal: Option<String>)
    ensures
        text_of(normal) == header_name(name@),
{
    HeaderName::from_bytes(name.as_bytes()).ok().map(|n| n.as_str().to_string())
}

/// `HeaderValue::from_str`: it accepts a string exactly if each of its bytes
/// is a tab or is at least 32 and not 127; the bytes of a character beyond
/// ASCII are all above 127.
#[verifier::external_body]
fn accepts_header_value(value: &str) -> (accepted: bool)
    ensures
        accepted == is_header_value(value@),
{
    HeaderValue::from_str(value).is_ok()
}

/// The field that an entry is sent as: its name in normal form with its
/// value, if the name is a header name and the value a header value.
pub open spec fn accepted_field(entry: (Seq<char>, Seq<char>)) -> Option<(Seq<char>, Seq<char>)> {
    match header_name(entry.0) {
        Some(name) => if is_header_value(entry.1) {
            Some((name, entry.1))
        } else {
            None
        },
        None => None,
    }
}

/// `base` with the accepted ones of the first `count` entries put in, one
/// after another.
pub open spec fn merged(
    base: Map<Seq<char>, Seq<char>>,
    entries: Seq<(Seq<char>, Seq<char>)>,
    count: int,
) -> Map<Seq<char>, Seq<char>>
    decreases count,
{
    if count <= 0 || count > entries.len() {
        base
    } else {
        let before = merged(base, entries, count - 1);
        match accepted_field(entries[count - 1]) {
            Some(field) => before.insert(field.0, field.1),
            None => before,
        }
    }
}

/// `base` with all accepted entries put in.
pub open spec fn merged_all(
    base: Map<Seq<char>, Seq<char>>,
    entries: Seq<(Seq<char>, Seq<char>)>,
) -> Map<Seq<char>, Seq<char>> {
    merged(base, entries, entries.len() as int)
}

/// Puts a field into `fields` under the normal form of its name, if it has
/// one and its value was accepted.
pub fn put_field(fields: &mut Headers, normal_name: Option<String>, accepted: bool, value: String)
    ensures
        final(fields)@ == match normal_name {
            Some(name) => if accepted {
                old(fields)@.insert(name@, value@)
            } else {
                old(fields)@
            },
            None => old(fields)@,
        },
{
    if let Some(name) = normal_name {
        if accepted {
            fields.insert(name, value);
        }
    }
}

/// Puts the accepted ones of `entries` into `fields`, in their order.
pub fn put_fields(fields: &mut Headers, entries: &Headers)
    ensures
        final(fields)@ == merged_all(old(fields)@, entries.pairs()),
{
    let pairs = entries.entries();
    let mut i: usize = 0;
    while i < pairs.len()
        invariant
            i <= pairs.len(),
            pairs_of(pairs@) == entries.pairs(),
            fields@ == merged(old(fields)@, entries.pairs(), i as int),
        decreases pairs.len() - i,
    {
        proof {
            assert(pairs_of(pairs@)[i as int] == (
                pairs@[i as int].0@,
                pairs@[i as int].1@,
            ));
        }
        let name = normal_header_name(pairs[i].0.as_str());
        let accepted = accepts_header_value(pairs[i].1.as_str());
        put_field(fields, name, accepted, pairs[i].1.clone());
        i += 1;
    }
}

/// The settings of the HTTP client: whether it goes through Tor, which
/// browser it passes for, and the headers that every request carries.
#[derive(Clone, Debug)]
pub struct Client {
    pub use_tor: bool,
    pub user_agent: UserAgent,
    pub default_headers: Headers,
}

impl Client {
    /// The settings of a client without headers of its own.
    pub fn new(use_tor: bool, user_agent: &UserAgent) -> (client: Self)
        ensures
            client.use_tor == use_tor,
            client.user_agent == *user_agent,
            client.default_headers@ == Map::<Seq<char>, Seq<char>>::empty(),
            client.default_headers.pairs() == Seq::<(Seq<char>, Seq<char>)>::empty(),
    {
        Self { use_tor, user_agent: *user_agent, default_headers: Headers::new() }
    }

    /// A short description of the client.
    pub fn to_text(&self) -> (text: String)
        ensures
            text@ == "Client()"@,
    {
        "Client()".to_owned()
    }

    /// Gives the header fields of a request: the client's own headers, then
    /// the extra ones, each under the normal form of its name; an entry that
    /// is no header field is left out, and a later field takes the place of
    /// an earlier one of the same name.
    pub fn convert_headers(&self, extra_headers: Option<&Headers>) -> (fields: Headers)
        ensures
            fields@ == match extra_headers {
                Some(extra) => merged_all(
                    merged_all(Map::empty(), self.default_headers.pairs()),
                    extra.pairs(),
                ),
                None => merged_all(Map::empty(), self.default_headers.pairs()),
            },
    {
        let mut fields = Headers::new();
        put_fields(&mut fields, &self.default_headers);
        if let Some(extra) = extra_headers {
            put_fields(&mut fields, extra);
        }
        fields
    }
}

} // verus!
