//! What the planner reads of a response: its header fields.

use vstd::prelude::*;
use crate::decimal::{parse_decimal, parse_u64};
use crate::encoding::{decoder_named, ContentDecoder};
use crate::text::{eq_ignoring_case, from_chars, same_ignoring_case, text_of};

verus! {

/// The views of the header fields, in order.
pub open spec fn fields_of(headers: Seq<(String, Vec<u8>)>) -> Seq<(Seq<char>, Seq<u8>)> {
    headers.map_values(|f: (String, Vec<u8>)| (f.0@, f.1@))
}

/// The value of the first field from position `from` on whose name is
/// `name` but for the case of its letters.
pub open spec fn first_value(fields: Seq<(Seq<char>, Seq<u8>)>, name: Seq<char>, from: int) -> Option<
    Seq<u8>,
>
    decreases fields.len() - from,
{
    if from < 0 || from >= fields.len() {
        None
    } else if same_ignoring_case(fields[from].0, name) {
        Some(fields[from].1)
    } else {
        first_value(fields, name, from + 1)
    }
}

/// The byte is a visible ASCII character, a space or a tab.
pub open spec fn is_visible_ascii(byte: u8) -> bool {
    (32 <= byte < 127) || byte == 9
}

/// The bytes as text, where each of them is a visible ASCII character, a
/// space or a tab; `None` where one is not.
pub open spec fn visible_text(bytes: Seq<u8>) -> Option<Seq<char>> {
    if forall|i: int| 0 <= i < bytes.len() ==> is_visible_ascii(#[trigger] bytes[i]) {
        Some(bytes.map_values(|b: u8| b as char))
    } else {
        None
    }
}

/// The text of the header called `name`: that of the first field with this
/// name, if there is one and its value is readable as text.
pub open spec fn header_text(fields: Seq<(Seq<char>, Seq<u8>)>, name: Seq<char>) -> Option<Seq<char>> {
    match first_value(fields, name, 0) {
        Some(bytes) => visible_text(bytes),
        None => None,
    }
}

/// The length that the header fields announce, where the `Content-Length`
/// field holds a decimal number.
pub open spec fn announced_length(fields: Seq<(Seq<char>, Seq<u8>)>) -> Option<u64> {
    match header_text(fields, "content-length"@) {
        Some(text) => parse_decimal(text),
        None => None,
    }
}

/// The decoder that the body needs: the one that the `Content-Encoding`
/// field names, or none where the field is missing.
pub open spec fn needed_decoder(fields: Seq<(Seq<char>, Seq<u8>)>) -> Option<ContentDecoder> {
    match header_text(fields, "content-encoding"@) {
        Some(name) => Some(decoder_named(name)),
        None => None,
    }
}

/// The header fields of a response, each a name and the bytes of its value,
/// in the order in which they were received.
#[derive(Debug)]
pub struct Response {
    headers: Vec<(String, Vec<u8>)>,
}

impl View for Response {
    type V = Seq<(Seq<char>, Seq<u8>)>;

    closed spec fn view(&self) -> Seq<(Seq<char>, Seq<u8>)> {
        fields_of(self.headers@)
    }
}

/// Reads bytes as text, if each of them is a visible ASCII character, a
/// space or a tab.
pub fn read_visible(bytes: &Vec<u8>) -> (text: Option<String>)
    ensures
        text_of(text) == visible_text(bytes@),
{
    let mut chars: Vec<char> = Vec::new();
    let mut i: usize = 0;
    while i < bytes.len()
        invariant
            i <= bytes.len(),
            forall|j: int| 0 <= j < i ==> is_visible_ascii(#[trigger] bytes@[j]),
            chars@ == bytes@.take(i as int).map_values(|b: u8| b as char),
        decreases bytes.len() - i,
    {
        let b: u8 = bytes[i];
        if !((b >= 32 && b < 127) || b == 9) {
            return None;
        }
        chars.push(b as char);
        proof {
            assert(chars@ =~= bytes@.take(i + 1).map_values(|b: u8| b as char));
        }
        i += 1;
    }
    proof {
        assert(bytes@.take(i as int) =~= bytes@);
    }
    Some(from_chars(&chars))
}

impl Response {
    /// The response with these header fields.
    pub fn new(headers: Vec<(String, Vec<u8>)>) -> (response: Self)
        ensures
            response@ == fields_of(headers@),
    {
        Self { headers }
    }

    /// Gives the text of the header called `name`, whatever the case of its
    /// letters.
    pub fn get_from_header(&self, name: &str) -> (text: Option<String>)
        ensures
            text_of(text) == header_text(self@, name@),
    {
        let mut i: usize = 0;
        while i < self.headers.len()
            invariant
                i <= self.headers.len(),
                first_value(self@, name@, 0) == first_value(self@, name@, i as int),
            decreases self.headers.len() - i,
        {
            if eq_ignoring_case(self.headers[i].0.as_str(), name) {
                return read_visible(&self.headers[i].1);
            }
            i += 1;
        }
        None
    }

    pub fn accept_ranges(&self) -> (text: Option<String>)
        ensures
            text_of(text) == header_text(self@, "accept-ranges"@),
    {
        self.get_from_header("accept-ranges")
    }

    pub fn content_disposition(&self) -> (text: Option<String>)
        ensures
            text_of(text) == header_text(self@, "content-disposition"@),
    {
        self.get_from_header("content-disposition")
    }

    pub fn content_type(&self) -> (text: Option<String>)
        ensures
            text_of(text) == header_text(self@, "content-type"@),
    {
        self.get_from_header("content-type")
    }

    pub fn content_encoding(&self) -> (text: Option<String>)
        ensures
            text_of(text) == header_text(self@, "content-encoding"@),
    {
        self.get_from_header("content-encoding")
    }

    /// Gives the length that the response announces.
    pub fn content_length(&self) -> (length: Option<u64>)
        ensures
            length == announced_length(self@),
    {
        match self.get_from_header("content-length") {
            Some(text) => parse_u64(text.as_str()),
            None => None,
        }
    }

    /// Says how the body is to be read as text: through the decoder that is
    /// returned, or as it is where none is.
    pub fn text_decoder(&self) -> (decoder: Option<ContentDecoder>)
        ensures
            decoder == needed_decoder(self@),
    {
        match self.content_encoding() {
            Some(name) => Some(ContentDecoder::from_str(name.as_str())),
            None => None,
        }
    }
}

} // verus!
