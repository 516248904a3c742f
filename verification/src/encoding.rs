//! The content encodings that a response body may come in.

use vstd::prelude::*;
use crate::text::same_text;

verus! {

/// The decoder for a content encoding.
#[derive(Clone, Copy, Debug, PartialEq, Eq, Structural)]
pub enum ContentDecoder {
    Brotli,
    Bzip2,
    Deflate,
    Gzip,
    Lzma,
    Xz,
    Zlib,
    Zstd,
    Deflate64,
    Unknown,
}

/// The name of the encoding that `decoder` is for.
pub open spec fn encoding_name(decoder: ContentDecoder) -> Seq<char> {
    match decoder {
        ContentDecoder::Brotli => "brotli"@,
        ContentDecoder::Bzip2 => "bzip2"@,
        ContentDecoder::Deflate => "deflate"@,
        ContentDecoder::Gzip => "gzip"@,
        ContentDecoder::Lzma => "lzma"@,
        ContentDecoder::Xz => "xz"@,
        ContentDecoder::Zlib => "zlib"@,
        ContentDecoder::Zstd => "zstd"@,
        ContentDecoder::Deflate64 => "dflate64"@,
        ContentDecoder::Unknown => "unknown"@,
    }
}

/// The decoder for the encoding called `name`; `Unknown` for a name that is
/// none of the known ones.
pub open spec fn decoder_named(name: Seq<char>) -> ContentDecoder {
    if name == "brotli"@ {
        ContentDecoder::Brotli
    } else if name == "bzip2"@ {
        ContentDecoder::Bzip2
    } else if name == "deflate"@ {
        ContentDecoder::Deflate
    } else if name == "gzip"@ {
        ContentDecoder::Gzip
    } else if name == "lzma"@ {
        ContentDecoder::Lzma
    } else if name == "xz"@ {
        ContentDecoder::Xz
    } else if name == "zlib"@ {
        ContentDecoder::Zlib
    } else if name == "zstd"@ {
        ContentDecoder::Zstd
    } else if name == "dflate64"@ {
        ContentDecoder::Deflate64
    } else {
        ContentDecoder::Unknown
    }
}

impl ContentDecoder {
    /// The name of the encoding.
    pub fn as_str(&self) -> (name: &'static str)
        ensures
            name@ == encoding_name(*self),
    {
        match self {
            ContentDecoder::Brotli => "brotli",
            ContentDecoder::Bzip2 => "bzip2",
            ContentDecoder::Deflate => "deflate",
            ContentDecoder::Gzip => "gzip",
            ContentDecoder::Lzma => "lzma",
            ContentDecoder::Xz => "xz",
            ContentDecoder::Zlib => "zlib",
            ContentDecoder::Zstd => "zstd",
            ContentDecoder::Deflate64 => "dflate64",
            ContentDecoder::Unknown => "unknown",
        }
    }

    /// The decoder for the encoding with this name.
    pub fn from_str(s: &str) -> (decoder: Self)
        ensures
            decoder == decoder_named(s@),
    {
        if same_text(s, "brotli") {
            ContentDecoder::Brotli
        } else if same_text(s, "bzip2") {
            ContentDecoder::Bzip2
        } else if same_text(s, "deflate") {
            ContentDecoder::Deflate
        } else if same_text(s, "gzip") {
            ContentDecoder::Gzip
        } else if same_text(s, "lzma") {
            ContentDecoder::Lzma
        } else if same_text(s, "xz") {
            ContentDecoder::Xz
        } else if same_text(s, "zlib") {
            ContentDecoder::Zlib
        } else if same_text(s, "zstd") {
            ContentDecoder::Zstd
        } else if same_text(s, "dflate64") {
            ContentDecoder::Deflate64
        } else {
            ContentDecoder::Unknown
        }
    }

    /// Tells whether `other` is the name of this decoder's encoding.
    pub fn eq_name(&self, other: &str) -> (same: bool)
        ensures
            same == (encoding_name(*self) == other@),
    {
        same_text(self.as_str(), other)
    }
}

/// The name of a decoder's encoding leads back to the decoder.
pub proof fn lemma_encoding_name_round_trip(decoder: ContentDecoder)
    ensures
        decoder_named(encoding_name(decoder)) == decoder,
{
    reveal_strlit("brotli");
    reveal_strlit("bzip2");
    reveal_strlit("deflate");
    reveal_strlit("gzip");
    reveal_strlit("lzma");
    reveal_strlit("xz");
    reveal_strlit("zlib");
    reveal_strlit("zstd");
    reveal_strlit("dflate64");
    reveal_strlit("unknown");
    let name = encoding_name(decoder);
    assert("gzip"@[0] != "lzma"@[0] && "gzip"@[0] != "zlib"@[0] && "gzip"@[0] != "zstd"@[0]);
    assert("lzma"@[0] != "zlib"@[0] && "lzma"@[0] != "zstd"@[0]);
    assert("zlib"@[1] != "zstd"@[1]);
    assert("brotli"@.len() == 6 && "bzip2"@.len() == 5 && "deflate"@.len() == 7 && "gzip"@.len()
        == 4 && "xz"@.len() == 2 && "dflate64"@.len() == 8 && "unknown"@.len() == 7);
    assert("deflate"@[0] != "unknown"@[0]);
}

} // verus!
