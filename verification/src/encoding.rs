//! Content-encoding tokens for `Transfer-Encoding` and `Accept-Encoding`
//! header values.

use vstd::prelude::*;

use crate::strutil::str_eq;

verus! {

/// A value to represent an encoding used in `Transfer-Encoding` or
/// `Accept-Encoding` headers.
#[derive(Debug, Clone, PartialEq, Eq)]
pub enum Encoding {
    /// The `chunked` encoding.
    Chunked,
    /// The `br` encoding.
    Brotli,
    /// The `gzip` encoding.
    Gzip,
    /// The `deflate` encoding.
    Deflate,
    /// The `compress` encoding.
    Compress,
    /// The `identity` encoding.
    Identity,
    /// The `trailers` encoding.
    Trailers,
    /// The `zstd` encoding.
    Zstd,
    /// Some other, less common encoding: any text.
    EncodingExt(String),
}

impl Encoding {
    /// The header text of this encoding.
    pub open spec fn spec_str(&self) -> Seq<char> {
        match self {
            Encoding::Chunked => "chunked"@,
            Encoding::Brotli => "br"@,
            Encoding::Gzip => "gzip"@,
            Encoding::Deflate => "deflate"@,
            Encoding::Compress => "compress"@,
            Encoding::Identity => "identity"@,
            Encoding::Trailers => "trailers"@,
            Encoding::Zstd => "zstd"@,
            Encoding::EncodingExt(s) => s@,
        }
    }

    /// Which encoding the text `s` names: each known token its variant, any
    /// other text the extension variant holding the text itself.
    pub open spec fn spec_of(s: Seq<char>, r: Encoding) -> bool {
        if s == "chunked"@ {
            r == Encoding::Chunked
        } else if s == "br"@ {
            r == Encoding::Brotli
        } else if s == "deflate"@ {
            r == Encoding::Deflate
        } else if s == "gzip"@ {
            r == Encoding::Gzip
        } else if s == "compress"@ {
            r == Encoding::Compress
        } else if s == "identity"@ {
            r == Encoding::Identity
        } else if s == "trailers"@ {
            r == Encoding::Trailers
        } else if s == "zstd"@ {
            r == Encoding::Zstd
        } else {
            r matches Encoding::EncodingExt(x) && x@ == s
        }
    }

    /// The header text of this encoding.
    pub fn as_str(&self) -> (r: &str)
        ensures
            r@ == self.spec_str(),
    {
        match self {
            Encoding::Chunked => "chunked",
            Encoding::Brotli => "br",
            Encoding::Gzip => "gzip",
            Encoding::Deflate => "deflate",
            Encoding::Compress => "compress",
            Encoding::Identity => "identity",
            Encoding::Trailers => "trailers",
            Encoding::Zstd => "zstd",
            Encoding::EncodingExt(s) => s.as_str(),
        }
    }

    /// Parses a header token into its encoding. Every text parses: an
    /// unknown token becomes the extension variant holding the text.
    pub fn from_str(s: &str) -> (r: Encoding)
        ensures
            Encoding::spec_of(s@, r),
    {
        if str_eq(s, "chunked") {
            Encoding::Chunked
        } else if str_eq(s, "br") {
            Encoding::Brotli
        } else if str_eq(s, "deflate") {
            Encoding::Deflate
        } else if str_eq(s, "gzip") {
            Encoding::Gzip
        } else if str_eq(s, "compress") {
            Encoding::Compress
        } else if str_eq(s, "identity") {
            Encoding::Identity
        } else if str_eq(s, "trailers") {
            Encoding::Trailers
        } else if str_eq(s, "zstd") {
            Encoding::Zstd
        } else {
            Encoding::EncodingExt(s.to_owned())
        }
    }
}

/// Law: parsing a header token and printing the result gives the token
/// back unchanged, for every text.
pub proof fn lemma_encoding_round_trip(s: Seq<char>, r: Encoding)
    requires
        Encoding::spec_of(s, r),
    ensures
        r.spec_str() == s,
{
}

} // verus!
