//! Content negotiation: whether a response body is sent as it is or
//! compressed.

use vstd::prelude::*;

verus! {

/// A content coding, as a client or a server names it.
#[derive(Clone, Copy, Debug, PartialEq, Eq, Structural)]
pub enum Encoding {
    /// `chunked`
    Chunked,
    /// `br`
    Brotli,
    /// `gzip`
    Gzip,
    /// `deflate`
    Deflate,
    /// `compress`
    Compress,
    /// `identity`
    Identity,
    /// `trailers`
    Trailers,
    /// Any coding that has no variant of its own.
    Other,
}

/// The weight that a client gives to one of its choices, in thousandths.
#[derive(Clone, Copy, Debug, PartialEq, Eq)]
pub struct Quality(u16);

impl Quality {
    /// The weight in thousandths, from 0 to 1000.
    pub closed spec fn thousandths(&self) -> nat {
        self.0 as nat
    }

    /// The weight in thousandths, from 0 to 1000.
    pub fn value(&self) -> (v: u16)
        ensures
            v == self.thousandths(),
    {
        self.0
    }
}

/// The weight of `val` thousandths.
pub fn q(val: u16) -> (quality: Quality)
    requires
        val <= 1000,
    ensures
        quality.thousandths() == val,
{
    Quality(val)
}

/// One choice of a client, with its weight.
#[derive(Clone, Copy, Debug, PartialEq, Eq)]
pub struct QualityItem {
    /// What the client accepts.
    pub item: Encoding,
    /// How much it prefers it.
    pub quality: Quality,
}

/// The codings that a client accepts, in the order in which it named them.
#[derive(Clone, Debug, PartialEq, Eq)]
pub struct AcceptEncoding(pub Vec<QualityItem>);

impl View for AcceptEncoding {
    type V = Seq<QualityItem>;

    open spec fn view(&self) -> Seq<QualityItem> {
        self.0@
    }
}

/// Whether `deflate` is among the codings that the client named. Weights
/// play no part.
pub open spec fn accepts_deflate(accepted: Seq<QualityItem>) -> bool {
    exists|i: int| 0 <= i < accepted.len() && (#[trigger] accepted[i]).item == Encoding::Deflate
}

/// The coding in which a body is sent to a client that sent the given
/// list of accepted codings, or none.
pub open spec fn negotiated(accepted: Option<Seq<QualityItem>>) -> Encoding {
    match accepted {
        Some(list) if accepts_deflate(list) => Encoding::Deflate,
        _ => Encoding::Identity,
    }
}

/// The DEFLATE stream that the compressor makes of `data` at its default
/// level.
pub uninterp spec fn deflate_stream(data: Seq<u8>) -> Seq<u8>;

/// The bytes that carry `data` in the coding `encoding`.
pub open spec fn encoded(data: Seq<u8>, encoding: Encoding) -> Seq<u8> {
    if encoding == Encoding::Deflate {
        deflate_stream(data)
    } else {
        data
    }
}

/// Calls `deflate::deflate_bytes`, which compresses the whole of `data` in
/// one go at the default level and returns the raw DEFLATE stream, without
/// header or checksum. The stream depends on `data` alone.
#[verifier::external_body]
fn deflate(data: &[u8]) -> (stream: Vec<u8>)
    ensures
        stream@ == deflate_stream(data@),
{
    deflate::deflate_bytes(data)
}

/// Copies `data` into a buffer of its own.
pub fn to_buffer(data: &[u8]) -> (buffer: Vec<u8>)
    ensures
        buffer@ == data@,
{
    let mut buffer: Vec<u8> = Vec::with_capacity(data.len());
    buffer.extend_from_slice(data);
    buffer
}

/// Tells whether `deflate` is among the codings of `header`.
pub fn wants_deflate(header: &AcceptEncoding) -> (found: bool)
    ensures
        found == accepts_deflate(header@),
{
    let mut idx: usize = 0;
    while idx < header.0.len()
        invariant
            idx <= header.0.len(),
            forall|i: int| 0 <= i < idx ==> (#[trigger] header@[i]).item != Encoding::Deflate,
        decreases header.0.len() - idx,
    {
        if header.0[idx].item == Encoding::Deflate {
            return true;
        }
        idx = idx + 1;
    }
    false
}

/// Picks the coding for a client that sent `header`, or no such header.
pub fn negotiate(header: &Option<AcceptEncoding>) -> (encoding: Encoding)
    ensures
        encoding == negotiated(accepted_list(*header)),
{
    match header {
        Some(list) => {
            if wants_deflate(list) {
                Encoding::Deflate
            } else {
                Encoding::Identity
            }
        },
        None => Encoding::Identity,
    }
}

/// The list that an optional header holds.
pub open spec fn accepted_list(header: Option<AcceptEncoding>) -> Option<Seq<QualityItem>> {
    match header {
        Some(list) => Some(list@),
        None => None,
    }
}

/// Puts `data` into the coding `encoding`: compressed for `Deflate`, copied
/// for every other coding.
pub fn encode(data: &[u8], encoding: Encoding) -> (body: Vec<u8>)
    ensures
        body@ == encoded(data@, encoding),
{
    if encoding == Encoding::Deflate {
        deflate(data)
    } else {
        to_buffer(data)
    }
}

/// The body for a client that sent the accepted codings `header`: the
/// compressed `data` where `deflate` is among them, a copy of `data` where
/// it is not.
pub fn to_encoded_buffer(data: &[u8], header: &AcceptEncoding) -> (body: Vec<u8>)
    ensures
        body@ == encoded(data@, negotiated(Some(header@))),
{
    if wants_deflate(header) {
        deflate(data)
    } else {
        to_buffer(data)
    }
}

} // verus!
