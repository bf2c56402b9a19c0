//! The replies that carry a block's bitmap and its picture.

use vstd::prelude::*;
use vstd::utf8::encode_utf8;

use crate::cache::clone_bytes;
use crate::error::{image_error, AppError, OK};

verus! {

/// The size of the compressor's buffer.
pub const BROTLI_BUFFER: usize = 4096;

/// How hard the compressor tries.
pub const BROTLI_QUALITY: u32 = 5;

/// The logarithm of the compressor's window.
pub const BROTLI_WINDOW: u32 = 22;

/// A reply: its status code, its headers in order, and its body.
#[derive(Debug)]
pub struct HttpResponse {
    pub status: u16,
    pub headers: Vec<(String, String)>,
    pub body: Vec<u8>,
}

/// What a reply says.
pub struct ResponseView {
    pub status: u16,
    pub headers: Seq<(Seq<char>, Seq<char>)>,
    pub body: Seq<u8>,
}

impl View for HttpResponse {
    type V = ResponseView;

    open spec fn view(&self) -> ResponseView {
        ResponseView {
            status: self.status,
            headers: self.headers@.map_values(|h: (String, String)| (h.0@, h.1@)),
            body: self.body@,
        }
    }
}

/// Whether a byte may stand in the value of a header.
pub open spec fn is_header_byte(b: u8) -> bool {
    (b >= 32 && b != 127) || b == 9
}

/// Whether a text can be the value of a header.
pub open spec fn is_header_value(s: Seq<char>) -> bool {
    forall|i: int| 0 <= i < encode_utf8(s).len() ==> is_header_byte(#[trigger] encode_utf8(s)[i])
}

/// The error of the standard library's input and output, `std::io::Error`.
#[verifier::external_type_specification]
#[verifier::external_body]
pub struct ExIoError(std::io::Error);

/// The streams that the `brotli` crate may make of `input`, written through a buffer of
/// `buffer_size` bytes with the given quality and window, flushed and finished.
pub uninterp spec fn brotli_streams(
    input: Seq<u8>,
    buffer_size: usize,
    quality: u32,
    window: u32,
) -> Set<Seq<u8>>;

/// Calls `brotli::CompressorWriter::new` on an empty vector, writes all of `input` to it, flushes
/// and drops it, which finishes the stream; what is then in the vector is returned. The compressor
/// fails only where its output cannot be written, which does not happen to a vector, or where it
/// is used out of order, so it always succeeds here. What it returns is one of the streams that it
/// may make of the arguments. Which one is left open: where the compressor splits its input
/// depends on logarithms whose precision the standard library does not fix.
#[verifier::external_body]
fn brotli_write(input: &[u8], buffer_size: usize, quality: u32, window: u32) -> (r: Result<
    Vec<u8>,
    std::io::Error,
>)
    requires
        buffer_size == BROTLI_BUFFER,
        quality == BROTLI_QUALITY,
        window == BROTLI_WINDOW,
    ensures
        r is Ok,
        r matches Ok(out) ==> brotli_streams(input@, buffer_size, quality, window).contains(out@),
{
    let mut output = Vec::new();
    let mut writer = brotli::CompressorWriter::new(&mut output, buffer_size, quality, window);
    std::io::Write::write_all(&mut writer, input)?;
    std::io::Write::flush(&mut writer)?;
    drop(writer);
    Ok(output)
}

/// Calls `http::HeaderValue::from_str`, which takes a text whose UTF-8 bytes are all visible or
/// opaque, a space or a tab, and refuses every other.
#[verifier::external_body]
fn header_value_from_str(value: &str) -> (r: bool)
    ensures
        r == is_header_value(value@),
{
    axum::http::HeaderValue::from_str(value).is_ok()
}

/// Tests whether a text can be the value of a header.
pub fn can_be_header(value: &str) -> (r: bool)
    ensures
        r == is_header_value(value@),
{
    header_value_from_str(value)
}

/// Compresses bytes the way that bitmaps are sent.
pub fn brotli_compress(input: &[u8]) -> (r: Option<Vec<u8>>)
    ensures
        r is Some,
        brotli_streams(input@, BROTLI_BUFFER, BROTLI_QUALITY, BROTLI_WINDOW).contains((r->0)@),
{
    match brotli_write(input, BROTLI_BUFFER, BROTLI_QUALITY, BROTLI_WINDOW) {
        Ok(out) => Some(out),
        Err(_) => None,
    }
}

/// What the reply with a block's bitmap says, where `compressed` is what the compressor made of
/// it; where the compressor failed, the plain bitmap is sent.
pub open spec fn bitmap_reply(
    hash: Seq<char>,
    payload: Seq<u8>,
    compressed: Option<Seq<u8>>,
) -> ResponseView {
    ResponseView {
        status: OK,
        headers: seq![
            ("content-type"@, "application/octet-stream"@),
            ("cache-control"@, "public, max-age=31536000, immutable"@),
            ("content-encoding"@, "br"@),
            ("x-block-hash"@, hash),
        ],
        body: match compressed {
            Some(bytes) => bytes,
            None => payload,
        },
    }
}

/// What the reply with a block's picture says.
pub open spec fn picture_reply(png: Seq<u8>) -> ResponseView {
    ResponseView {
        status: OK,
        headers: seq![
            ("content-type"@, "image/png"@),
            ("cache-control"@, "public, max-age=86400, immutable"@),
        ],
        body: png,
    }
}

/// A header.
fn header(name: &str, value: &str) -> (r: (String, String))
    ensures
        (r.0@, r.1@) == (name@, value@),
{
    (name.to_owned(), value.to_owned())
}

/// Makes the reply with a block's bitmap of what the compressor returned.
pub fn compressed_response(hash: &str, payload: &Vec<u8>, compressed: Option<Vec<u8>>) -> (r:
    HttpResponse)
    requires
        is_header_value(hash@),
    ensures
        r@ == bitmap_reply(
            hash@,
            payload@,
            match compressed {
                Some(bytes) => Some(bytes@),
                None => None,
            },
        ),
{
    let body: Vec<u8> = match compressed {
        Some(bytes) => bytes,
        None => clone_bytes(payload),
    };
    let mut headers: Vec<(String, String)> = Vec::new();
    headers.push(header("content-type", "application/octet-stream"));
    headers.push(header("cache-control", "public, max-age=31536000, immutable"));
    headers.push(header("content-encoding", "br"));
    headers.push(header("x-block-hash", hash));
    let r: HttpResponse = HttpResponse { status: OK, headers, body };
    assert(r@.headers =~= seq![
        ("content-type"@, "application/octet-stream"@),
        ("cache-control"@, "public, max-age=31536000, immutable"@),
        ("content-encoding"@, "br"@),
        ("x-block-hash"@, hash@),
    ]);
    r
}

/// Makes the reply with a block's bitmap: its body is a compressed stream of the bitmap.
pub fn binary_response(hash: &str, payload: &Vec<u8>) -> (r: HttpResponse)
    requires
        is_header_value(hash@),
    ensures
        exists|out: Seq<u8>| #[trigger]
            brotli_streams(payload@, BROTLI_BUFFER, BROTLI_QUALITY, BROTLI_WINDOW).contains(out)
                && r@ == bitmap_reply(hash@, payload@, Some(out)),
{
    let compressed: Option<Vec<u8>> = brotli_compress(payload.as_slice());
    compressed_response(hash, payload, compressed)
}

/// Makes the reply with a block's picture of what the encoder returned.
pub fn picture_response(png: Option<Vec<u8>>) -> (r: Result<HttpResponse, AppError>)
    ensures
        r is Ok <==> png is Some,
        r matches Ok(response) ==> response@ == picture_reply((png->0)@),
        r matches Err(e) ==> e@ == image_error(),
{
    match png {
        Some(body) => {
            let mut headers: Vec<(String, String)> = Vec::new();
            headers.push(header("content-type", "image/png"));
            headers.push(header("cache-control", "public, max-age=86400, immutable"));
            let response: HttpResponse = HttpResponse { status: OK, headers, body };
            assert(response@.headers =~= seq![
                ("content-type"@, "image/png"@),
                ("cache-control"@, "public, max-age=86400, immutable"@),
            ]);
            Ok(response)
        },
        None => Err(AppError::image()),
    }
}

/// A reply is described by its status code, its headers in order, and its body.
pub proof fn law_response_view(response: HttpResponse)
    ensures
        response@.status == response.status,
        response@.headers.len() == response.headers@.len(),
        forall|i: int|
            0 <= i < response.headers@.len() ==> {
                &&& (#[trigger] response@.headers[i]).0 == response.headers@[i].0@
                &&& response@.headers[i].1 == response.headers@[i].1@
            },
        response@.body == response.body@,
{
}

/// A header may hold tabs, and every byte but the control characters.
pub proof fn law_header_value(s: Seq<char>)
    ensures
        is_header_value(s) <==> forall|b: u8| #[trigger]
            encode_utf8(s).contains(b) ==> b == 9 || 32 <= b <= 126 || b >= 128,
{
    let bytes = encode_utf8(s);
    if is_header_value(s) {
        assert forall|b: u8| #[trigger] bytes.contains(b) implies b == 9 || 32 <= b <= 126 || b
            >= 128 by {
            let i = choose|i: int| 0 <= i < bytes.len() && bytes[i] == b;
            assert(is_header_byte(bytes[i]));
        }
    }
    if forall|b: u8| #[trigger] bytes.contains(b) ==> b == 9 || 32 <= b <= 126 || b >= 128 {
        assert forall|i: int| 0 <= i < bytes.len() implies is_header_byte(#[trigger] bytes[i]) by {
            assert(bytes.contains(bytes[i]));
        }
    }
}

/// The reply with a bitmap carries what the compressor made of it, whole, or the whole bitmap
/// where the compressor made nothing; it is marked as compressed bytes that may be kept for ever,
/// and carries the block's hash.
pub proof fn law_bitmap_reply(hash: Seq<char>, payload: Seq<u8>, out: Seq<u8>)
    ensures
        bitmap_reply(hash, payload, Some(out)).body == out,
        bitmap_reply(hash, payload, None).body == payload,
        forall|compressed: Option<Seq<u8>>|
            {
                let reply = #[trigger] bitmap_reply(hash, payload, compressed);
                &&& reply.status == 200
                &&& reply.headers.len() == 4
                &&& reply.headers[0] == ("content-type"@, "application/octet-stream"@)
                &&& reply.headers[1] == (
                    "cache-control"@,
                    "public, max-age=31536000, immutable"@,
                )
                &&& reply.headers[2] == ("content-encoding"@, "br"@)
                &&& reply.headers[3] == ("x-block-hash"@, hash)
            },
{
}

/// The reply with a picture carries the whole file, marked as a PNG picture that may be kept for
/// a day.
pub proof fn law_picture_reply(png: Seq<u8>)
    ensures
        picture_reply(png).body == png,
        picture_reply(png).status == 200,
        picture_reply(png).headers.len() == 2,
        picture_reply(png).headers[0] == ("content-type"@, "image/png"@),
        picture_reply(png).headers[1] == ("cache-control"@, "public, max-age=86400, immutable"@),
{
}

/// Bitmaps are compressed through a buffer of 4096 bytes with quality 5 and a window of 22 bits.
pub proof fn law_compressor()
    ensures
        BROTLI_BUFFER == 4096,
        BROTLI_QUALITY == 5,
        BROTLI_WINDOW == 22,
{
}

} // verus!
