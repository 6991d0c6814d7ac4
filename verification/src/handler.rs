//! The request pipeline: routing, resolution, generation, rendering and
//! encoding, composed into one pure function from request data to a
//! response description.
//!
//! No HTTP plumbing lives here: the caller hands in the method, the path
//! and the raw query string, and takes back a status, headers and a body.

use vstd::prelude::*;
use crate::codec::{encode_jpeg, encode_png, jpeg_of, png_of, JPEG_QUALITY};
use crate::color::{background, background_color};
use crate::options::{
    resolve, resolve_spec, str_range_eq, OptionsFormat, OptionsModel, ResolveError,
};
use crate::pattern::{cells_of, fg_of, generate, sha512_of};
use crate::render::{image_bytes, render};

verus! {

/// The request method, as far as routing cares.
#[derive(Clone, Copy, Debug, PartialEq, Eq, Structural)]
pub enum HttpMethod {
    Get,
    Head,
    Post,
    Put,
    Delete,
    Options,
    Patch,
    Other,
}

/// A response body: plain text or encoded image bytes.
pub enum ResponseBody {
    Text(String),
    Bytes(Vec<u8>),
}

/// A platform-independent description of the HTTP response.
pub struct HttpResponse {
    /// HTTP status code.
    pub status: u16,
    /// Value for the Content-Type header.
    pub content_type: String,
    /// Value for the Cache-Control header; empty when none is to be sent.
    pub cache_control: String,
    /// Whether the permissive CORS headers are to be sent.
    pub cors: bool,
    /// The response body.
    pub body: ResponseBody,
}

/// The plain-text usage guide served when no seed is given.
pub const GUIDE_TEXT: &'static str = "Identicon generator\n---\n\nOptions:\n    - hash: random string for generating identicon (required)\n    - scale: pattern scale <number> (default: 500)\n    - size: pattern seed size, should not larger than scale <number> (default: 5)\n    - border: edge border <number> (default: 50)\n    - format: image format <png/jpeg> (default: png)\n\nExample: /?hash=magic&format=png\n";

/// The Content-Type value for each output format.
pub open spec fn mime_of(f: OptionsFormat) -> Seq<char> {
    match f {
        OptionsFormat::PNG => "image/png"@,
        OptionsFormat::JPG => "image/jpeg"@,
    }
}

/// The uncompressed canvas that resolved options produce: the pattern of
/// the seed's digest, rendered at the options' scale and border.
pub open spec fn rendered_of(o: OptionsModel) -> Seq<u8> {
    image_bytes(
        o.size,
        cells_of(sha512_of(o.hash), o.size),
        fg_of(sha512_of(o.hash)),
        o.scale,
        o.border,
        background(),
    )
}

/// The encoded image that resolved options produce.
pub open spec fn encoded_of(o: OptionsModel) -> Seq<u8> {
    match o.format {
        OptionsFormat::PNG => png_of(o.scale, o.scale, rendered_of(o)),
        OptionsFormat::JPG => jpeg_of(o.scale, o.scale, JPEG_QUALITY, rendered_of(o)),
    }
}

/// Whether a square canvas of this scale fits the machine: three bytes
/// per pixel must fit a `usize`.
pub open spec fn canvas_fits(scale: u32) -> bool {
    3 * (scale as int) * (scale as int) <= usize::MAX as int
}

/// Whether the chosen encoder accepts a square canvas of this scale: PNG
/// refuses a zero dimension, JPEG anything outside 1 to 65535.
pub open spec fn encoder_accepts(f: OptionsFormat, scale: u32) -> bool {
    match f {
        OptionsFormat::PNG => scale > 0,
        OptionsFormat::JPG => 1 <= scale <= 65535,
    }
}

/// Law: the pipeline is deterministic — the encoded image bytes are a
/// function of the resolved options alone, so two successful responses to
/// the same options carry identical bodies.
pub proof fn lemma_pipeline_deterministic(o: OptionsModel, b1: Seq<u8>, b2: Seq<u8>)
    requires
        b1 == encoded_of(o),
        b2 == encoded_of(o),
    ensures
        b1 == b2,
{
}

/// A plain-text response with the given status and message, without
/// caching or CORS headers.
fn error_response(status: u16, msg: &str) -> (r: HttpResponse)
    ensures
        r.status == status,
        (r.body matches ResponseBody::Text(t) && t@ == msg@),
        r.content_type@ == "text/plain"@,
        r.cache_control@ == Seq::<char>::empty(),
        !r.cors,
{
    HttpResponse {
        status,
        content_type: "text/plain".to_owned(),
        cache_control: String::new(),
        cors: false,
        body: ResponseBody::Text(msg.to_owned()),
    }
}

/// The usage-guide response: a success, not an error.
fn guide_response() -> (r: HttpResponse)
    ensures
        r.status == 200,
        (r.body matches ResponseBody::Text(t) && t@ == GUIDE_TEXT@),
        r.content_type@ == "text/plain"@,
        r.cache_control@ == Seq::<char>::empty(),
        !r.cors,
{
    HttpResponse {
        status: 200,
        content_type: "text/plain".to_owned(),
        cache_control: String::new(),
        cors: false,
        body: ResponseBody::Text(GUIDE_TEXT.to_owned()),
    }
}

/// A successful image response: the encoded bytes with their MIME type,
/// the caching policy and the permissive CORS headers.
fn success_response(bytes: Vec<u8>, format: OptionsFormat) -> (r: HttpResponse)
    ensures
        r.status == 200,
        (r.body matches ResponseBody::Bytes(b) && b@ == bytes@),
        r.content_type@ == mime_of(format),
        r.cache_control@ == "public,max-age=36000"@,
        r.cors,
{
    let content_type = match format {
        OptionsFormat::PNG => "image/png".to_owned(),
        OptionsFormat::JPG => "image/jpeg".to_owned(),
    };
    HttpResponse {
        status: 200,
        content_type,
        cache_control: "public,max-age=36000".to_owned(),
        cors: true,
        body: ResponseBody::Bytes(bytes),
    }
}

/// Whether two strings spell the same characters.
fn str_eq_whole(s: &str, t: &str) -> (r: bool)
    ensures
        r == (s@ == t@),
{
    let n = s.unicode_len();
    proof {
        assert(s@.subrange(0, n as int) =~= s@);
    }
    str_range_eq(s, 0, n, t)
}

/// Handles one request: routes on method and path, resolves the query
/// string, and either serves the guide, rejects the request, or generates,
/// renders and encodes the identicon.
///
/// The whole pipeline is deterministic: on success the body is exactly the
/// encoding of the canvas that the resolved options determine.
pub fn handle_request(method: HttpMethod, path: &str, query: &str) -> (r: HttpResponse)
    ensures
        !(method is Get) ==> r.status == 405 && (r.body matches ResponseBody::Text(t)
            && t@ == "Method not allowed"@),
        method is Get && path@ != "/"@ ==> r.status == 404 && (r.body
            matches ResponseBody::Text(t) && t@ == "Not Found"@),
        r.status != 200 || r.body is Text ==> r.content_type@ == "text/plain"@
            && r.cache_control@ == Seq::<char>::empty() && !r.cors,
        method is Get && path@ == "/"@ ==> match resolve_spec(query@) {
            Err(e) => {
                &&& e is Malformed ==> r.status == 400 && (r.body matches ResponseBody::Text(t)
                    && t@ == "Bad request"@)
                &&& e is EmptySeed ==> r.status == 200 && (r.body matches ResponseBody::Text(t)
                    && t@ == GUIDE_TEXT@)
                &&& e is Unprocessable ==> r.status == 422 && (r.body
                    matches ResponseBody::Text(t)
                    && t@ == "Un-processable Entity: size should not larger than scale"@)
            },
            Ok(o) => {
                &&& (r.status == 200) <==> canvas_fits(o.scale) && encoder_accepts(
                    o.format,
                    o.scale,
                )
                &&& r.status == 200 || r.status == 500
                &&& r.status == 200 ==> {
                    &&& r.content_type@ == mime_of(o.format)
                    &&& r.cache_control@ == "public,max-age=36000"@
                    &&& r.cors
                    &&& (r.body matches ResponseBody::Bytes(b) && b@ == encoded_of(o))
                }
                &&& r.status == 500 ==> (r.body matches ResponseBody::Text(t)
                    && t@ == "Internal Server Error"@)
            },
        },
{
    match method {
        HttpMethod::Get => {},
        _ => {
            return error_response(405, "Method not allowed");
        },
    }
    if !str_eq_whole(path, "/") {
        return error_response(404, "Not Found");
    }
    match resolve(query) {
        Err(ResolveError::Malformed) => error_response(400, "Bad request"),
        Err(ResolveError::EmptySeed) => guide_response(),
        Err(ResolveError::Unprocessable) => error_response(
            422,
            "Un-processable Entity: size should not larger than scale",
        ),
        Ok(opts) => {
            let s128: u128 = opts.scale as u128;
            proof {
                assert(3 * (s128 as int) * (s128 as int) <= u128::MAX as int)
                    by (nonlinear_arith)
                    requires
                        0 <= s128 as int <= 0xffff_ffffu64 as int,
                ;
            }
            let need: u128 = 3u128 * s128 * s128;
            if need > usize::MAX as u128 {
                return error_response(500, "Internal Server Error");
            }
            proof {
                let sc = opts.scale as int;
                assert(need as int == 3 * sc * sc);
                assert((opts.size as int) * (opts.size as int) <= sc * sc)
                    by (nonlinear_arith)
                    requires
                        0 <= opts.size as int <= sc,
                ;
                assert(sc * sc <= 3 * sc * sc) by (nonlinear_arith)
                    requires
                        sc >= 0,
                ;
            }
            let grid = generate(opts.hash.as_str(), opts.size);
            let img = render(&grid, opts.scale, opts.border, background_color());
            let encoded = match opts.format {
                OptionsFormat::PNG => encode_png(img.width, img.height, &img.pixels),
                OptionsFormat::JPG => encode_jpeg(img.width, img.height, JPEG_QUALITY, &img.pixels),
            };
            match encoded {
                Some(bytes) => success_response(bytes, opts.format),
                None => error_response(500, "Internal Server Error"),
            }
        },
    }
}

} // verus!
