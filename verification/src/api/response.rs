//! HTTP response contents for rendered images.

use vstd::prelude::*;

use crate::application::render_image::RenderedImage;
use crate::text::{chars_of, decimal, push_decimal, push_str, string_from_chars};

verus! {

/// The `Cache-Control` value for images kept `cached_time` seconds.
pub open spec fn cache_control_of(cached_time: u64) -> Seq<char> {
    "public, max-age="@ + decimal(cached_time as nat) + ", must-revalidate"@
}

/// The `Cache-Control` value for images kept `cached_time` seconds.
pub fn cache_control(cached_time: u64) -> (s: String)
    ensures
        s@ == cache_control_of(cached_time),
{
    let mut out = chars_of("public, max-age=");
    push_decimal(&mut out, cached_time);
    push_str(&mut out, ", must-revalidate");
    string_from_chars(out.as_slice())
}

/// The first second (since the Unix epoch) of the year 10000, from which
/// `httpdate` formats no date.
pub const HTTP_DATE_END: u64 = 253_402_300_800;

/// The IMF-fixdate (`Sun, 06 Nov 1994 08:49:37 GMT`) of the instant `secs`
/// seconds after the Unix epoch.
pub uninterp spec fn http_date_of(secs: u64) -> Seq<char>;

/// `httpdate::fmt_http_date` on the instant `secs` seconds after the Unix
/// epoch: the result is named [`http_date_of`], a function of `secs` alone.
/// The crate panics from the year 10000 on, hence the `requires`.
#[verifier::external_body]
fn http_date(secs: u64) -> (s: String)
    requires
        secs < HTTP_DATE_END,
    ensures
        s@ == http_date_of(secs),
{
    httpdate::fmt_http_date(std::time::UNIX_EPOCH + std::time::Duration::from_secs(secs))
}

/// The headers and body of an image response.
pub struct ImageResponse {
    pub content_type: String,
    pub cache_control: String,
    /// The `Expires` date: `cached_time` seconds after the response is made.
    pub expires: String,
    /// An explicit `Content-Length`, sent for `HEAD` only.
    pub content_length: Option<u64>,
    pub body: Vec<u8>,
}

/// Adds cache headers and the correct `GET` or `HEAD` body: a `HEAD` states
/// the length and sends no body, a `GET` sends the image bytes. `now` is
/// the current time in whole seconds since the Unix epoch.
pub fn image_response(image: RenderedImage, head_only: bool, cached_time: u64, now: u64) -> (r: ImageResponse)
    requires
        now + cached_time < HTTP_DATE_END,
    ensures
        r.content_type@ == image.content_type@,
        r.cache_control@ == cache_control_of(cached_time),
        r.expires@ == http_date_of((now + cached_time) as u64),
        head_only ==> r.content_length == Some(image.content_length) && r.body@.len() == 0,
        !head_only ==> r.content_length is None && r.body@ == match image.body {
            Some(b) => b@,
            None => Seq::<u8>::empty(),
        },
{
    let cache_control = cache_control(cached_time);
    let expires = http_date(now + cached_time);
    if head_only {
        ImageResponse {
            content_type: image.content_type,
            cache_control,
            expires,
            content_length: Some(image.content_length),
            body: Vec::new(),
        }
    } else {
        let body = match image.body {
            Some(b) => b,
            None => Vec::new(),
        };
        ImageResponse { content_type: image.content_type, cache_control, expires, content_length: None, body }
    }
}

} // verus!
