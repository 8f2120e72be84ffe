//! The response writer: serializing a status line, headers and body into
//! the bytes that go on the wire.
//!
//! A response is `{version} {status} {reason}\r\n`, one `{name}: {value}\r\n`
//! line per header, a blank line, and the body. The whole body is
//! materialized before anything is sent; the embedding program writes the
//! finished bytes to the connection in one call.

use vstd::prelude::*;
use vstd::string::StringSliceAdditionalSpecFns;

use crate::status::{canonical_reason, push_status_digits, reason_or_empty, status_digits, valid_status};

verus! {

/// The views of a response's headers: each name and value as bytes.
pub open spec fn header_views(hs: Seq<(&str, &str)>) -> Seq<(Seq<u8>, Seq<u8>)> {
    Seq::new(hs.len(), |i: int| (hs[i].0.spec_bytes(), hs[i].1.spec_bytes()))
}

/// One serialized header: `name: value` and a line ending.
pub open spec fn header_line(h: (Seq<u8>, Seq<u8>)) -> Seq<u8> {
    h.0 + seq![58u8, 32u8] + h.1 + seq![13u8, 10u8]
}

/// Every header line in order, serialized.
pub open spec fn headers_bytes(hs: Seq<(Seq<u8>, Seq<u8>)>) -> Seq<u8>
    decreases hs.len(),
{
    if hs.len() == 0 {
        Seq::empty()
    } else {
        headers_bytes(hs.drop_last()) + header_line(hs.last())
    }
}

/// A whole response on the wire: the status line with the code's digits and
/// canonical reason, the header lines, a blank line, and the body.
pub open spec fn spec_response_bytes(
    version: Seq<u8>,
    code: u16,
    headers: Seq<(Seq<u8>, Seq<u8>)>,
    body: Seq<u8>,
) -> Seq<u8> {
    version + seq![32u8] + status_digits(code) + seq![32u8] + reason_or_empty(code) + seq![
        13u8,
        10u8,
    ] + headers_bytes(headers) + seq![13u8, 10u8] + body
}

/// Appends a slice's bytes to a vector.
fn push_bytes(out: &mut Vec<u8>, data: &[u8])
    ensures
        final(out)@ == old(out)@ + data@,
{
    let n = data.len();
    let mut i: usize = 0;
    while i < n
        invariant
            n == data@.len(),
            i <= n,
            out@ == old(out)@ + data@.subrange(0, i as int),
        decreases n - i,
    {
        let b = *vstd::slice::slice_index_get(data, i);
        out.push(b);
        proof {
            assert(old(out)@ + data@.subrange(0, (i + 1) as int) =~= (old(out)@
                + data@.subrange(0, i as int)).push(data@[i as int]));
        }
        i = i + 1;
    }
    proof {
        assert(data@.subrange(0, n as int) =~= data@);
    }
}

/// An HTTP response under construction: the status line's pieces, the
/// headers, and — once a send operation has run — the serialized bytes
/// ready for the connection.
#[derive(Debug)]
pub struct Response {
    /// The status code of the response.
    pub status_code: u16,
    /// The version the status line names.
    pub http_version: &'static str,
    /// The headers, in the order they will be written.
    pub headers: Vec<(&'static str, &'static str)>,
    /// The serialized response, once one of the send operations has built
    /// it; the embedding program writes these bytes to the connection.
    pub wire: Option<Vec<u8>>,
}

impl Response {
    /// An empty response: status 200, version `HTTP/1.1`, no headers,
    /// nothing serialized yet.
    pub fn new() -> (r: Response)
        ensures
            r.status_code == 200,
            r.http_version@ == "HTTP/1.1"@,
            r.headers@.len() == 0,
            r.wire is None,
    {
        Response { status_code: 200, http_version: "HTTP/1.1", headers: Vec::new(), wire: None }
    }

    /// Serializes a response's status line, headers and the given body into
    /// wire bytes.
    pub fn construct_response_bytes(&self, response: &Response, body: &str) -> (r: Vec<u8>)
        requires
            valid_status(response.status_code),
        ensures
            r@ == spec_response_bytes(
                response.http_version.spec_bytes(),
                response.status_code,
                header_views(response.headers@),
                body.spec_bytes(),
            ),
    {
        let mut out: Vec<u8> = Vec::new();
        push_bytes(&mut out, response.http_version.as_bytes());
        out.push(32);
        push_status_digits(&mut out, response.status_code);
        out.push(32);
        match canonical_reason(response.status_code) {
            Some(reason) => push_bytes(&mut out, reason.as_bytes()),
            None => {},
        }
        out.push(13);
        out.push(10);
        let ghost head = response.http_version.spec_bytes() + seq![32u8] + status_digits(
            response.status_code,
        ) + seq![32u8] + reason_or_empty(response.status_code) + seq![13u8, 10u8];
        proof {
            assert(out@ =~= head);
        }
        let ghost hvs = header_views(response.headers@);
        let n = response.headers.len();
        let mut i: usize = 0;
        while i < n
            invariant
                n == response.headers@.len(),
                i <= n,
                hvs == header_views(response.headers@),
                out@ == head + headers_bytes(hvs.take(i as int)),
            decreases n - i,
        {
            let (name, value) = response.headers[i];
            push_bytes(&mut out, name.as_bytes());
            out.push(58);
            out.push(32);
            push_bytes(&mut out, value.as_bytes());
            out.push(13);
            out.push(10);
            proof {
                assert(hvs.take(i + 1).drop_last() =~= hvs.take(i as int));
                assert(hvs.take(i + 1).last() == hvs[i as int]);
                assert(out@ =~= head + (headers_bytes(hvs.take(i as int)) + header_line(
                    hvs[i as int],
                )));
            }
            i = i + 1;
        }
        proof {
            assert(hvs.take(n as int) =~= hvs);
        }
        out.push(13);
        out.push(10);
        push_bytes(&mut out, body.as_bytes());
        proof {
            assert(out@ =~= spec_response_bytes(
                response.http_version.spec_bytes(),
                response.status_code,
                hvs,
                body.spec_bytes(),
            ));
        }
        out
    }

    /// Serializes this response with the given body and holds the bytes for
    /// the connection to write.
    fn send(&mut self, body: &str)
        requires
            valid_status(old(self).status_code),
        ensures
            final(self).status_code == old(self).status_code,
            final(self).http_version == old(self).http_version,
            final(self).headers == old(self).headers,
            final(self).wire matches Some(w) && w@ == spec_response_bytes(
                old(self).http_version.spec_bytes(),
                old(self).status_code,
                header_views(old(self).headers@),
                body.spec_bytes(),
            ),
    {
        let bytes = self.construct_response_bytes(self, body);
        self.wire = Some(bytes);
    }

    /// Sets the status, appends a `Content-Type` header, and serializes the
    /// response with the given body.
    fn send_with_content_type(&mut self, content_type: &'static str, body: &str, status_code: u16)
        requires
            valid_status(status_code),
        ensures
            final(self).status_code == status_code,
            final(self).http_version == old(self).http_version,
            header_views(final(self).headers@) == header_views(old(self).headers@).push(
                ("Content-Type".spec_bytes(), content_type.spec_bytes()),
            ),
            final(self).wire matches Some(w) && w@ == spec_response_bytes(
                old(self).http_version.spec_bytes(),
                status_code,
                header_views(old(self).headers@).push(
                    ("Content-Type".spec_bytes(), content_type.spec_bytes()),
                ),
                body.spec_bytes(),
            ),
    {
        self.status_code = status_code;
        self.headers.push(("Content-Type", content_type));
        proof {
            assert(header_views(self.headers@) =~= header_views(old(self).headers@).push(
                ("Content-Type".spec_bytes(), content_type.spec_bytes()),
            ));
        }
        self.send(body);
    }

    /// Sends an HTML response: sets the status, adds the `Content-Type`
    /// header, and serializes the body.
    pub fn html(&mut self, body: &str, status_code: u16)
        requires
            valid_status(status_code),
        ensures
            final(self).status_code == status_code,
            final(self).http_version == old(self).http_version,
            header_views(final(self).headers@) == header_views(old(self).headers@).push(
                ("Content-Type".spec_bytes(), "text/html; charset=utf-8".spec_bytes()),
            ),
            final(self).wire matches Some(w) && w@ == spec_response_bytes(
                old(self).http_version.spec_bytes(),
                status_code,
                header_views(final(self).headers@),
                body.spec_bytes(),
            ),
    {
        self.send_with_content_type("text/html; charset=utf-8", body, status_code)
    }

    /// Sends a JSON response: sets the status, adds the `Content-Type`
    /// header, and serializes the body.
    pub fn json(&mut self, body: &str, status_code: u16)
        requires
            valid_status(status_code),
        ensures
            final(self).status_code == status_code,
            final(self).http_version == old(self).http_version,
            header_views(final(self).headers@) == header_views(old(self).headers@).push(
                ("Content-Type".spec_bytes(), "application/json".spec_bytes()),
            ),
            final(self).wire matches Some(w) && w@ == spec_response_bytes(
                old(self).http_version.spec_bytes(),
                status_code,
                header_views(final(self).headers@),
                body.spec_bytes(),
            ),
    {
        self.send_with_content_type("application/json", body, status_code)
    }

    /// Sends a plain text response: sets the status, adds the
    /// `Content-Type` header, and serializes the body.
    pub fn text(&mut self, body: &str, status_code: u16)
        requires
            valid_status(status_code),
        ensures
            final(self).status_code == status_code,
            final(self).http_version == old(self).http_version,
            header_views(final(self).headers@) == header_views(old(self).headers@).push(
                ("Content-Type".spec_bytes(), "text/plain; charset=utf-8".spec_bytes()),
            ),
            final(self).wire matches Some(w) && w@ == spec_response_bytes(
                old(self).http_version.spec_bytes(),
                status_code,
                header_views(final(self).headers@),
                body.spec_bytes(),
            ),
    {
        self.send_with_content_type("text/plain; charset=utf-8", body, status_code)
    }

    /// Sends a CSS response: sets the status, adds the `Content-Type`
    /// header, and serializes the body.
    pub fn css(&mut self, body: &str, status_code: u16)
        requires
            valid_status(status_code),
        ensures
            final(self).status_code == status_code,
            final(self).http_version == old(self).http_version,
            header_views(final(self).headers@) == header_views(old(self).headers@).push(
                ("Content-Type".spec_bytes(), "text/css; charset=utf-8".spec_bytes()),
            ),
            final(self).wire matches Some(w) && w@ == spec_response_bytes(
                old(self).http_version.spec_bytes(),
                status_code,
                header_views(final(self).headers@),
                body.spec_bytes(),
            ),
    {
        self.send_with_content_type("text/css; charset=utf-8", body, status_code)
    }

    /// Sends a JavaScript response: sets the status, adds the
    /// `Content-Type` header, and serializes the body.
    pub fn javascript(&mut self, body: &str, status_code: u16)
        requires
            valid_status(status_code),
        ensures
            final(self).status_code == status_code,
            final(self).http_version == old(self).http_version,
            header_views(final(self).headers@) == header_views(old(self).headers@).push(
                ("Content-Type".spec_bytes(), "application/javascript".spec_bytes()),
            ),
            final(self).wire matches Some(w) && w@ == spec_response_bytes(
                old(self).http_version.spec_bytes(),
                status_code,
                header_views(final(self).headers@),
                body.spec_bytes(),
            ),
    {
        self.send_with_content_type("application/javascript", body, status_code)
    }

    /// Sends an XML response: sets the status, adds the `Content-Type`
    /// header, and serializes the body.
    pub fn xml(&mut self, body: &str, status_code: u16)
        requires
            valid_status(status_code),
        ensures
            final(self).status_code == status_code,
            final(self).http_version == old(self).http_version,
            header_views(final(self).headers@) == header_views(old(self).headers@).push(
                ("Content-Type".spec_bytes(), "application/xml; charset=utf-8".spec_bytes()),
            ),
            final(self).wire matches Some(w) && w@ == spec_response_bytes(
                old(self).http_version.spec_bytes(),
                status_code,
                header_views(final(self).headers@),
                body.spec_bytes(),
            ),
    {
        self.send_with_content_type("application/xml; charset=utf-8", body, status_code)
    }

    /// Sends a PDF response: sets the status, adds the `Content-Type`
    /// header, and serializes the body.
    pub fn pdf(&mut self, body: &str, status_code: u16)
        requires
            valid_status(status_code),
        ensures
            final(self).status_code == status_code,
            final(self).http_version == old(self).http_version,
            header_views(final(self).headers@) == header_views(old(self).headers@).push(
                ("Content-Type".spec_bytes(), "application/pdf".spec_bytes()),
            ),
            final(self).wire matches Some(w) && w@ == spec_response_bytes(
                old(self).http_version.spec_bytes(),
                status_code,
                header_views(final(self).headers@),
                body.spec_bytes(),
            ),
    {
        self.send_with_content_type("application/pdf", body, status_code)
    }

    /// Sends a ZIP response: sets the status, adds the `Content-Type`
    /// header, and serializes the body.
    pub fn zip(&mut self, body: &str, status_code: u16)
        requires
            valid_status(status_code),
        ensures
            final(self).status_code == status_code,
            final(self).http_version == old(self).http_version,
            header_views(final(self).headers@) == header_views(old(self).headers@).push(
                ("Content-Type".spec_bytes(), "application/zip".spec_bytes()),
            ),
            final(self).wire matches Some(w) && w@ == spec_response_bytes(
                old(self).http_version.spec_bytes(),
                status_code,
                header_views(final(self).headers@),
                body.spec_bytes(),
            ),
    {
        self.send_with_content_type("application/zip", body, status_code)
    }

    /// Sends an MP3 audio response: sets the status, adds the
    /// `Content-Type` header, and serializes the body.
    pub fn audio_mp3(&mut self, body: &str, status_code: u16)
        requires
            valid_status(status_code),
        ensures
            final(self).status_code == status_code,
            final(self).http_version == old(self).http_version,
            header_views(final(self).headers@) == header_views(old(self).headers@).push(
                ("Content-Type".spec_bytes(), "audio/mpeg".spec_bytes()),
            ),
            final(self).wire matches Some(w) && w@ == spec_response_bytes(
                old(self).http_version.spec_bytes(),
                status_code,
                header_views(final(self).headers@),
                body.spec_bytes(),
            ),
    {
        self.send_with_content_type("audio/mpeg", body, status_code)
    }

    /// Sends an MP4 video response: sets the status, adds the
    /// `Content-Type` header, and serializes the body.
    pub fn video_mp4(&mut self, body: &str, status_code: u16)
        requires
            valid_status(status_code),
        ensures
            final(self).status_code == status_code,
            final(self).http_version == old(self).http_version,
            header_views(final(self).headers@) == header_views(old(self).headers@).push(
                ("Content-Type".spec_bytes(), "video/mp4".spec_bytes()),
            ),
            final(self).wire matches Some(w) && w@ == spec_response_bytes(
                old(self).http_version.spec_bytes(),
                status_code,
                header_views(final(self).headers@),
                body.spec_bytes(),
            ),
    {
        self.send_with_content_type("video/mp4", body, status_code)
    }

    /// Sends a PNG image response: sets the status, adds the
    /// `Content-Type` header, and serializes the body.
    pub fn image_png(&mut self, body: &str, status_code: u16)
        requires
            valid_status(status_code),
        ensures
            final(self).status_code == status_code,
            final(self).http_version == old(self).http_version,
            header_views(final(self).headers@) == header_views(old(self).headers@).push(
                ("Content-Type".spec_bytes(), "image/png".spec_bytes()),
            ),
            final(self).wire matches Some(w) && w@ == spec_response_bytes(
                old(self).http_version.spec_bytes(),
                status_code,
                header_views(final(self).headers@),
                body.spec_bytes(),
            ),
    {
        self.send_with_content_type("image/png", body, status_code)
    }

    /// Sends a JPEG image response: sets the status, adds the
    /// `Content-Type` header, and serializes the body.
    pub fn image_jpeg(&mut self, body: &str, status_code: u16)
        requires
            valid_status(status_code),
        ensures
            final(self).status_code == status_code,
            final(self).http_version == old(self).http_version,
            header_views(final(self).headers@) == header_views(old(self).headers@).push(
                ("Content-Type".spec_bytes(), "image/jpeg".spec_bytes()),
            ),
            final(self).wire matches Some(w) && w@ == spec_response_bytes(
                old(self).http_version.spec_bytes(),
                status_code,
                header_views(final(self).headers@),
                body.spec_bytes(),
            ),
    {
        self.send_with_content_type("image/jpeg", body, status_code)
    }

    /// Sends a GIF image response: sets the status, adds the
    /// `Content-Type` header, and serializes the body.
    pub fn image_gif(&mut self, body: &str, status_code: u16)
        requires
            valid_status(status_code),
        ensures
            final(self).status_code == status_code,
            final(self).http_version == old(self).http_version,
            header_views(final(self).headers@) == header_views(old(self).headers@).push(
                ("Content-Type".spec_bytes(), "image/gif".spec_bytes()),
            ),
            final(self).wire matches Some(w) && w@ == spec_response_bytes(
                old(self).http_version.spec_bytes(),
                status_code,
                header_views(final(self).headers@),
                body.spec_bytes(),
            ),
    {
        self.send_with_content_type("image/gif", body, status_code)
    }
}

} // verus!
