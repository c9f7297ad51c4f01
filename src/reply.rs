//! What a request gets back: a status code, an optional cache directive and
//! an HTML body.

use vstd::prelude::*;

verus! {

/// An HTTP reply with an HTML body.
pub struct HttpReply {
    pub status: u16,
    /// The value of the `Cache-Control` header, when the reply carries one.
    pub cache_control: Option<String>,
    pub body: String,
}

/// The cache directive of the landing page.
pub open spec fn landing_cache_text() -> Seq<char> {
    "public, max-age=900"@
}

/// The body of a signup whose payload reached the forwarding endpoint.
pub open spec fn thanks_text() -> Seq<char> {
    "<p>Thank you for signing up!</p>"@
}

/// The body of a signup whose payload could not be delivered.
pub open spec fn failed_text() -> Seq<char> {
    "<p>Failed to sign up. Please try again later.</p>"@
}

/// The body of a reply to a signup form that cannot be read.
pub open spec fn bad_form_text() -> Seq<char> {
    "<p>The signup form needs a name and an email address.</p>"@
}

/// The body of a reply to a signup that is not sent as a URL-encoded form.
pub open spec fn wrong_form_type_text() -> Seq<char> {
    "<p>The signup form must be sent as application/x-www-form-urlencoded.</p>"@
}

/// The body of a reply when the landing page cannot be rendered.
pub open spec fn render_failed_text() -> Seq<char> {
    "<p>Internal server error.</p>"@
}

/// The landing page as rendered, or the server error when rendering failed.
pub fn landing_reply(rendered: Option<String>) -> (r: HttpReply)
    ensures
        match rendered {
            Some(page) => {
                &&& r.status == 200
                &&& r.cache_control matches Some(c) && c@ == landing_cache_text()
                &&& r.body@ == page@
            },
            None => r.status == 500 && r.cache_control is None && r.body@ == render_failed_text(),
        },
{
    match rendered {
        Some(page) => HttpReply {
            status: 200,
            cache_control: Some(String::from_str("public, max-age=900")),
            body: page,
        },
        None => HttpReply {
            status: 500,
            cache_control: None,
            body: String::from_str("<p>Internal server error.</p>"),
        },
    }
}

/// A successful reply with a fixed body and no cache directive.
fn plain_ok(body: &str) -> (r: HttpReply)
    ensures
        r.status == 200,
        r.cache_control is None,
        r.body@ == body@,
{
    HttpReply { status: 200, cache_control: None, body: String::from_str(body) }
}

/// The acknowledgement of a signup that was forwarded.
pub fn thanks_reply() -> (r: HttpReply)
    ensures
        r.status == 200,
        r.cache_control is None,
        r.body@ == thanks_text(),
{
    plain_ok("<p>Thank you for signing up!</p>")
}

/// The reply to a signup that could not be forwarded.
pub fn failed_reply() -> (r: HttpReply)
    ensures
        r.status == 200,
        r.cache_control is None,
        r.body@ == failed_text(),
{
    plain_ok("<p>Failed to sign up. Please try again later.</p>")
}

/// The reply to a signup form that is malformed or lacks a field.
pub fn bad_form_reply() -> (r: HttpReply)
    ensures
        r.status == 400,
        r.cache_control is None,
        r.body@ == bad_form_text(),
{
    HttpReply {
        status: 400,
        cache_control: None,
        body: String::from_str("<p>The signup form needs a name and an email address.</p>"),
    }
}

/// The reply to a signup whose content type is not that of a URL-encoded form.
pub fn wrong_form_type_reply() -> (r: HttpReply)
    ensures
        r.status == 415,
        r.cache_control is None,
        r.body@ == wrong_form_type_text(),
{
    HttpReply {
        status: 415,
        cache_control: None,
        body: String::from_str(
            "<p>The signup form must be sent as application/x-www-form-urlencoded.</p>",
        ),
    }
}

} // verus!
