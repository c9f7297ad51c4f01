//! A signup: the form that comes in, the JSON payload that goes out to the
//! forwarding endpoint, and the acknowledgement the visitor sees.

use vstd::prelude::*;
use crate::config::Config;
use crate::text::{has_prefix, starts_with};
use crate::year::digit_char;
use crate::reply::{HttpReply, bad_form_reply, thanks_reply, failed_reply, wrong_form_type_reply,
    thanks_text, failed_text, bad_form_text, wrong_form_type_text};

verus! {

/// The name/value pairs, in order, that a URL-encoded form body decodes to.
pub uninterp spec fn form_pairs_of(body: Seq<u8>) -> Option<Seq<(Seq<char>, Seq<char>)>>;

/// The lowercase hexadecimal digit for `d`, below sixteen.
pub open spec fn hex_digit(d: nat) -> char {
    if d < 10 { digit_char(d) }
    else if d == 10 { 'a' }
    else if d == 11 { 'b' }
    else if d == 12 { 'c' }
    else if d == 13 { 'd' }
    else if d == 14 { 'e' }
    else { 'f' }
}

/// How one character is written inside a JSON string: quote and backslash
/// are escaped with a backslash, backspace, tab, line feed, form feed and
/// carriage return by their letter, other characters below U+0020 as
/// `\u00` and two hexadecimal digits; every other character stands as it is.
pub open spec fn json_escape_char(c: char) -> Seq<char> {
    if c == '"' { seq!['\\', '"'] }
    else if c == '\\' { seq!['\\', '\\'] }
    else if c == '\x08' { seq!['\\', 'b'] }
    else if c == '\t' { seq!['\\', 't'] }
    else if c == '\n' { seq!['\\', 'n'] }
    else if c == '\x0c' { seq!['\\', 'f'] }
    else if c == '\r' { seq!['\\', 'r'] }
    else if (c as u32) < 0x20 {
        seq!['\\', 'u', '0', '0', hex_digit((c as u32 / 16) as nat), hex_digit((c as u32 % 16) as nat)]
    } else {
        seq![c]
    }
}

/// The characters of `s`, each written as inside a JSON string.
pub open spec fn json_escaped(s: Seq<char>) -> Seq<char>
    decreases s.len(),
{
    if s.len() == 0 {
        Seq::empty()
    } else {
        json_escape_char(s[0]) + json_escaped(s.drop_first())
    }
}

/// The JSON string literal of `s`: its escaped characters between quotes.
pub open spec fn json_string_of(s: Seq<char>) -> Seq<char> {
    seq!['"'] + json_escaped(s) + seq!['"']
}

/// Whether `c` stands in a JSON string as it is.
pub open spec fn json_plain_char(c: char) -> bool {
    c != '"' && c != '\\' && c as u32 >= 0x20
}

/// Text with no quote, no backslash and no control character is written in
/// JSON as itself between quotes.
pub proof fn lemma_plain_text_quoted_as_is(s: Seq<char>)
    requires
        forall|i: int| 0 <= i < s.len() ==> json_plain_char(#[trigger] s[i]),
    ensures
        json_string_of(s) == seq!['"'] + s + seq!['"'],
{
    lemma_plain_text_escaped_as_is(s);
}

proof fn lemma_plain_text_escaped_as_is(s: Seq<char>)
    requires
        forall|i: int| 0 <= i < s.len() ==> json_plain_char(#[trigger] s[i]),
    ensures
        json_escaped(s) == s,
    decreases s.len(),
{
    if s.len() > 0 {
        let d = s.drop_first();
        assert forall|i: int| 0 <= i < d.len() implies json_plain_char(#[trigger] d[i]) by {
            assert(d[i] == s[i + 1]);
        }
        lemma_plain_text_escaped_as_is(d);
        assert(json_plain_char(s[0]));
        assert(json_escaped(s) =~= s);
    }
}

/// The value of a hexadecimal digit, small or capital.
pub open spec fn hex_value(c: char) -> int {
    if '0' <= c && c <= '9' {
        c as u32 - '0' as u32
    } else if 'a' <= c && c <= 'f' {
        c as u32 - 'a' as u32 + 10
    } else if 'A' <= c && c <= 'F' {
        c as u32 - 'A' as u32 + 10
    } else {
        0
    }
}

/// The code point that a backslash and the letter `e` stand for in a JSON
/// string; a backslash before any other character stands for that character.
pub open spec fn json_escape_code(e: char) -> int {
    if e == 'b' { 8 }
    else if e == 't' { 9 }
    else if e == 'n' { 10 }
    else if e == 'f' { 12 }
    else if e == 'r' { 13 }
    else { e as u32 as int }
}

/// The code points that the inside of a JSON string stands for, read from
/// the front: `\u` and four hexadecimal digits stand for the code they
/// spell, a backslash and one more character for `json_escape_code` of it,
/// and any other character for itself.
pub open spec fn json_unescaped(t: Seq<char>) -> Seq<int>
    decreases t.len(),
{
    if t.len() == 0 {
        Seq::empty()
    } else if t[0] != '\\' || t.len() < 2 {
        seq![t[0] as u32 as int] + json_unescaped(t.drop_first())
    } else if t[1] == 'u' && t.len() >= 6 {
        seq![
            hex_value(t[2]) * 4096 + hex_value(t[3]) * 256 + hex_value(t[4]) * 16 + hex_value(t[5]),
        ] + json_unescaped(t.skip(6))
    } else {
        seq![json_escape_code(t[1])] + json_unescaped(t.skip(2))
    }
}

/// The code points of the characters of `s`.
pub open spec fn code_points(s: Seq<char>) -> Seq<int> {
    s.map_values(|c: char| c as u32 as int)
}

proof fn lemma_hex_digit_value(d: nat)
    requires
        d < 16,
    ensures
        hex_value(hex_digit(d)) == d,
{
}

proof fn lemma_unescape_one(c: char, rest: Seq<char>)
    ensures
        json_unescaped(json_escape_char(c) + rest) == seq![c as u32 as int] + json_unescaped(rest),
{
    let t = json_escape_char(c) + rest;
    let k = json_escape_char(c).len();
    assert(t.skip(k as int) =~= rest);
    if k == 1 {
        assert(t.drop_first() =~= rest);
    } else if (c as u32) < 0x20 && c != '\x08' && c != '\t' && c != '\n' && c != '\x0c'
        && c != '\r' {
        let v = c as u32;
        lemma_hex_digit_value((v / 16) as nat);
        lemma_hex_digit_value((v % 16) as nat);
        assert(t[2] == '0' && t[3] == '0');
        assert(hex_value(t[4]) * 16 + hex_value(t[5]) == v);
    }
}

/// Serde_json's JSON string of `s` decodes back to the characters of `s`:
/// between the two quotes stand exactly the code points of `s`.
pub proof fn lemma_json_string_decodes_back(s: Seq<char>)
    ensures
        json_string_of(s).len() >= 2,
        json_string_of(s)[0] == '"',
        json_string_of(s).last() == '"',
        json_unescaped(json_string_of(s).subrange(1, json_string_of(s).len() - 1)) == code_points(
            s,
        ),
{
    lemma_escaped_decodes_back(s);
    assert(json_string_of(s).subrange(1, json_string_of(s).len() - 1) =~= json_escaped(s));
}

proof fn lemma_escaped_decodes_back(s: Seq<char>)
    ensures
        json_unescaped(json_escaped(s)) == code_points(s),
    decreases s.len(),
{
    if s.len() == 0 {
        assert(code_points(s) =~= Seq::<int>::empty());
    } else {
        lemma_escaped_decodes_back(s.drop_first());
        lemma_unescape_one(s[0], json_escaped(s.drop_first()));
        assert(code_points(s) =~= seq![s[0] as u32 as int] + code_points(s.drop_first()));
    }
}

/// Two texts with the same JSON string are the same text.
pub proof fn lemma_json_string_injective(a: Seq<char>, b: Seq<char>)
    requires
        json_string_of(a) == json_string_of(b),
    ensures
        a == b,
{
    lemma_json_string_decodes_back(a);
    lemma_json_string_decodes_back(b);
    assert(code_points(a).len() == a.len());
    assert(code_points(b).len() == b.len());
    assert forall|i: int| 0 <= i < a.len() implies a[i] == b[i] by {
        assert(code_points(a)[i] == code_points(b)[i]);
        vstd::utf8::char_u32_cast(a[i], a[i] as u32);
        vstd::utf8::char_u32_cast(b[i], b[i] as u32);
    }
    assert(a =~= b);
}

/// The text of each pair of strings.
pub open spec fn pairs_view(v: Seq<(String, String)>) -> Seq<(Seq<char>, Seq<char>)> {
    v.map_values(|p: (String, String)| (p.0@, p.1@))
}

/// Relies on `serde_urlencoded::from_bytes` read into a list of pairs: the
/// percent- and plus-decoded name/value pairs of the body, in order; the
/// outcome depends on the body alone.
#[verifier::external_body]
fn decode_form(body: &[u8]) -> (r: Option<Vec<(String, String)>>)
    ensures
        match r {
            Some(v) => form_pairs_of(body@) == Some(pairs_view(v@)),
            None => form_pairs_of(body@) is None,
        },
{
    serde_urlencoded::from_bytes::<Vec<(String, String)>>(body).ok()
}

/// Relies on `serde_json::to_string` on a string slice: it writes `s`
/// between quotes, escaping by serde_json's table of escapes. Serializing a
/// string does not fail.
#[verifier::external_body]
fn json_string(s: &str) -> (r: String)
    ensures
        r@ == json_string_of(s@),
{
    serde_json::to_string(s).unwrap_or_default()
}

/// A field of the signup form.
#[derive(PartialEq, Eq, Structural, Clone, Copy, Debug)]
pub enum Field {
    Name,
    Email,
}

/// The key under which a field is sent, in the form and in the payload.
pub open spec fn field_key(f: Field) -> Seq<char> {
    match f {
        Field::Name => "name"@,
        Field::Email => "email"@,
    }
}

/// Why a signup form is refused.
#[derive(PartialEq, Eq, Structural, Clone, Copy, Debug)]
pub enum FormError {
    /// The body is no URL-encoded form.
    Undecodable,
    /// The field is absent.
    Missing(Field),
    /// The field is given more than once.
    Duplicate(Field),
    /// The field is given with an empty value.
    Empty(Field),
}

/// A name and an email address, both non-empty, as submitted.
pub struct SignupSubmission {
    pub name: String,
    pub email: String,
}

/// How many pairs have key `k`.
pub open spec fn key_count(ps: Seq<(Seq<char>, Seq<char>)>, k: Seq<char>) -> nat
    decreases ps.len(),
{
    if ps.len() == 0 {
        0
    } else {
        key_count(ps.drop_last(), k) + if ps.last().0 == k { 1nat } else { 0nat }
    }
}

/// The value of the last pair with key `k`, or the empty text if there is none.
pub open spec fn value_for(ps: Seq<(Seq<char>, Seq<char>)>, k: Seq<char>) -> Seq<char>
    decreases ps.len(),
{
    if ps.len() == 0 {
        Seq::empty()
    } else if ps.last().0 == k {
        ps.last().1
    } else {
        value_for(ps.drop_last(), k)
    }
}

/// The value of field `f` among the pairs: given exactly once, and not empty.
pub open spec fn field_of(ps: Seq<(Seq<char>, Seq<char>)>, f: Field) -> Result<
    Seq<char>,
    FormError,
> {
    let c = key_count(ps, field_key(f));
    if c == 0 {
        Err(FormError::Missing(f))
    } else if c > 1 {
        Err(FormError::Duplicate(f))
    } else if value_for(ps, field_key(f)).len() == 0 {
        Err(FormError::Empty(f))
    } else {
        Ok(value_for(ps, field_key(f)))
    }
}

/// The name and email address among the pairs; the name is looked at first.
/// Pairs under other keys are ignored.
pub open spec fn submission_of(ps: Seq<(Seq<char>, Seq<char>)>) -> Result<
    (Seq<char>, Seq<char>),
    FormError,
> {
    match field_of(ps, Field::Name) {
        Err(e) => Err(e),
        Ok(n) => match field_of(ps, Field::Email) {
            Err(e) => Err(e),
            Ok(m) => Ok((n, m)),
        },
    }
}

/// The name and email address in a form body.
pub open spec fn signup_of(body: Seq<u8>) -> Result<(Seq<char>, Seq<char>), FormError> {
    match form_pairs_of(body) {
        None => Err(FormError::Undecodable),
        Some(ps) => submission_of(ps),
    }
}

fn key_text(f: Field) -> (r: String)
    ensures
        r@ == field_key(f),
{
    match f {
        Field::Name => String::from_str("name"),
        Field::Email => String::from_str("email"),
    }
}

/// The value of field `f` among the pairs.
pub fn field_value(pairs: &Vec<(String, String)>, f: Field) -> (r: Result<String, FormError>)
    ensures
        match field_of(pairs_view(pairs@), f) {
            Ok(v) => r matches Ok(s) && s@ == v,
            Err(e) => r matches Err(x) && x == e,
        },
{
    let key = key_text(f);
    let ghost ps = pairs_view(pairs@);
    let mut count: u64 = 0;
    let mut value = String::new();
    let mut i: usize = 0;
    while i < pairs.len()
        invariant
            ps == pairs_view(pairs@),
            key@ == field_key(f),
            i <= pairs@.len(),
            count == key_count(ps.take(i as int), key@),
            count <= i,
            value@ == value_for(ps.take(i as int), key@),
        decreases pairs@.len() - i,
    {
        assert(ps.take(i as int + 1).drop_last() =~= ps.take(i as int));
        if pairs[i].0 == key {
            count = count + 1;
            value = pairs[i].1.clone();
        }
        i = i + 1;
    }
    assert(ps.take(i as int) =~= ps);
    if count == 0 {
        Err(FormError::Missing(f))
    } else if count > 1 {
        Err(FormError::Duplicate(f))
    } else if value.unicode_len() == 0 {
        Err(FormError::Empty(f))
    } else {
        Ok(value)
    }
}

/// The submission made of the name and email address among the pairs.
pub fn submission_from_pairs(pairs: &Vec<(String, String)>) -> (r: Result<
    SignupSubmission,
    FormError,
>)
    ensures
        match submission_of(pairs_view(pairs@)) {
            Ok((n, m)) => r matches Ok(s) && s.name@ == n && s.email@ == m,
            Err(e) => r matches Err(x) && x == e,
        },
{
    let name = match field_value(pairs, Field::Name) {
        Ok(v) => v,
        Err(e) => return Err(e),
    };
    let email = match field_value(pairs, Field::Email) {
        Ok(v) => v,
        Err(e) => return Err(e),
    };
    Ok(SignupSubmission { name, email })
}

/// The submission in a URL-encoded form body.
pub fn parse_signup(body: &[u8]) -> (r: Result<SignupSubmission, FormError>)
    ensures
        match signup_of(body@) {
            Ok((n, m)) => r matches Ok(s) && s.name@ == n && s.email@ == m,
            Err(e) => r matches Err(x) && x == e,
        },
{
    match decode_form(body) {
        None => Err(FormError::Undecodable),
        Some(pairs) => submission_from_pairs(&pairs),
    }
}

/// The text of a JSON object whose members are the given keys with string
/// values, in order.
pub open spec fn json_object_text(members: Seq<(Seq<char>, Seq<char>)>) -> Seq<char> {
    "{"@ + json_members_text(members) + "}"@
}

/// The members of a JSON object, separated by commas.
pub open spec fn json_members_text(members: Seq<(Seq<char>, Seq<char>)>) -> Seq<char>
    decreases members.len(),
{
    if members.len() == 0 {
        Seq::empty()
    } else if members.len() == 1 {
        json_member_text(members[0])
    } else {
        json_members_text(members.drop_last()) + ","@ + json_member_text(members.last())
    }
}

/// One member of a JSON object: the key, a colon and the value, both as
/// JSON strings.
pub open spec fn json_member_text(m: (Seq<char>, Seq<char>)) -> Seq<char> {
    json_string_of(m.0) + ":"@ + json_string_of(m.1)
}

/// The payload forwarded for a signup of name `n` and email address `m`.
pub open spec fn payload_text(n: Seq<char>, m: Seq<char>) -> Seq<char> {
    "{"@ + json_string_of("name"@) + ":"@ + json_string_of(n) + ","@ + json_string_of("email"@)
        + ":"@ + json_string_of(m) + "}"@
}

/// The payload of a signup is a JSON object with exactly two members: the
/// key `name` with the submitted name, then the key `email` with the
/// submitted address.
pub proof fn lemma_payload_is_object_of_fields(n: Seq<char>, m: Seq<char>)
    ensures
        payload_text(n, m) == json_object_text(seq![("name"@, n), ("email"@, m)]),
{
    let ms = seq![("name"@, n), ("email"@, m)];
    assert(ms.drop_last() =~= seq![("name"@, n)]);
    assert(json_members_text(ms.drop_last()) == json_member_text(("name"@, n)));
    assert(payload_text(n, m) =~= json_object_text(ms));
}

/// The JSON payload of a submission.
pub fn forward_payload(sub: &SignupSubmission) -> (r: String)
    ensures
        r@ == payload_text(sub.name@, sub.email@),
{
    let mut out = String::from_str("{");
    let k = json_string("name");
    out.append(k.as_str());
    out.append(":");
    let v = json_string(sub.name.as_str());
    out.append(v.as_str());
    out.append(",");
    let k = json_string("email");
    out.append(k.as_str());
    out.append(":");
    let v = json_string(sub.email.as_str());
    out.append(v.as_str());
    out.append("}");
    out
}

/// The content type of the forwarded payload.
pub open spec fn json_content_type() -> Seq<char> {
    "application/json"@
}

/// An outbound POST: where it goes, its content type and its body.
pub struct ForwardPost {
    pub url: String,
    pub content_type: String,
    pub body: String,
}

/// What a signup request leads to: one POST to the forwarding endpoint, or
/// a reply at once.
pub enum SignupPlan {
    Forward(ForwardPost),
    Reject(HttpReply),
}

/// The content type of a URL-encoded form.
pub open spec fn form_content_type() -> Seq<char> {
    "application/x-www-form-urlencoded"@
}

/// Whether a request with this `Content-Type` value carries a URL-encoded
/// form: the value begins with the form's type (parameters may follow).
pub open spec fn is_form_content_type(content_type: Option<&str>) -> bool {
    content_type matches Some(t) && starts_with(t@, form_content_type())
}

/// The step taken on a signup request, given the value of its
/// `Content-Type` header (if it has one that is text) and its body. A
/// request that is no URL-encoded form is refused as an unsupported media
/// type. A form with a name and an email address is forwarded, once, as a
/// JSON payload to the configured URL; any other form is answered with a
/// client error. Nothing is sent for a refused request.
pub fn plan_signup(config: &Config, content_type: Option<&str>, body: &[u8]) -> (r: SignupPlan)
    ensures
        if is_form_content_type(content_type) {
            match signup_of(body@) {
                Ok((n, m)) => r matches SignupPlan::Forward(p) && {
                    &&& p.url@ == config.forward_url@
                    &&& p.content_type@ == json_content_type()
                    &&& p.body@ == payload_text(n, m)
                },
                Err(_) => r matches SignupPlan::Reject(rep) && {
                    &&& rep.status == 400
                    &&& rep.cache_control is None
                    &&& rep.body@ == bad_form_text()
                },
            }
        } else {
            r matches SignupPlan::Reject(rep) && {
                &&& rep.status == 415
                &&& rep.cache_control is None
                &&& rep.body@ == wrong_form_type_text()
            }
        },
{
    let is_form = match content_type {
        Some(t) => has_prefix(t, "application/x-www-form-urlencoded"),
        None => false,
    };
    if !is_form {
        return SignupPlan::Reject(wrong_form_type_reply());
    }
    match parse_signup(body) {
        Ok(sub) => SignupPlan::Forward(
            ForwardPost {
                url: config.forward_url.clone(),
                content_type: String::from_str("application/json"),
                body: forward_payload(&sub),
            },
        ),
        Err(_) => SignupPlan::Reject(bad_form_reply()),
    }
}

/// How the forwarding POST ended.
#[derive(PartialEq, Eq, Structural, Clone, Copy, Debug)]
pub enum ForwardOutcome {
    /// The endpoint answered, with this status code.
    Completed(u16),
    /// No answer came: the host could not be reached, or the exchange broke off.
    TransportFailed,
}

/// The reply to a forwarded signup. Any answer from the endpoint, whatever
/// its status code, counts as delivered; only a transport failure is
/// reported as a failed signup.
pub fn finish_signup(outcome: ForwardOutcome) -> (r: HttpReply)
    ensures
        r.status == 200,
        r.cache_control is None,
        match outcome {
            ForwardOutcome::Completed(_) => r.body@ == thanks_text(),
            ForwardOutcome::TransportFailed => r.body@ == failed_text(),
        },
{
    match outcome {
        ForwardOutcome::Completed(_) => thanks_reply(),
        ForwardOutcome::TransportFailed => failed_reply(),
    }
}

} // verus!
