//! Text helpers: the few std string operations the library relies on, and
//! the input rules built from them.
use vstd::prelude::*;

verus! {

/// Whether `c` is white space as `char::is_whitespace` reads it: the
/// characters with Unicode's White_Space property.
pub open spec fn is_white(c: char) -> bool {
    let u = c as u32;
    (0x9 <= u && u <= 0xD) || u == 0x20 || u == 0x85 || u == 0xA0 || u == 0x1680 || (0x2000 <= u
        && u <= 0x200A) || u == 0x2028 || u == 0x2029 || u == 0x202F || u == 0x205F || u == 0x3000
}

/// `s` without its leading white space.
pub open spec fn trim_front(s: Seq<char>) -> Seq<char>
    decreases s.len(),
{
    if s.len() > 0 && is_white(s[0]) {
        trim_front(s.subrange(1, s.len() as int))
    } else {
        s
    }
}

/// `s` without its trailing white space.
pub open spec fn trim_back(s: Seq<char>) -> Seq<char>
    decreases s.len(),
{
    if s.len() > 0 && is_white(s.last()) {
        trim_back(s.drop_last())
    } else {
        s
    }
}

/// The characters of `s` without leading and trailing white space.
pub open spec fn trimmed(s: Seq<char>) -> Seq<char> {
    trim_back(trim_front(s))
}

/// The lower-case form of `s`, as `str::to_lowercase` gives it.
pub uninterp spec fn lowercased(s: Seq<char>) -> Seq<char>;

/// Whether `s` begins with `p`.
pub open spec fn begins_with(s: Seq<char>, p: Seq<char>) -> bool {
    p.len() <= s.len() && s.subrange(0, p.len() as int) == p
}

/// Whether `s` ends with `p`.
pub open spec fn finishes_with(s: Seq<char>, p: Seq<char>) -> bool {
    p.len() <= s.len() && s.subrange(s.len() - p.len(), s.len() as int) == p
}

/// `s` with every leading copy of a non-empty `p` removed.
pub open spec fn without_leading(s: Seq<char>, p: Seq<char>) -> Seq<char>
    decreases s.len(),
{
    if p.len() > 0 && begins_with(s, p) {
        without_leading(s.subrange(p.len() as int, s.len() as int), p)
    } else {
        s
    }
}

/// `s` with every trailing copy of a non-empty `p` removed.
pub open spec fn without_trailing(s: Seq<char>, p: Seq<char>) -> Seq<char>
    decreases s.len(),
{
    if p.len() > 0 && finishes_with(s, p) {
        without_trailing(s.subrange(0, s.len() - p.len()), p)
    } else {
        s
    }
}

/// Relies on `str::trim`: leading and trailing characters for which
/// `char::is_whitespace` holds removed.
#[verifier::external_body]
pub(crate) fn trim(s: &str) -> (r: &str)
    ensures
        r@ == trimmed(s@),
{
    s.trim()
}

/// Relies on `str::to_lowercase`: the result depends on the characters alone.
#[verifier::external_body]
pub(crate) fn to_lowercase(s: &str) -> (r: String)
    ensures
        r@ == lowercased(s@),
{
    s.to_lowercase()
}

/// Relies on `str::trim_start_matches` with a string pattern: all leading
/// copies of the pattern removed, repeatedly.
#[verifier::external_body]
pub(crate) fn trim_start_matches<'a>(s: &'a str, p: &str) -> (r: &'a str)
    ensures
        r@ == without_leading(s@, p@),
{
    s.trim_start_matches(p)
}

/// Relies on `str::trim_end_matches` with a string pattern: all trailing
/// copies of the pattern removed, repeatedly.
#[verifier::external_body]
pub(crate) fn trim_end_matches<'a>(s: &'a str, p: &str) -> (r: &'a str)
    ensures
        r@ == without_trailing(s@, p@),
{
    s.trim_end_matches(p)
}

/// Relies on `str::strip_prefix` with a string pattern: the rest of `s` when
/// it begins with `p`, else nothing.
#[verifier::external_body]
pub(crate) fn strip_prefix<'a>(s: &'a str, p: &str) -> (r: Option<&'a str>)
    ensures
        begins_with(s@, p@) ==> r is Some && r.unwrap()@ == s@.subrange(p@.len() as int, s@.len() as int),
        !begins_with(s@, p@) ==> r is None,
{
    s.strip_prefix(p)
}

/// The text of a model reply with a surrounding Markdown code fence removed.
pub open spec fn unfenced(reply: Seq<char>) -> Seq<char> {
    trimmed(
        without_trailing(
            without_leading(without_leading(trimmed(reply), "```json"@), "```"@),
            "```"@,
        ),
    )
}

/// Removes white space and a Markdown code fence (with or without a `json`
/// tag) around a model reply, leaving the text inside.
pub fn strip_code_fence(reply: &str) -> (r: String)
    ensures
        r@ == unfenced(reply@),
{
    let a = trim(reply);
    let b = trim_start_matches(a, "```json");
    let c = trim_start_matches(b, "```");
    let d = trim_end_matches(c, "```");
    let e = trim(d);
    e.to_owned()
}

/// Why a message was turned down.
#[derive(Debug, Clone, Copy, PartialEq, Eq)]
pub enum MessageError {
    /// Nothing but white space was sent.
    Empty,
}

/// Checks a chat or direct message: its text without surrounding white
/// space, which must not be empty.
pub fn validate_message(content: &str) -> (r: Result<String, MessageError>)
    ensures
        r is Ok <==> trimmed(content@).len() > 0,
        r matches Ok(t) ==> t@ == trimmed(content@),
{
    let t = trim(content);
    if t.is_empty() {
        Err(MessageError::Empty)
    } else {
        Ok(t.to_owned())
    }
}

/// The token of an `Authorization` header of the form `Bearer <token>`.
pub fn bearer_token(header: &str) -> (r: Option<String>)
    ensures
        begins_with(header@, "Bearer "@) ==> r is Some && r.unwrap()@ == header@.subrange(
            7,
            header@.len() as int,
        ),
        !begins_with(header@, "Bearer "@) ==> r is None,
{
    proof {
        reveal_strlit("Bearer ");
    }
    match strip_prefix(header, "Bearer ") {
        Some(t) => Some(t.to_owned()),
        None => None,
    }
}

} // verus!
