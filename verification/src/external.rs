//! The boundary with code that is not verified here.
//!
//! Each item below either declares a type of another crate so that it can be
//! carried through verified code, or states what a single function of
//! another crate (or of `std`) returns. These statements are taken on trust;
//! everything else in the crate is proved from them.

use std::time::Duration;
use vstd::prelude::*;
use vstd::string::StringSliceAdditionalSpecFns;
use vstd::utf8::{decode_utf8, valid_utf8};

verus! {

/// `serde_json::Value`: a job payload. The library stores and hands back
/// payloads without looking inside them.
#[verifier::external_type_specification]
#[verifier::external_body]
pub struct ExJsonValue(serde_json::Value);

/// `serde_json::Error`: why a payload could not be encoded.
#[verifier::external_type_specification]
#[verifier::external_body]
pub struct ExJsonError(serde_json::Error);

/// `cron::Schedule`: a parsed recurrence expression.
#[verifier::external_type_specification]
#[verifier::external_body]
pub struct ExSchedule(cron::Schedule);

/// The duration that `Duration::from_secs` builds from a number of seconds.
pub uninterp spec fn duration_from_secs(secs: u64) -> Duration;

/// The whole seconds that `Duration::as_secs` reads from a duration.
pub uninterp spec fn duration_as_secs(d: Duration) -> u64;

/// `Duration::from_secs` is a function of its argument, and `as_secs` reads
/// back the seconds it was given.
pub assume_specification[ Duration::from_secs ](secs: u64) -> (d: Duration)
    ensures
        d == duration_from_secs(secs),
        duration_as_secs(d) == secs,
;

/// `Duration::as_secs` is a function of the duration.
pub assume_specification[ Duration::as_secs ](d: &Duration) -> (secs: u64)
    ensures
        secs == duration_as_secs(*d),
;

/// The last instant that `chrono` represents, in seconds since the Unix
/// epoch: the end of the year 262142.
pub const CLOCK_MAX: i64 = 8_210_266_876_799;

/// The instants that the clock can read: from the Unix epoch to the last
/// instant that `chrono` represents.
pub open spec fn is_clock_reading(now: i64) -> bool {
    0 <= now <= CLOCK_MAX
}

/// Reads the wall clock through `chrono::Utc::now` and returns it as whole
/// seconds since the Unix epoch. `chrono` returns only a time that is not
/// before the epoch and that it can represent. (On a machine whose clock is
/// set otherwise, `chrono` does not return.)
#[verifier::external_body]
pub(crate) fn current_timestamp() -> (now: i64)
    ensures
        is_clock_reading(now),
{
    chrono::Utc::now().timestamp()
}

/// Draws a random identifier with `uuid::Uuid::new_v4` and renders it in the
/// hyphenated form, which is always 36 characters long.
#[verifier::external_body]
pub(crate) fn fresh_id() -> (id: String)
    ensures
        id@.len() == 36,
{
    uuid::Uuid::new_v4().to_string()
}

/// Encodes a value with `serde_json::to_value`. Whether this succeeds is up
/// to the value's `Serialize` implementation, so nothing is claimed.
#[verifier::external_body]
pub(crate) fn encode_payload<T: serde::Serialize>(value: &T) -> Result<
    serde_json::Value,
    serde_json::Error,
> {
    serde_json::to_value(value)
}

/// Renders a `serde_json::Error` through its `Display` implementation.
#[verifier::external_body]
pub(crate) fn json_error_text(error: &serde_json::Error) -> String {
    error.to_string()
}

/// `serde_json::Value::clone` yields a value equal to the one it was given.
#[verifier::external_body]
pub(crate) fn clone_payload(value: &serde_json::Value) -> (copy: serde_json::Value)
    ensures
        copy == *value,
{
    value.clone()
}

/// The schedule that `cron::Schedule::from_str` parses out of an expression,
/// or `None` where it rejects the expression.
pub uninterp spec fn cron_parse(expr: Seq<char>) -> Option<cron::Schedule>;

/// Parses a recurrence expression with `cron::Schedule::from_str`. The
/// outcome depends on the text alone.
#[verifier::external_body]
pub(crate) fn parse_schedule(expr: &str) -> (schedule: Option<cron::Schedule>)
    ensures
        schedule == cron_parse(expr@),
{
    <cron::Schedule as std::str::FromStr>::from_str(expr).ok()
}

/// The first occurrence of a schedule that `cron::Schedule::after` yields
/// for a starting instant, in seconds since the Unix epoch, or `None` where
/// the schedule has no later occurrence.
pub uninterp spec fn cron_next_after(schedule: cron::Schedule, now: i64) -> Option<i64>;

/// The first instant from which occurrences are looked for, in seconds
/// since the Unix epoch: the start of the year 0.
pub const CALENDAR_MIN: i64 = -62_167_219_200;

/// The instants from which occurrences are looked for: from the start of
/// the year 0 to one second before the last instant that `chrono`
/// represents. The search starts one second after the given instant, which
/// `chrono` can still represent for every instant in this range.
pub open spec fn in_calendar_range(now: i64) -> bool {
    CALENDAR_MIN <= now < CLOCK_MAX
}

/// Asks `cron::Schedule::after` for the first occurrence in UTC that follows
/// `now`. The answer depends on the schedule and the instant alone.
#[verifier::external_body]
pub(crate) fn schedule_next_after(schedule: &cron::Schedule, now: i64) -> (next: Option<i64>)
    requires
        in_calendar_range(now),
    ensures
        next == cron_next_after(*schedule, now),
{
    let start = chrono::DateTime::from_timestamp(now, 0)?;
    match schedule.after(&start).next() {
        Some(at) => Some(at.timestamp()),
        None => None,
    }
}

/// `http::HeaderMap`: the headers of a request or a response.
#[verifier::external_type_specification]
#[verifier::external_body]
#[verifier::reject_recursive_types(T)]
pub struct ExHeaderMap<T>(http::HeaderMap<T>);

/// `http::HeaderValue`: the default value type of a header map.
#[verifier::external_type_specification]
#[verifier::external_body]
pub struct ExHeaderValue(http::HeaderValue);

/// `http::Method`: a request method.
#[verifier::external_type_specification]
#[verifier::external_body]
pub struct ExMethod(http::Method);

/// `http::StatusCode`: a response status.
#[verifier::external_type_specification]
#[verifier::external_body]
pub struct ExStatusCode(http::StatusCode);

/// `http::Uri`: the target of a request.
#[verifier::external_type_specification]
#[verifier::external_body]
pub struct ExUri(http::Uri);

/// `http::Request`: a request as the `http` crate represents it.
#[verifier::external_type_specification]
#[verifier::external_body]
#[verifier::reject_recursive_types(T)]
pub struct ExRequest<T>(http::Request<T>);

/// `http_body_util::Full`: a body made of a single chunk.
#[verifier::external_type_specification]
#[verifier::external_body]
#[verifier::reject_recursive_types(D)]
pub struct ExFull<D>(http_body_util::Full<D>);

/// `bytes::Bytes`: the bytes of a body.
#[verifier::external_type_specification]
#[verifier::external_body]
pub struct ExBytes(bytes::Bytes);

/// `std::string::FromUtf8Error`: why bytes are not text.
#[verifier::external_type_specification]
#[verifier::external_body]
pub struct ExFromUtf8Error(std::string::FromUtf8Error);

/// `serde_urlencoded::de::Error`: why form data could not be decoded.
#[verifier::external_type_specification]
#[verifier::external_body]
pub struct ExFormError(serde_urlencoded::de::Error);

/// What a header map holds: for each header name, in lower case, the values
/// stored under it, each as its bytes.
pub uninterp spec fn header_entries(headers: http::HeaderMap) -> Map<Seq<char>, Seq<Seq<u8>>>;

/// The characters that `http` accepts in a header name: letters, digits and
/// a few marks.
pub open spec fn is_header_name_char(c: char) -> bool {
    ||| 'a' <= c <= 'z'
    ||| 'A' <= c <= 'Z'
    ||| '0' <= c <= '9'
    ||| c == '!'
    ||| c == '#'
    ||| c == '$'
    ||| c == '%'
    ||| c == '&'
    ||| c == '\''
    ||| c == '*'
    ||| c == '+'
    ||| c == '-'
    ||| c == '.'
    ||| c == '^'
    ||| c == '_'
    ||| c == '`'
    ||| c == '|'
    ||| c == '~'
}

/// The texts that `http::HeaderName::from_bytes` accepts: between 1 and
/// 65535 characters, each one a header-name character.
pub open spec fn is_header_name(name: Seq<char>) -> bool {
    &&& 0 < name.len() <= 65535
    &&& forall|i: int| 0 <= i < name.len() ==> is_header_name_char(#[trigger] name[i])
}

/// The texts that `http::HeaderValue::from_str` accepts: no control
/// characters but the tab.
pub open spec fn is_header_value(value: Seq<char>) -> bool {
    forall|i: int|
        0 <= i < value.len() ==> {
            let code = (#[trigger] value[i]) as u32;
            (code >= 32 && code != 127) || code == 9
        }
}

/// A character with an upper-case ASCII letter turned into lower case.
pub open spec fn ascii_lower(c: char) -> char {
    if 'A' <= c <= 'Z' {
        ((c as u8) + 32) as char
    } else {
        c
    }
}

/// The name under which a header is stored: its text in lower case.
pub open spec fn header_key(name: Seq<char>) -> Seq<char> {
    Seq::new(name.len(), |i: int| ascii_lower(name[i]))
}

/// The entries of a header map that holds nothing.
pub open spec fn no_headers() -> Map<Seq<char>, Seq<Seq<u8>>> {
    Map::empty()
}

/// The number of header names that a header map holds, as
/// `http::HeaderMap::keys_len` gives it.
pub uninterp spec fn header_count(headers: http::HeaderMap) -> nat;

/// A header map that holds fewer than this many names is sure to accept
/// another header. `http` refuses a header only when the map's table would
/// have to grow beyond 32768 slots, and it asks a table of more than 16384
/// slots to grow only once the map holds at least a fifth as many names as
/// the table has slots.
pub const HEADER_ROOM: usize = 3277;

/// Whether a header map is sure to accept `more` headers one after the
/// other: with them it holds no more than [`HEADER_ROOM`] names.
pub open spec fn accepts_headers(headers: http::HeaderMap, more: nat) -> bool {
    header_count(headers) + more <= HEADER_ROOM
}

/// An empty header map, from `http::HeaderMap::new`.
#[verifier::external_body]
pub(crate) fn empty_headers() -> (headers: http::HeaderMap)
    ensures
        header_entries(headers) == no_headers(),
        header_count(headers) == 0,
{
    http::HeaderMap::new()
}

/// Stores a header with `http::HeaderMap::try_insert`, after turning the
/// name and the value into their `http` types. The value replaces all values
/// stored under the name before, and the map then holds at most one name
/// more. A map with fewer than [`HEADER_ROOM`] names accepts the header. A
/// map that has reached its maximum size refuses it, also under a name that
/// it holds already; the answer is then `false` and the map holds what it
/// held.
#[verifier::external_body]
pub(crate) fn store_header(headers: &mut http::HeaderMap, name: &str, value: &str) -> (stored: bool)
    requires
        is_header_name(name@),
        is_header_value(value@),
    ensures
        accepts_headers(*old(headers), 1) ==> stored,
        stored ==> header_entries(*final(headers)) == header_entries(*old(headers)).insert(
            header_key(name@),
            seq![value.spec_bytes()],
        ),
        !stored ==> header_entries(*final(headers)) == header_entries(*old(headers)),
        header_count(*final(headers)) <= header_count(*old(headers)) + 1,
{
    let name = http::HeaderName::from_bytes(name.as_bytes()).unwrap();
    let value = http::HeaderValue::from_str(value).unwrap();
    headers.try_insert(name, value).is_ok()
}

/// The text of a request method, as `http::Method::as_str` gives it.
pub uninterp spec fn method_text(method: http::Method) -> Seq<char>;

/// One of the four methods `GET`, `POST`, `PUT` and `DELETE`, from
/// `http::Method::from_bytes`.
#[verifier::external_body]
pub(crate) fn standard_method(name: &str) -> (method: http::Method)
    requires
        name@ == "GET"@ || name@ == "POST"@ || name@ == "PUT"@ || name@ == "DELETE"@,
    ensures
        method_text(method) == name@,
{
    http::Method::from_bytes(name.as_bytes()).unwrap()
}

/// The number of a status code, as `http::StatusCode::as_u16` gives it.
pub uninterp spec fn status_number(status: http::StatusCode) -> u16;

/// `http::StatusCode::is_success` holds of the codes from 200 to 299.
pub assume_specification[ http::StatusCode::is_success ](status: &http::StatusCode) -> (ok: bool)
    ensures
        ok == (200 <= status_number(*status) < 300),
;

/// What a request with a single-chunk body holds besides its target: the
/// text of its method, its headers, and the bytes of its body.
pub uninterp spec fn request_parts(
    request: http::Request<http_body_util::Full<bytes::Bytes>>,
) -> (Seq<char>, Map<Seq<char>, Seq<Seq<u8>>>, Seq<u8>);

/// The target of a request, as `http::Request::uri` gives it.
pub uninterp spec fn request_target(
    request: http::Request<http_body_util::Full<bytes::Bytes>>,
) -> http::Uri;

/// The URI that the parser of `http::Uri` makes of a text, or `None` where
/// it rejects the text.
pub uninterp spec fn parsed_uri(uri: Seq<char>) -> Option<http::Uri>;

/// Whether `http::Uri` accepts a text as a URI.
pub open spec fn uri_parses(uri: Seq<char>) -> bool {
    parsed_uri(uri) is Some
}

/// Asks the parser of `http::Uri` whether it accepts a text.
#[verifier::external_body]
pub(crate) fn uri_is_valid(uri: &str) -> (valid: bool)
    ensures
        valid == (parsed_uri(uri@) is Some),
{
    uri.parse::<http::Uri>().is_ok()
}

/// Encodes a value as JSON text with `serde_json::to_vec`. Whether this
/// succeeds is up to the value's `Serialize` implementation, so nothing is
/// claimed.
#[verifier::external_body]
pub(crate) fn encode_json<T: serde::Serialize>(value: &T) -> Result<Vec<u8>, serde_json::Error> {
    serde_json::to_vec(value)
}

/// Decodes a value from JSON text with `serde_json::from_slice`. What comes
/// out is up to the type's `Deserialize` implementation, so nothing is
/// claimed.
#[verifier::external_body]
pub(crate) fn decode_json<T: serde::de::DeserializeOwned>(text: &[u8]) -> Result<
    T,
    serde_json::Error,
> {
    serde_json::from_slice(text)
}

/// Decodes a value from form data with `serde_urlencoded::from_str`. What
/// comes out is up to the type's `Deserialize` implementation, so nothing is
/// claimed.
#[verifier::external_body]
pub(crate) fn decode_form<T: serde::de::DeserializeOwned>(data: &str) -> Result<
    T,
    serde_urlencoded::de::Error,
> {
    serde_urlencoded::from_str(data)
}

/// Renders a `serde_urlencoded::de::Error` through its `Display`
/// implementation.
#[verifier::external_body]
pub(crate) fn form_error_text(error: &serde_urlencoded::de::Error) -> String {
    error.to_string()
}

/// `String::from_utf8` succeeds exactly on well-formed UTF-8 and then yields
/// the text that the bytes encode.
#[verifier::external_body]
pub(crate) fn text_from_utf8(bytes: Vec<u8>) -> (text: Result<String, std::string::FromUtf8Error>)
    ensures
        text is Ok <==> valid_utf8(bytes@),
        text matches Ok(s) ==> s@ == decode_utf8(bytes@),
{
    String::from_utf8(bytes)
}

/// Renders a `FromUtf8Error` through its `Display` implementation.
#[verifier::external_body]
pub(crate) fn utf8_error_text(error: &std::string::FromUtf8Error) -> String {
    error.to_string()
}

} // verus!
