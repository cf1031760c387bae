//! Header names and values: which texts can serve as such, and what storing
//! a header does to the headers of a message.

use crate::external::{header_key, is_header_name, is_header_name_char, is_header_value};
use crate::text::chars_of;
use vstd::prelude::*;
use vstd::utf8::encode_utf8;

verus! {

/// The headers after `value` was stored under `name`, in place of whatever
/// was stored under that name before.
pub open spec fn with_header(
    entries: Map<Seq<char>, Seq<Seq<u8>>>,
    name: Seq<char>,
    value: Seq<char>,
) -> Map<Seq<char>, Seq<Seq<u8>>> {
    entries.insert(header_key(name), seq![encode_utf8(value)])
}

/// Whether a character may stand in a header name.
fn name_char(c: char) -> (ok: bool)
    ensures
        ok == is_header_name_char(c),
{
    ('a' <= c && c <= 'z') || ('A' <= c && c <= 'Z') || ('0' <= c && c <= '9') || c == '!' || c
        == '#' || c == '$' || c == '%' || c == '&' || c == '\'' || c == '*' || c == '+' || c
        == '-' || c == '.' || c == '^' || c == '_' || c == '`' || c == '|' || c == '~'
}

/// Whether a text can serve as a header name.
pub fn valid_header_name(name: &str) -> (valid: bool)
    ensures
        valid == is_header_name(name@),
{
    let chars = chars_of(name);
    let len: usize = chars.len();
    if len == 0 || len > 65535 {
        return false;
    }
    let mut i: usize = 0;
    while i < len && name_char(chars[i])
        invariant
            chars@ == name@,
            len == chars@.len(),
            i <= len,
            forall|k: int| 0 <= k < i ==> is_header_name_char(#[trigger] name@[k]),
        decreases len - i,
    {
        i = i + 1;
    }
    i == len
}

/// Whether a text can serve as a header value.
pub fn valid_header_value(value: &str) -> (valid: bool)
    ensures
        valid == is_header_value(value@),
{
    let chars = chars_of(value);
    let len: usize = chars.len();
    let mut i: usize = 0;
    while i < len && ((chars[i] as u32 >= 32 && chars[i] as u32 != 127) || chars[i] as u32 == 9)
        invariant
            chars@ == value@,
            len == chars@.len(),
            i <= len,
            forall|k: int|
                0 <= k < i ==> {
                    let code = (#[trigger] value@[k]) as u32;
                    (code >= 32 && code != 127) || code == 9
                },
        decreases len - i,
    {
        i = i + 1;
    }
    i == len
}

} // verus!
