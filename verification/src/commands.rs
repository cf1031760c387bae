//! The decisions behind the command-line tools: what to show of an
//! environment variable, and what counts as a confirmation.

use crate::text::{chars_of, contains, contains_text, trim, trim_bounds};
use vstd::prelude::*;
use vstd::string::{StringExecFns, StringSliceAdditionalSpecFns};
use vstd::utf8::{decode_utf8, encode_utf8_decode_utf8, is_char_boundary};

verus! {

/// How many bytes of a long value are shown.
pub const SHOWN_BYTES: usize = 27;

/// The longest value, in bytes, that is shown in full.
pub const LONGEST_SHOWN: usize = 30;

/// Whether a variable of this name holds a secret: the name contains
/// `SECRET` or `PASSWORD`.
pub open spec fn is_secret_name(name: Seq<char>) -> bool {
    contains_text(name, "SECRET"@) || contains_text(name, "PASSWORD"@)
}

/// What is shown of the value of an environment variable: `***` for a
/// secret, the first bytes followed by `...` for a long value, and the
/// value itself otherwise.
pub open spec fn masked(name: Seq<char>, value: &str) -> Seq<char> {
    if is_secret_name(name) {
        "***"@
    } else if value.spec_bytes().len() > LONGEST_SHOWN {
        decode_utf8(value.spec_bytes().subrange(0, SHOWN_BYTES as int)) + "..."@
    } else {
        value@
    }
}

/// Whether a long value can be cut after the bytes that are shown, that is,
/// whether a character ends there.
pub open spec fn can_be_cut(value: &str) -> bool {
    is_char_boundary(value.spec_bytes(), SHOWN_BYTES as int)
}

/// Whether a variable of this name holds a secret.
pub fn secret_name(name: &str) -> (secret: bool)
    ensures
        secret == is_secret_name(name@),
{
    let name_chars = chars_of(name);
    let secret = chars_of("SECRET");
    let password = chars_of("PASSWORD");
    contains(&name_chars, &secret) || contains(&name_chars, &password)
}

/// Decides what to show of the value of an environment variable.
pub fn mask_env_value(name: &str, value: &str) -> (shown: String)
    requires
        !is_secret_name(name@) && value.spec_bytes().len() > LONGEST_SHOWN ==> can_be_cut(value),
    ensures
        shown@ == masked(name@, value),
{
    if secret_name(name) {
        "***".to_owned()
    } else if value.as_bytes().len() > LONGEST_SHOWN {
        let (start, _) = value.split_at(SHOWN_BYTES);
        proof {
            encode_utf8_decode_utf8(start@);
            assert(start.spec_bytes() == value.spec_bytes().subrange(0, SHOWN_BYTES as int));
        }
        start.to_owned().concat("...")
    } else {
        value.to_owned()
    }
}

/// Whether the value of an environment variable can be shown without
/// cutting a character in two.
pub fn can_show(name: &str, value: &str) -> (ok: bool)
    ensures
        ok == (!is_secret_name(name@) && value.spec_bytes().len() > LONGEST_SHOWN ==> can_be_cut(
            value,
        )),
{
    if secret_name(name) {
        true
    } else if value.as_bytes().len() > LONGEST_SHOWN {
        value.is_char_boundary(SHOWN_BYTES)
    } else {
        true
    }
}

/// Whether an answer confirms: apart from white space around it, it is the
/// letter `y` in either case.
pub open spec fn confirms(answer: Seq<char>) -> bool {
    trim(answer) == seq!['y'] || trim(answer) == seq!['Y']
}

/// Decides whether an answer typed at a prompt is a confirmation.
pub fn is_confirmation(answer: &str) -> (yes: bool)
    ensures
        yes == confirms(answer@),
{
    let chars = chars_of(answer);
    let (from, to) = trim_bounds(&chars, 0, chars.len());
    proof {
        assert(chars@.subrange(0, chars@.len() as int) == chars@);
        let text = chars@.subrange(from as int, to as int);
        assert(trim(answer@) == text);
        assert(seq!['y'].len() == 1 && seq!['Y'].len() == 1);
        assert(seq!['y'][0] == 'y' && seq!['Y'][0] == 'Y');
        if to - from == 1 {
            assert(text =~= seq![chars@[from as int]]);
            assert(text[0] == chars@[from as int]);
        } else {
            assert(text.len() != 1);
        }
    }
    to - from == 1 && (chars[from] == 'y' || chars[from] == 'Y')
}

} // verus!
