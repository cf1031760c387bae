//! Typed access to the cookies and the form data of a request.

use crate::error::RequestError;
use crate::external::{decode_form, form_error_text, text_from_utf8, utf8_error_text};
use crate::text::{
    chars_of, lemma_len_before, len_before, pairs_view, scan_to, trim, trim_bounds,
};
use vstd::prelude::*;
use vstd::string::{StrSliceExecFns, StringExecFns};
use vstd::utf8::valid_utf8;

verus! {

/// The cookie that one piece of a cookie header stands for: the trimmed
/// piece is split at its first `=` into name and value. A piece without `=`
/// stands for no cookie.
pub open spec fn cookie_of(piece: Seq<char>) -> Option<(Seq<char>, Seq<char>)> {
    let text = trim(piece);
    let at = len_before(text, '=');
    if at < text.len() {
        Some((text.subrange(0, at), text.subrange(at + 1, text.len() as int)))
    } else {
        None
    }
}

/// The cookies that a cookie header lists: the header is cut at every `;`,
/// and each piece that stands for a cookie contributes it, in order.
pub open spec fn cookies_of(header: Seq<char>) -> Seq<(Seq<char>, Seq<char>)>
    decreases header.len(),
{
    let end = len_before(header, ';');
    let first = match cookie_of(header.subrange(0, end)) {
        Some(cookie) => seq![cookie],
        None => Seq::empty(),
    };
    if end < header.len() {
        proof {
            lemma_len_before(header, ';');
        }
        first + cookies_of(header.subrange(end + 1, header.len() as int))
    } else {
        first
    }
}

/// The cookies of a request, in the order in which the request lists them.
pub struct Cookies {
    cookies: Vec<(String, String)>,
}

impl View for Cookies {
    type V = Seq<(Seq<char>, Seq<char>)>;

    closed spec fn view(&self) -> Seq<(Seq<char>, Seq<char>)> {
        pairs_view(self.cookies@)
    }
}

/// `i` is the first position of `cookies` that holds a cookie called `name`.
pub open spec fn is_first_named(
    cookies: Seq<(Seq<char>, Seq<char>)>,
    name: Seq<char>,
    i: int,
) -> bool {
    &&& 0 <= i < cookies.len()
    &&& cookies[i].0 == name
    &&& forall|k: int| 0 <= k < i ==> (#[trigger] cookies[k]).0 != name
}

/// Reads the cookie that the piece `header[start..end]` stands for, if it
/// stands for one.
fn read_cookie(header: &str, chars: &Vec<char>, start: usize, end: usize) -> (cookie: Option<
    (String, String),
>)
    requires
        chars@ == header@,
        start <= end <= chars@.len(),
    ensures
        match cookie {
            Some(pair) => cookie_of(header@.subrange(start as int, end as int)) == Some(
                (pair.0@, pair.1@),
            ),
            None => cookie_of(header@.subrange(start as int, end as int)) is None,
        },
{
    let (from, to) = trim_bounds(chars, start, end);
    let at: usize = scan_to(chars, from, to, '=');
    if at < to {
        let name = header.substring_char(from, at).to_owned();
        let value = header.substring_char(at + 1, to).to_owned();
        proof {
            let text = header@.subrange(from as int, to as int);
            assert(text.subrange(0, at - from) == header@.subrange(from as int, at as int));
            assert(text.subrange(at - from + 1, text.len() as int) == header@.subrange(
                at + 1,
                to as int,
            ));
        }
        Some((name, value))
    } else {
        None
    }
}

impl Cookies {
    /// Reads the cookies out of the value of a `Cookie` header: the header
    /// is cut at every `;`, each piece is trimmed, and a piece of the form
    /// `name=value` yields a cookie. Pieces without `=` are passed over.
    pub fn parse(header: &str) -> (cookies: Cookies)
        ensures
            cookies@ == cookies_of(header@),
    {
        let chars: Vec<char> = chars_of(header);
        let len: usize = chars.len();
        let mut found: Vec<(String, String)> = Vec::new();
        let mut start: usize = 0;
        let mut done: bool = false;
        proof {
            assert(header@.subrange(0, len as int) == header@);
            assert(pairs_view(found@) + cookies_of(header@) == cookies_of(header@));
        }
        while !done
            invariant
                chars@ == header@,
                len == chars@.len(),
                start <= len,
                done ==> cookies_of(header@) == pairs_view(found@),
                !done ==> cookies_of(header@) == pairs_view(found@) + cookies_of(
                    header@.subrange(start as int, len as int),
                ),
            decreases len - start + (if done { 0int } else { 1int }),
        {
            let ghost tail = header@.subrange(start as int, len as int);
            let ghost before = pairs_view(found@);
            let end: usize = scan_to(&chars, start, len, ';');
            let cookie = read_cookie(header, &chars, start, end);
            proof {
                assert(tail.subrange(0, end - start) == header@.subrange(start as int, end as int));
                if end < len {
                    assert(tail.subrange(end - start + 1, tail.len() as int) == header@.subrange(
                        end + 1,
                        len as int,
                    ));
                }
            }
            match cookie {
                Some(pair) => {
                    found.push(pair);
                    assert(pairs_view(found@) == before + seq![(pair.0@, pair.1@)]);
                },
                None => {
                    assert(before + Seq::<(Seq<char>, Seq<char>)>::empty() == before);
                },
            }
            if end < len {
                start = end + 1;
            } else {
                done = true;
            }
        }
        Cookies { cookies: found }
    }

    /// The value of the first cookie called `name`, if there is one.
    pub fn get(&self, name: &str) -> (value: Option<&str>)
        ensures
            match value {
                Some(v) => exists|i: int|
                    is_first_named(self@, name@, i) && v@ == (#[trigger] self@[i]).1,
                None => forall|k: int| 0 <= k < self@.len() ==> (#[trigger] self@[k]).0 != name@,
            },
    {
        let wanted: String = name.to_owned();
        let len: usize = self.cookies.len();
        let mut pos: usize = 0;
        while pos < len && self.cookies[pos].0 != wanted
            invariant
                len == self.cookies@.len(),
                wanted@ == name@,
                pos <= len,
                forall|k: int| 0 <= k < pos ==> (#[trigger] self@[k]).0 != name@,
            decreases len - pos,
        {
            pos = pos + 1;
        }
        if pos < len {
            assert(is_first_named(self@, name@, pos as int));
            Some(self.cookies[pos].1.as_str())
        } else {
            None
        }
    }

    /// All cookies as name and value pairs, in order.
    pub fn iter(&self) -> (pairs: Vec<(&str, &str)>)
        ensures
            pairs@.len() == self@.len(),
            forall|i: int|
                0 <= i < self@.len() ==> (#[trigger] pairs@[i]).0@ == self@[i].0 && pairs@[i].1@
                    == self@[i].1,
    {
        let mut pairs: Vec<(&str, &str)> = Vec::new();
        let len: usize = self.cookies.len();
        let mut i: usize = 0;
        while i < len
            invariant
                len == self.cookies@.len(),
                i <= len,
                pairs@.len() == i,
                forall|k: int|
                    0 <= k < i ==> (#[trigger] pairs@[k]).0@ == self@[k].0 && pairs@[k].1@
                        == self@[k].1,
            decreases len - i,
        {
            pairs.push((self.cookies[i].0.as_str(), self.cookies[i].1.as_str()));
            i = i + 1;
        }
        pairs
    }
}

/// Data decoded from an `application/x-www-form-urlencoded` body.
pub struct Form<T>(pub T);

impl<T: serde::de::DeserializeOwned> Form<T> {
    /// Wraps decoded form data, or reports why the data could not be
    /// decoded as a bad request whose message is `Invalid form data: `
    /// followed by the reason.
    pub fn from_decoded(decoded: Result<T, String>) -> (form: Result<Form<T>, RequestError>)
        ensures
            match decoded {
                Ok(value) => form == Ok::<Form<T>, RequestError>(Form(value)),
                Err(reason) => form is Err && form->Err_0 is BadRequest && form->Err_0->BadRequest_0@
                    == "Invalid form data: "@ + reason@,
            },
    {
        match decoded {
            Ok(value) => Ok(Form(value)),
            Err(reason) => Err(
                RequestError::BadRequest("Invalid form data: ".to_owned().concat(reason.as_str())),
            ),
        }
    }

    /// Decodes form data. Data that does not fit `T` is reported as a bad
    /// request whose message starts with `Invalid form data: `.
    pub fn decode(data: &str) -> (form: Result<Form<T>, RequestError>)
        ensures
            form matches Err(error) ==> error.is_bad_request_with("Invalid form data: "@),
    {
        match decode_form::<T>(data) {
            Ok(value) => Form::from_decoded(Ok(value)),
            Err(error) => Form::from_decoded(Err(form_error_text(&error))),
        }
    }

    /// Decodes the body of a request as form data. A body that is not
    /// well-formed UTF-8 is reported as a bad request whose message starts
    /// with `Failed to read body: `, without looking at the data.
    pub fn from_body(body: Vec<u8>) -> (form: Result<Form<T>, RequestError>)
        ensures
            form matches Err(error) ==> error is BadRequest,
            !valid_utf8(body@) ==> form is Err && form->Err_0.is_bad_request_with(
                "Failed to read body: "@,
            ),
    {
        match text_from_utf8(body) {
            Ok(data) => Form::decode(data.as_str()),
            Err(error) => {
                let reason = utf8_error_text(&error);
                Err(RequestError::BadRequest("Failed to read body: ".to_owned().concat(reason.as_str())))
            },
        }
    }
}

} // verus!
