use vstd::prelude::*;
use vstd::utf8::{decode_utf8, encode_utf8, valid_utf8};
use crate::decimal::{all_digits, digits_value, parse_u16, parse_u32, parse_unsigned, unsigned_digits};

verus! {

/// Why a response could not be produced.
#[derive(Debug, Clone, Copy, PartialEq, Eq, Structural)]
pub enum Error {
    /// The transport could not complete the exchange.
    Transport,
    /// The response body is not valid UTF-8.
    Encoding,
}

/// A completed HTTP exchange: its status, its headers in the order received, each
/// with the raw bytes of its first value, and its body, read in full.
pub struct Response {
    pub status: u16,
    pub headers: Vec<(String, Vec<u8>)>,
    pub body: String,
}

/// The mathematical model of a [`Response`].
pub struct ResponseView {
    pub status: u16,
    pub headers: Seq<(Seq<char>, Seq<u8>)>,
    pub body: Seq<char>,
}

/// The model of a list of headers: each name as text, each value as bytes.
pub open spec fn headers_view(hs: Seq<(String, Vec<u8>)>) -> Seq<(Seq<char>, Seq<u8>)> {
    hs.map_values(|e: (String, Vec<u8>)| (e.0@, e.1@))
}

impl View for Response {
    type V = ResponseView;

    open spec fn view(&self) -> ResponseView {
        ResponseView { status: self.status, headers: headers_view(self.headers@), body: self.body@ }
    }
}

/// `b` with an ASCII capital letter turned into its small letter.
pub open spec fn ascii_lower(b: u8) -> u8 {
    if 65 <= b <= 90 {
        (b + 32) as u8
    } else {
        b
    }
}

/// Whether two byte strings are equal when ASCII letters are compared without case.
pub open spec fn same_ignoring_ascii_case(a: Seq<u8>, b: Seq<u8>) -> bool {
    a.len() == b.len() && forall|i: int| 0 <= i < a.len() ==> ascii_lower(#[trigger] a[i]) == ascii_lower(b[i])
}

/// Whether a header stored under `stored` answers to a lookup of `name`. Header names
/// are case-insensitive in HTTP.
pub open spec fn name_matches(stored: Seq<char>, name: Seq<char>) -> bool {
    same_ignoring_ascii_case(encode_utf8(stored), encode_utf8(name))
}

/// The raw value of the first header in `hs` that answers to `name`.
pub open spec fn raw_header_value(hs: Seq<(Seq<char>, Seq<u8>)>, name: Seq<char>) -> Option<Seq<u8>>
    decreases hs.len(),
{
    if hs.len() == 0 {
        None
    } else if name_matches(hs[0].0, name) {
        Some(hs[0].1)
    } else {
        raw_header_value(hs.drop_first(), name)
    }
}

/// The value of header `name` as text: nothing where it is absent, or where its raw
/// value is not valid UTF-8.
pub open spec fn header_value(hs: Seq<(Seq<char>, Seq<u8>)>, name: Seq<char>) -> Option<Seq<char>> {
    match raw_header_value(hs, name) {
        Some(v) => if valid_utf8(v) {
            Some(decode_utf8(v))
        } else {
            None
        },
        None => None,
    }
}

/// The number held by header `name`, where it is present and its value is a decimal
/// number no greater than `max`; nothing otherwise.
pub open spec fn numeric_header(hs: Seq<(Seq<char>, Seq<u8>)>, name: Seq<char>, max: nat) -> Option<nat> {
    match raw_header_value(hs, name) {
        Some(v) => parse_unsigned(v, max),
        None => None,
    }
}

/// Name of the header with the number of requests allowed per period.
pub open spec fn limit_header() -> Seq<char> {
    "X-RateLimit-Limit"@
}

/// Name of the header with the number of requests left in the period.
pub open spec fn remaining_header() -> Seq<char> {
    "X-RateLimit-Remaining"@
}

/// Name of the header with the time, in seconds since the Unix epoch, when the
/// period ends.
pub open spec fn reset_header() -> Seq<char> {
    "X-RateLimit-Reset"@
}

/// The text that `r` holds, if any.
pub open spec fn text_of(r: Option<&str>) -> Option<Seq<char>> {
    match r {
        Some(s) => Some(s@),
        None => None,
    }
}

/// The number that `r` holds, if any.
pub open spec fn nat_of_u16(r: Option<u16>) -> Option<nat> {
    match r {
        Some(v) => Some(v as nat),
        None => None,
    }
}

/// The number that `r` holds, if any.
pub open spec fn nat_of_u32(r: Option<u32>) -> Option<nat> {
    match r {
        Some(v) => Some(v as nat),
        None => None,
    }
}

/// Relies on std::str::from_utf8: it succeeds exactly on valid UTF-8, and the text
/// it returns is what those bytes encode.
#[verifier::external_body]
fn utf8_text<'a>(b: &'a [u8]) -> (r: Option<&'a str>)
    ensures
        match r {
            Some(s) => valid_utf8(b@) && s@ == decode_utf8(b@),
            None => !valid_utf8(b@),
        },
{
    std::str::from_utf8(b).ok()
}

/// Compares two byte strings, ASCII letters without regard to case.
fn eq_ignoring_ascii_case(a: &[u8], b: &[u8]) -> (r: bool)
    ensures
        r == same_ignoring_ascii_case(a@, b@),
{
    if a.len() != b.len() {
        return false;
    }
    let mut i: usize = 0;
    while i < a.len()
        invariant
            a.len() == b.len(),
            0 <= i <= a.len(),
            forall|j: int| 0 <= j < i ==> ascii_lower(#[trigger] a@[j]) == ascii_lower(b@[j]),
        decreases a.len() - i,
    {
        let x: u8 = if 65u8 <= a[i] && a[i] <= 90u8 {
            a[i] + 32
        } else {
            a[i]
        };
        let y: u8 = if 65u8 <= b[i] && b[i] <= 90u8 {
            b[i] + 32
        } else {
            b[i]
        };
        if x != y {
            assert(ascii_lower(a@[i as int]) != ascii_lower(b@[i as int]));
            return false;
        }
        i = i + 1;
    }
    true
}

impl Response {
    /// Builds the response of a completed exchange from its status, its headers and
    /// the bytes of its body. Fails with `Error::Encoding` exactly when the body is
    /// not valid UTF-8.
    pub fn new(status: u16, headers: Vec<(String, Vec<u8>)>, body: Vec<u8>) -> (r: Result<Response, Error>)
        ensures
            match r {
                Ok(resp) => valid_utf8(body@) && resp@ == (ResponseView {
                    status,
                    headers: headers_view(headers@),
                    body: decode_utf8(body@),
                }),
                Err(e) => !valid_utf8(body@) && e == Error::Encoding,
            },
    {
        match utf8_text(body.as_slice()) {
            Some(text) => Ok(Response { status, headers, body: text.to_owned() }),
            None => Err(Error::Encoding),
        }
    }

    /// The HTTP status code.
    pub fn status(&self) -> (r: u16)
        ensures
            r == self@.status,
    {
        self.status
    }

    /// The raw value of the first header that answers to `name`.
    fn raw_header(&self, name: &str) -> (r: Option<&[u8]>)
        ensures
            match r {
                Some(v) => raw_header_value(self@.headers, name@) == Some(v@),
                None => raw_header_value(self@.headers, name@) is None,
            },
    {
        let wanted = name.as_bytes();
        let ghost hs = self@.headers;
        let mut i: usize = 0;
        assert(hs.subrange(0, hs.len() as int) =~= hs);
        while i < self.headers.len()
            invariant
                0 <= i <= self.headers.len(),
                hs == self@.headers,
                hs.len() == self.headers.len(),
                wanted@ == encode_utf8(name@),
                raw_header_value(hs, name@) == raw_header_value(hs.subrange(i as int, hs.len() as int), name@),
            decreases self.headers.len() - i,
        {
            let entry = &self.headers[i];
            let ghost rest = hs.subrange(i as int, hs.len() as int);
            assert(rest[0] == (entry.0@, entry.1@));
            assert(rest.drop_first() =~= hs.subrange(i as int + 1, hs.len() as int));
            if eq_ignoring_ascii_case(entry.0.as_str().as_bytes(), wanted) {
                return Some(entry.1.as_slice());
            }
            i = i + 1;
        }
        None
    }

    /// The value of the first header that answers to `name` (ASCII letters compared
    /// without case), as text. Nothing where there is no such header, or where its
    /// value is not valid UTF-8.
    pub fn header(&self, name: &str) -> (r: Option<&str>)
        ensures
            text_of(r) == header_value(self@.headers, name@),
    {
        match self.raw_header(name) {
            Some(v) => utf8_text(v),
            None => None,
        }
    }

    /// The value of `X-RateLimit-Limit`. Nothing where the header is absent or its
    /// value is not a decimal number that fits a `u16`.
    pub fn rate_limit(&self) -> (r: Option<u16>)
        ensures
            nat_of_u16(r) == numeric_header(self@.headers, limit_header(), u16::MAX as nat),
    {
        match self.raw_header("X-RateLimit-Limit") {
            Some(v) => parse_u16(v),
            None => None,
        }
    }

    /// The value of `X-RateLimit-Remaining`. Nothing where the header is absent or
    /// its value is not a decimal number that fits a `u16`.
    pub fn rate_limit_remaining(&self) -> (r: Option<u16>)
        ensures
            nat_of_u16(r) == numeric_header(self@.headers, remaining_header(), u16::MAX as nat),
    {
        match self.raw_header("X-RateLimit-Remaining") {
            Some(v) => parse_u16(v),
            None => None,
        }
    }

    /// The value of `X-RateLimit-Reset`, a Unix timestamp. Nothing where the header
    /// is absent or its value is not a decimal number that fits a `u32`.
    pub fn rate_limit_reset(&self) -> (r: Option<u32>)
        ensures
            nat_of_u32(r) == numeric_header(self@.headers, reset_header(), u32::MAX as nat),
    {
        match self.raw_header("X-RateLimit-Reset") {
            Some(v) => parse_u32(v),
            None => None,
        }
    }
}

/// Where the first `X-RateLimit-Limit` header of a response holds `4000`, the limit
/// read from it is 4000.
pub proof fn lemma_rate_limit_reads_value(r: ResponseView)
    requires
        raw_header_value(r.headers, limit_header()) == Some(seq![52u8, 48u8, 48u8, 48u8]),
    ensures
        numeric_header(r.headers, limit_header(), u16::MAX as nat) == Some(4000nat),
{
    let v = seq![52u8, 48u8, 48u8, 48u8];
    assert(unsigned_digits(v) == v);
    assert(seq![52u8].drop_last() =~= Seq::<u8>::empty());
    assert(seq![52u8, 48u8].drop_last() =~= seq![52u8]);
    assert(seq![52u8, 48u8, 48u8].drop_last() =~= seq![52u8, 48u8]);
    assert(v.drop_last() =~= seq![52u8, 48u8, 48u8]);
    assert(digits_value(Seq::<u8>::empty()) == 0);
    assert(seq![52u8].last() == 52u8);
    assert(digits_value(seq![52u8]) == 4);
    assert(digits_value(seq![52u8, 48u8]) == 40);
    assert(digits_value(seq![52u8, 48u8, 48u8]) == 400);
    assert(digits_value(v) == 4000);
}

/// A rate-limit header that is absent reads as nothing, never as zero; this holds of
/// the limit, the remaining count and the reset time alike.
pub proof fn lemma_absent_rate_limit_reads_nothing(r: ResponseView)
    ensures
        raw_header_value(r.headers, limit_header()) is None ==> numeric_header(
            r.headers,
            limit_header(),
            u16::MAX as nat,
        ) is None,
        raw_header_value(r.headers, remaining_header()) is None ==> numeric_header(
            r.headers,
            remaining_header(),
            u16::MAX as nat,
        ) is None,
        raw_header_value(r.headers, reset_header()) is None ==> numeric_header(
            r.headers,
            reset_header(),
            u32::MAX as nat,
        ) is None,
{
}

/// A header that is present but whose value is not a decimal number reads as nothing,
/// whichever header it is and whatever bound applies.
pub proof fn lemma_non_numeric_header_reads_nothing(r: ResponseView, name: Seq<char>, max: nat)
    requires
        raw_header_value(r.headers, name) matches Some(v) && !all_digits(unsigned_digits(v)),
    ensures
        numeric_header(r.headers, name, max) is None,
{
}

/// Looking a header up depends on the response and the name alone: two lookups of one
/// name in one response give the same result.
pub proof fn lemma_header_lookup_repeatable(
    r: ResponseView,
    name: Seq<char>,
    first: Option<Seq<char>>,
    second: Option<Seq<char>>,
)
    requires
        first == header_value(r.headers, name),
        second == header_value(r.headers, name),
    ensures
        first == second,
{
}

} // verus!
