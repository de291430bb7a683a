//! The size of a request as far as its head tells it: the lengths of what
//! the head holds, and the length of the body that it declares.

use vstd::prelude::*;
use vstd::string::*;
use vstd::utf8::encode_utf8;

verus! {

/// One header of a request.
#[derive(Debug, Clone)]
pub struct Header {
    /// The name, in lower case.
    pub name: String,
    /// The value as it was sent.
    pub value: Vec<u8>,
}

/// What the size estimate reads of a request.
#[derive(Debug, Clone)]
pub struct RequestHead {
    /// The target of the request as it was sent.
    pub uri: String,
    /// The method, such as `GET`.
    pub method: String,
    /// The protocol version, such as `HTTP/1.1`.
    pub version: String,
    /// The host in the target, where it names one.
    pub host: Option<String>,
    /// The headers in the order in which they were sent.
    pub headers: Vec<Header>,
}

/// `n`, held to what a `usize` can store.
pub open spec fn saturate(n: nat) -> nat {
    if n <= usize::MAX {
        n
    } else {
        usize::MAX as nat
    }
}

/// Whether `b` is an ASCII digit.
pub open spec fn is_digit(b: u8) -> bool {
    0x30 <= b && b <= 0x39
}

/// Whether `s` holds ASCII digits only.
pub open spec fn all_digits(s: Seq<u8>) -> bool {
    forall|i: int| 0 <= i < s.len() ==> is_digit(#[trigger] s[i])
}

/// The number that the decimal digits `s` stand for.
pub open spec fn digits_value(s: Seq<u8>) -> nat
    decreases s.len(),
{
    if s.len() == 0 {
        0
    } else {
        digits_value(s.drop_last()) * 10 + (s.last() - 0x30) as nat
    }
}

/// `s` without the plus sign that it may start with.
pub open spec fn unsigned_part(s: Seq<u8>) -> Seq<u8> {
    if s.len() > 0 && s[0] == 0x2b {
        s.subrange(1, s.len() as int)
    } else {
        s
    }
}

/// The number that `s` stands for as a decimal numeral: one or more digits,
/// a plus sign before them or not, and nothing else. None where `s` is no
/// such numeral or the number does not fit in a `usize`.
pub open spec fn parsed(s: Seq<u8>) -> Option<usize> {
    let digits = unsigned_part(s);
    if digits.len() == 0 || !all_digits(digits) || digits_value(digits) > usize::MAX {
        None
    } else {
        Some(digits_value(digits) as usize)
    }
}

proof fn lemma_digits_grow(s: Seq<u8>, upto: int)
    requires
        0 <= upto <= s.len(),
        all_digits(s),
    ensures
        digits_value(s.take(upto)) <= digits_value(s),
    decreases s.len() - upto,
{
    if upto < s.len() {
        lemma_digits_grow(s, upto + 1);
        assert(s.take(upto + 1).drop_last() =~= s.take(upto));
        assert(is_digit(s[upto]));
    } else {
        assert(s.take(upto) =~= s);
    }
}

/// Reads `s` as a decimal numeral.
pub fn parse_usize(s: &Vec<u8>) -> (number: Option<usize>)
    ensures
        number == parsed(s@),
{
    let start: usize = if s.len() > 0 && s[0] == 0x2b {
        1
    } else {
        0
    };
    let ghost digits = unsigned_part(s@);
    if start == s.len() {
        return None;
    }
    let mut value: usize = 0;
    let mut i: usize = start;
    while i < s.len()
        invariant
            start <= i <= s.len(),
            start <= 1,
            digits == unsigned_part(s@),
            digits.len() == s.len() - start,
            forall|k: int| 0 <= k < digits.len() ==> digits[k] == s@[k + start],
            forall|k: int| 0 <= k < i - start ==> is_digit(#[trigger] digits[k]),
            value == digits_value(digits.take(i - start)),
        decreases s.len() - i,
    {
        let b = s[i];
        let ghost at = i - start;
        assert(digits[at] == b);
        if b < 0x30 || b > 0x39 {
            assert(!is_digit(digits[at]));
            return None;
        }
        proof {
            assert(digits.take(at + 1).drop_last() =~= digits.take(at));
            assert(digits.take(at + 1).last() == b);
        }
        let tens = match value.checked_mul(10) {
            Some(t) => t,
            None => {
                proof {
                    if all_digits(digits) {
                        lemma_digits_grow(digits, at + 1);
                    }
                }
                return None;
            },
        };
        value = match tens.checked_add((b - 0x30) as usize) {
            Some(v) => v,
            None => {
                proof {
                    if all_digits(digits) {
                        lemma_digits_grow(digits, at + 1);
                    }
                }
                return None;
            },
        };
        i = i + 1;
    }
    proof {
        assert(digits.take(digits.len() as int) =~= digits);
        assert(all_digits(digits));
    }
    Some(value)
}

/// The length of a text in bytes, as UTF-8, as `str::len` tells it.
pub open spec fn byte_len(text: Seq<char>) -> nat {
    (encode_utf8(text).len() as usize) as nat
}

/// The name of the header that declares the length of the body.
pub open spec fn content_length_name() -> Seq<char> {
    "content-length"@
}

/// The lengths of the names and values of the first `upto` headers added
/// up.
pub open spec fn headers_len(headers: Seq<Header>, upto: int) -> nat
    decreases upto,
{
    if upto <= 0 {
        0
    } else {
        headers_len(headers, upto - 1) + byte_len(headers[upto - 1].name@) + headers[upto
            - 1].value@.len()
    }
}

/// Whether the header at `i` is the first that declares the length of the
/// body.
pub open spec fn declares_length(headers: Seq<Header>, i: int) -> bool {
    &&& 0 <= i < headers.len()
    &&& headers[i].name@ == content_length_name()
    &&& forall|j: int| 0 <= j < i ==> (#[trigger] headers[j]).name@ != content_length_name()
}

/// The length of the body that the headers declare: the number in the
/// first header that declares one, zero where there is none or it holds
/// no number.
pub open spec fn declared_length(headers: Seq<Header>) -> nat {
    if exists|i: int| declares_length(headers, i) {
        let i = choose|i: int| declares_length(headers, i);
        match parsed(headers[i].value@) {
            Some(n) => n as nat,
            None => 0,
        }
    } else {
        0
    }
}

/// The estimate of the size of a request: the lengths of the target, the
/// method, the version, the names and values of the headers and the host,
/// and the declared length of the body.
pub open spec fn estimate(head: RequestHead) -> nat {
    byte_len(head.uri@) + byte_len(head.method@) + byte_len(head.version@) + headers_len(
        head.headers@,
        head.headers@.len() as int,
    ) + (match head.host {
        Some(host) => byte_len(host@),
        None => 0,
    }) + declared_length(head.headers@)
}

impl RequestHead {
    /// The length of the body that the headers declare.
    pub fn content_length(&self) -> (length: usize)
        ensures
            length == declared_length(self.headers@),
    {
        let name = "content-length".to_owned();
        let mut i: usize = 0;
        while i < self.headers.len()
            invariant
                i <= self.headers.len(),
                name@ == content_length_name(),
                forall|j: int|
                    0 <= j < i ==> (#[trigger] self.headers@[j]).name@ != content_length_name(),
            decreases self.headers.len() - i,
        {
            if self.headers[i].name == name {
                proof {
                    let headers = self.headers@;
                    assert(declares_length(headers, i as int));
                    let k = choose|k: int| declares_length(headers, k);
                    if k < i {
                        assert(headers[k].name@ != content_length_name());
                    } else if i < k {
                        assert(headers[i as int].name@ != content_length_name());
                    }
                }
                return match parse_usize(&self.headers[i].value) {
                    Some(n) => n,
                    None => 0,
                };
            }
            i = i + 1;
        }
        0
    }

    /// The estimate of the size of the request in bytes, held to what a
    /// `usize` can store.
    pub fn approximate_size(&self) -> (size: usize)
        ensures
            size == saturate(estimate(*self)),
    {
        let mut size: usize = self.uri.as_str().len();
        size = size.saturating_add(self.method.as_str().len());
        size = size.saturating_add(self.version.as_str().len());
        let ghost fixed = byte_len(self.uri@) + byte_len(self.method@) + byte_len(self.version@);
        let mut i: usize = 0;
        while i < self.headers.len()
            invariant
                i <= self.headers.len(),
                size == saturate(fixed + headers_len(self.headers@, i as int)),
            decreases self.headers.len() - i,
        {
            size = size.saturating_add(self.headers[i].name.as_str().len());
            size = size.saturating_add(self.headers[i].value.len());
            i = i + 1;
        }
        match &self.host {
            Some(host) => {
                size = size.saturating_add(host.as_str().len());
            },
            None => {},
        }
        size.saturating_add(self.content_length())
    }
}

} // verus!
