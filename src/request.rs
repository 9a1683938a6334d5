//! The operator's request: the target language and the digit count, read
//! from one line of text.
use vstd::prelude::*;
use crate::branch::Lang;
use crate::text::{to_upper, trim_text, trimmed, upper_of};

verus! {

/// What the operator asks for.
#[derive(Clone, Copy, Debug, PartialEq, Eq, Structural)]
pub struct Request {
    /// The language of the generated program.
    pub lang: Lang,
    /// The generated program answers every number of at most this many digits.
    pub target_number_len: u32,
}

/// Why a request line is refused.
#[derive(Clone, Copy, Debug, PartialEq, Eq, Structural)]
pub enum RequestError {
    /// The line does not hold exactly two fields.
    ArgumentCount,
    /// The first field names no supported language.
    UnsupportedLanguage,
    /// The second field is no decimal number that fits in 32 bits.
    InvalidNumber,
}

impl RequestError {
    /// A short description of the error.
    pub fn message(&self) -> (r: &'static str)
        ensures
            *self == RequestError::ArgumentCount ==> r@ == "Invalid arguments"@,
            *self == RequestError::UnsupportedLanguage ==> r@ == "Language is not support"@,
            *self == RequestError::InvalidNumber ==> r@ == "invalid digit count"@,
    {
        match self {
            RequestError::ArgumentCount => "Invalid arguments",
            RequestError::UnsupportedLanguage => "Language is not support",
            RequestError::InvalidNumber => "invalid digit count",
        }
    }
}

/// The fields of `s` between single spaces; two spaces in a row enclose an
/// empty field, and a text without spaces is one field.
pub open spec fn space_fields(s: Seq<char>) -> Seq<Seq<char>>
    decreases s.len(),
{
    if s.len() == 0 {
        seq![seq![]]
    } else {
        let p = space_fields(s.drop_last());
        if s.last() == ' ' {
            p.push(seq![])
        } else {
            p.update(p.len() - 1, p.last().push(s.last()))
        }
    }
}

/// The texts of a sequence of string slices.
pub open spec fn str_texts(v: Seq<&str>) -> Seq<Seq<char>> {
    v.map_values(|t: &str| t@)
}

/// The fields of `s` between single spaces.
pub fn split_fields(s: &str) -> (r: Vec<&str>)
    ensures
        str_texts(r@) == space_fields(s@),
{
    let n = s.unicode_len();
    let mut fields: Vec<&str> = Vec::new();
    let mut start: usize = 0;
    let mut i: usize = 0;
    assert(s@.subrange(0, 0) =~= Seq::<char>::empty());
    assert(str_texts(fields@).push(s@.subrange(0, 0)) =~= space_fields(s@.subrange(0, 0)));
    while i < n
        invariant
            n == s@.len(),
            start <= i <= n,
            space_fields(s@.subrange(0, i as int)) == str_texts(fields@).push(
                s@.subrange(start as int, i as int),
            ),
        decreases n - i,
    {
        let c = s.get_char(i);
        let ghost prefix = s@.subrange(0, i + 1);
        let ghost before = str_texts(fields@);
        let ghost current = s@.subrange(start as int, i as int);
        assert(prefix.drop_last() =~= s@.subrange(0, i as int));
        assert(prefix.last() == c);
        if c == ' ' {
            let field = s.substring_char(start, i);
            fields.push(field);
            start = i + 1;
            assert(str_texts(fields@) =~= before.push(current));
            assert(space_fields(prefix) == before.push(current).push(seq![]));
            assert(s@.subrange(start as int, i + 1) =~= Seq::<char>::empty());
        } else {
            let ghost p = before.push(current);
            assert(space_fields(prefix) == p.update(p.len() - 1, current.push(c)));
            assert(current.push(c) =~= s@.subrange(start as int, i + 1));
            assert(space_fields(prefix) =~= before.push(s@.subrange(start as int, i + 1)));
        }
        i = i + 1;
    }
    let last = s.substring_char(start, n);
    fields.push(last);
    assert(s@.subrange(0, n as int) =~= s@);
    assert(str_texts(fields@) =~= space_fields(s@));
    fields
}

/// The language that the upper-case name `u` denotes.
pub open spec fn lang_of_upper(u: Seq<char>) -> Option<Lang> {
    if u == "C"@ {
        Some(Lang::C)
    } else if u == "CC"@ {
        Some(Lang::CC)
    } else if u == "RUST"@ {
        Some(Lang::Rust)
    } else {
        None
    }
}

/// The language that the upper-case name `u` denotes, if any.
pub fn lang_from_upper(u: &str) -> (r: Option<Lang>)
    ensures
        r == lang_of_upper(u@),
{
    let c = String::from_str("C");
    let cc = String::from_str("CC");
    let rust = String::from_str("RUST");
    let given = String::from_str(u);
    if given == c {
        Some(Lang::C)
    } else if given == cc {
        Some(Lang::CC)
    } else if given == rust {
        Some(Lang::Rust)
    } else {
        None
    }
}

/// Whether `c` is an ASCII decimal digit.
pub open spec fn is_digit(c: char) -> bool {
    '0' <= c && c <= '9'
}

/// The value of the decimal digits `d`, most significant first.
pub open spec fn digits_value(d: Seq<char>) -> nat
    decreases d.len(),
{
    if d.len() == 0 {
        0
    } else {
        10 * digits_value(d.drop_last()) + ((d.last() as u32 - '0' as u32) as nat)
    }
}

/// The digits of a number text: what follows an optional leading plus sign.
pub open spec fn unsigned_digits(s: Seq<char>) -> Seq<char> {
    if s.len() > 0 && s[0] == '+' {
        s.drop_first()
    } else {
        s
    }
}

/// The unsigned 32-bit number that `s` writes in decimal: an optional plus
/// sign and at least one digit, of a value that fits.
pub open spec fn parse_u32(s: Seq<char>) -> Option<u32> {
    let d = unsigned_digits(s);
    if d.len() > 0 && (forall|k: int| 0 <= k < d.len() ==> is_digit(#[trigger] d[k]))
        && digits_value(d) <= u32::MAX {
        Some(digits_value(d) as u32)
    } else {
        None
    }
}

/// The unsigned 32-bit number that `s` writes in decimal, if any.
pub fn parse_digit_count(s: &str) -> (r: Option<u32>)
    ensures
        r == parse_u32(s@),
{
    let n = s.unicode_len();
    let mut i: usize = 0;
    if n > 0 && s.get_char(0) == '+' {
        i = 1;
    }
    let ghost first = i;
    let ghost d = unsigned_digits(s@);
    assert(d =~= s@.subrange(first as int, n as int));
    if i == n {
        return None;
    }
    let mut value: u64 = 0;
    let mut over = false;
    while i < n
        invariant
            n == s@.len(),
            first <= i <= n,
            d == s@.subrange(first as int, n as int),
            d == unsigned_digits(s@),
            forall|k: int| first <= k < i ==> is_digit(#[trigger] s@[k]),
            !over ==> value as nat == digits_value(s@.subrange(first as int, i as int)),
            !over ==> value <= u32::MAX,
            over ==> digits_value(s@.subrange(first as int, i as int)) > u32::MAX,
        decreases n - i,
    {
        let c = s.get_char(i);
        if c < '0' || c > '9' {
            assert(!is_digit(d[i - first]));
            return None;
        }
        let ghost prefix = s@.subrange(first as int, i + 1);
        assert(prefix.drop_last() =~= s@.subrange(first as int, i as int));
        if !over {
            value = value * 10 + (c as u64 - '0' as u64);
            if value > 0xffff_ffff {
                over = true;
            }
        }
        i = i + 1;
    }
    assert(s@.subrange(first as int, i as int) =~= d);
    if over {
        None
    } else {
        Some(value as u32)
    }
}

/// The request that a trimmed line `t` states, or why it states none: first
/// the count of fields, then the language, then the digit count.
pub open spec fn request_of(t: Seq<char>) -> Result<Request, RequestError> {
    let f = space_fields(t);
    if f.len() != 2 {
        Err(RequestError::ArgumentCount)
    } else {
        match lang_of_upper(upper_of(f[0])) {
            None => Err(RequestError::UnsupportedLanguage),
            Some(lang) => match parse_u32(f[1]) {
                None => Err(RequestError::InvalidNumber),
                Some(n) => Ok(Request { lang, target_number_len: n }),
            },
        }
    }
}

/// The request that the trimmed line `t` states, or why it states none.
pub fn parse_trimmed(t: &str) -> (r: Result<Request, RequestError>)
    ensures
        r == request_of(t@),
{
    let fields = split_fields(t);
    if fields.len() != 2 {
        return Err(RequestError::ArgumentCount);
    }
    let upper = to_upper(fields[0]);
    let lang = match lang_from_upper(upper.as_str()) {
        Some(lang) => lang,
        None => {
            return Err(RequestError::UnsupportedLanguage);
        },
    };
    match parse_digit_count(fields[1]) {
        Some(n) => Ok(Request { lang, target_number_len: n }),
        None => Err(RequestError::InvalidNumber),
    }
}

/// The request that `line` states once its surrounding white space is
/// removed, or why it states none.
pub fn parse_request(line: &str) -> (r: Result<Request, RequestError>)
    ensures
        r == request_of(trimmed(line@)),
{
    parse_trimmed(trim_text(line))
}

} // verus!
