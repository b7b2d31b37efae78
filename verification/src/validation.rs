//! Field validators of the settings forms, and the recognisers they rest on.

use vstd::prelude::*;
use crate::text::{bytes_of, str_byte_len, string_push};

verus! {

/// The Unicode `White_Space` property, which `char::is_whitespace` tests.
pub open spec fn white_space(c: char) -> bool {
    let u = c as u32;
    ||| 0x09 <= u <= 0x0D
    ||| u == 0x20
    ||| u == 0x85
    ||| u == 0xA0
    ||| u == 0x1680
    ||| 0x2000 <= u <= 0x200A
    ||| u == 0x2028
    ||| u == 0x2029
    ||| u == 0x202F
    ||| u == 0x205F
    ||| u == 0x3000
}

/// `char::is_whitespace` is documented to return whether the character has the
/// Unicode `White_Space` property.
pub assume_specification[ char::is_whitespace ](c: char) -> (b: bool)
    ensures
        b == white_space(c),
;

/// A string that trims to nothing: every character is white space.
pub open spec fn blank(s: Seq<char>) -> bool {
    forall|i: int| 0 <= i < s.len() ==> white_space(#[trigger] s[i])
}

/// Whether `s` holds only white space (so `s.trim()` is empty).
pub fn is_blank(s: &str) -> (b: bool)
    ensures
        b == blank(s@),
{
    let n = s.unicode_len();
    let mut i: usize = 0;
    while i < n
        invariant
            n == s@.len(),
            i <= n,
            forall|j: int| 0 <= j < i ==> white_space(#[trigger] s@[j]),
        decreases n - i,
    {
        let c = s.get_char(i);
        if !c.is_whitespace() {
            return false;
        }
        i = i + 1;
    }
    true
}


/// The characters of a string, in order.
pub fn chars_of(s: &str) -> (v: Vec<char>)
    ensures
        v@ == s@,
{
    let n = s.unicode_len();
    let mut v: Vec<char> = Vec::new();
    let mut i: usize = 0;
    while i < n
        invariant
            n == s@.len(),
            i <= n,
            v@ == s@.subrange(0, i as int),
        decreases n - i,
    {
        v.push(s.get_char(i));
        i = i + 1;
        assert(v@ =~= s@.subrange(0, i as int));
    }
    assert(v@ =~= s@);
    v
}

/// An ASCII decimal digit.
pub open spec fn is_digit(c: char) -> bool {
    '0' <= c <= '9'
}

/// Every character is a decimal digit.
pub open spec fn all_digits(s: Seq<char>) -> bool {
    forall|i: int| 0 <= i < s.len() ==> is_digit(#[trigger] s[i])
}

/// The number that a string of decimal digits denotes.
pub open spec fn digits_value(s: Seq<char>) -> nat
    decreases s.len(),
{
    if s.len() == 0 {
        0
    } else {
        digits_value(s.drop_last()) * 10 + ((s.last() as u32) - ('0' as u32)) as nat
    }
}

/// The digit character of `d` (below ten).
pub open spec fn digit_char(d: nat) -> char {
    ((d + ('0' as u32)) as u32) as char
}

/// The decimal numeral of `n`, as integers are displayed.
pub open spec fn decimal(n: nat) -> Seq<char>
    decreases n,
{
    if n < 10 {
        seq![digit_char(n)]
    } else {
        decimal(n / 10).push(digit_char(n % 10))
    }
}

/// The digit character of `d`.
fn digit_to_char(d: usize) -> (c: char)
    requires
        d < 10,
    ensures
        c == digit_char(d as nat),
{
    match d {
        0 => '0',
        1 => '1',
        2 => '2',
        3 => '3',
        4 => '4',
        5 => '5',
        6 => '6',
        7 => '7',
        8 => '8',
        _ => '9',
    }
}

/// The decimal numeral of `n`, as `usize` displays it.
pub fn usize_to_string(n: usize) -> (s: String)
    ensures
        s@ == decimal(n as nat),
    decreases n,
{
    if n < 10 {
        let mut s = String::new();
        string_push(&mut s, digit_to_char(n));
        proof {
            assert(s@ =~= decimal(n as nat));
        }
        s
    } else {
        let mut s = usize_to_string(n / 10);
        string_push(&mut s, digit_to_char(n % 10));
        s
    }
}

/// The decimal numeral of `n`, as `u64` displays it.
pub fn u64_to_string(n: u64) -> (s: String)
    ensures
        s@ == decimal(n as nat),
    decreases n,
{
    if n < 10 {
        let mut s = String::new();
        string_push(&mut s, digit_to_char(n as usize));
        proof {
            assert(s@ =~= decimal(n as nat));
        }
        s
    } else {
        let mut s = u64_to_string(n / 10);
        string_push(&mut s, digit_to_char((n % 10) as usize));
        s
    }
}

/// The value of the digit string `v[start..]`, if it is one and its value is
/// at most `cap`.
fn digits_value_capped(v: &Vec<char>, start: usize, cap: u64) -> (r: Option<u64>)
    requires
        start <= v@.len(),
    ensures
        match r {
            Some(x) => all_digits(v@.subrange(start as int, v@.len() as int))
                && x == digits_value(v@.subrange(start as int, v@.len() as int)) && x <= cap,
            None => !all_digits(v@.subrange(start as int, v@.len() as int))
                || digits_value(v@.subrange(start as int, v@.len() as int)) > cap,
        },
{
    let ghost d = v@.subrange(start as int, v@.len() as int);
    let mut acc: u64 = 0;
    let mut i: usize = start;
    let mut over = false;
    while i < v.len()
        invariant
            start <= i <= v@.len(),
            d == v@.subrange(start as int, v@.len() as int),
            all_digits(v@.subrange(start as int, i as int)),
            !over ==> acc == digits_value(v@.subrange(start as int, i as int)) && acc <= cap,
            over ==> digits_value(v@.subrange(start as int, i as int)) > cap,
        decreases v@.len() - i,
    {
        let c = v[i];
        if !('0' <= c && c <= '9') {
            proof {
                assert(d[i - start] == c);
            }
            return None;
        }
        let dv = (c as u32 - '0' as u32) as u64;
        proof {
            let p = v@.subrange(start as int, i + 1);
            assert(p.drop_last() =~= v@.subrange(start as int, i as int));
            assert(p.last() == c);
            assert forall|j: int| 0 <= j < p.len() implies is_digit(#[trigger] p[j]) by {
                if j < p.len() - 1 {
                    assert(p[j] == v@.subrange(start as int, i as int)[j]);
                }
            }
        }
        if !over {
            if dv > cap || acc > (cap - dv) / 10 {
                over = true;
                proof {
                    assert(acc * 10 + dv > cap) by (nonlinear_arith)
                        requires dv > cap || acc > (cap - dv) / 10, dv <= 9, acc <= cap, acc >= 0;
                }
            } else {
                proof {
                    assert(acc * 10 + dv <= cap) by (nonlinear_arith)
                        requires acc <= (cap - dv) / 10, dv <= 9;
                }
                acc = acc * 10 + dv;
            }
        } else {
            proof {
                let p = v@.subrange(start as int, i as int);
                assert(digits_value(p) * 10 + dv >= digits_value(p)) by (nonlinear_arith);
            }
        }
        i = i + 1;
    }
    proof {
        assert(v@.subrange(start as int, i as int) =~= d);
    }
    if over {
        None
    } else {
        Some(acc)
    }
}


/// `s` without one leading sign character, if it has one.
pub open spec fn unsigned_part(s: Seq<char>) -> Seq<char> {
    if s.len() > 0 && (s[0] == '+' || s[0] == '-') {
        s.drop_first()
    } else {
        s
    }
}

/// Text that `i64::from_str` accepts: an optional sign, then at least one
/// decimal digit, denoting a value inside the range of `i64`.
pub open spec fn i64_text(s: Seq<char>) -> bool {
    let d = unsigned_part(s);
    let limit: nat = if s.len() > 0 && s[0] == '-' {
        0x8000_0000_0000_0000
    } else {
        0x7FFF_FFFF_FFFF_FFFF
    };
    d.len() > 0 && all_digits(d) && digits_value(d) <= limit
}

/// Text that `u16::from_str` accepts: an optional `+`, then at least one
/// decimal digit, denoting at most 65535.
pub open spec fn u16_text(s: Seq<char>) -> bool {
    let d = if s.len() > 0 && s[0] == '+' { s.drop_first() } else { s };
    d.len() > 0 && all_digits(d) && digits_value(d) <= 65535
}

/// The value of text that `u16_text` accepts.
pub open spec fn u16_text_value(s: Seq<char>) -> nat {
    let d = if s.len() > 0 && s[0] == '+' { s.drop_first() } else { s };
    digits_value(d)
}

/// Whether `v[start..]` is a non-empty digit string worth at most `cap`.
fn digits_within(v: &Vec<char>, start: usize, cap: u64) -> (r: Option<u64>)
    requires
        start <= v@.len(),
    ensures
        match r {
            Some(x) => v@.len() > start && all_digits(v@.subrange(start as int, v@.len() as int))
                && x == digits_value(v@.subrange(start as int, v@.len() as int)) && x <= cap,
            None => !(v@.len() > start && all_digits(v@.subrange(start as int, v@.len() as int))
                && digits_value(v@.subrange(start as int, v@.len() as int)) <= cap),
        },
{
    if start == v.len() {
        return None;
    }
    digits_value_capped(v, start, cap)
}

/// Whether `i64::from_str` accepts `s`.
pub fn parses_as_i64(s: &str) -> (b: bool)
    ensures
        b == i64_text(s@),
{
    let v = chars_of(s);
    let neg = v.len() > 0 && v[0] == '-';
    let start: usize = if v.len() > 0 && (v[0] == '-' || v[0] == '+') { 1 } else { 0 };
    let cap: u64 = if neg { 0x8000_0000_0000_0000 } else { 0x7FFF_FFFF_FFFF_FFFF };
    proof {
        assert(v@.subrange(start as int, v@.len() as int) =~= unsigned_part(s@));
    }
    digits_within(&v, start, cap).is_some()
}

/// The port number that `u16::from_str` reads from `s`, if it accepts `s`.
pub fn parse_u16_text(s: &str) -> (r: Option<u16>)
    ensures
        match r {
            Some(x) => u16_text(s@) && x == u16_text_value(s@),
            None => !u16_text(s@),
        },
{
    let v = chars_of(s);
    let start: usize = if v.len() > 0 && v[0] == '+' { 1 } else { 0 };
    proof {
        let d = if s@.len() > 0 && s@[0] == '+' { s@.drop_first() } else { s@ };
        assert(v@.subrange(start as int, v@.len() as int) =~= d);
    }
    match digits_within(&v, start, 65535) {
        Some(x) => Some(x as u16),
        None => None,
    }
}

/// ASCII lower-casing, as `from_str` for floats compares its keywords.
pub open spec fn lower(c: char) -> char {
    if 'A' <= c <= 'Z' {
        (((c as u32) + 32) as u32) as char
    } else {
        c
    }
}

/// `s` spells `w` (given in lower case) in any mix of cases.
pub open spec fn spells(s: Seq<char>, w: Seq<char>) -> bool {
    s.len() == w.len() && forall|i: int| 0 <= i < s.len() ==> lower(#[trigger] s[i]) == w[i]
}

/// The exponent marker of a float literal.
pub open spec fn is_exp_mark(c: char) -> bool {
    c == 'e' || c == 'E'
}

/// `Digit+ | Digit+ '.' Digit* | Digit* '.' Digit+`: digits with at most one
/// point and at least one digit.
pub open spec fn mantissa_text(m: Seq<char>) -> bool {
    &&& forall|i: int| 0 <= i < m.len() ==> is_digit(#[trigger] m[i]) || m[i] == '.'
    &&& forall|i: int, j: int| 0 <= i < j < m.len() && #[trigger] m[i] == '.' ==> #[trigger] m[j] != '.'
    &&& exists|i: int| 0 <= i < m.len() && is_digit(#[trigger] m[i])
}

/// `'e' Sign? Digit+`, with the marker in either case.
pub open spec fn exponent_text(x: Seq<char>) -> bool {
    let r = unsigned_part(x.drop_first());
    x.len() > 0 && is_exp_mark(x[0]) && r.len() > 0 && all_digits(r)
}

/// `Number ::= Mantissa Exp?`.
pub open spec fn number_text(b: Seq<char>) -> bool {
    exists|k: int|
        0 <= k <= b.len() && #[trigger] mantissa_text(b.subrange(0, k)) && (k == b.len()
            || exponent_text(b.subrange(k, b.len() as int)))
}

/// Text that `f64::from_str` accepts, per its documented grammar:
/// `Sign? ( 'inf' | 'infinity' | 'nan' | Number )`, letters in any case.
pub open spec fn float_text(s: Seq<char>) -> bool {
    let b = unsigned_part(s);
    ||| spells(b, seq!['i', 'n', 'f'])
    ||| spells(b, seq!['i', 'n', 'f', 'i', 'n', 'i', 't', 'y'])
    ||| spells(b, seq!['n', 'a', 'n'])
    ||| number_text(b)
}

/// Whether `v[start..]` spells the lower-case word `w` in any case.
fn spells_at(v: &Vec<char>, start: usize, w: &Vec<char>) -> (b: bool)
    requires
        start <= v@.len(),
        forall|i: int| 0 <= i < w@.len() ==> 'a' <= #[trigger] w@[i] <= 'z',
    ensures
        b == spells(v@.subrange(start as int, v@.len() as int), w@),
{
    let ghost t = v@.subrange(start as int, v@.len() as int);
    let n = v.len();
    if n - start != w.len() {
        return false;
    }
    let mut i: usize = 0;
    while i < w.len()
        invariant
            n == v@.len(),
            start + w@.len() == n,
            start <= v@.len(),
            t == v@.subrange(start as int, v@.len() as int),
            t.len() == w@.len(),
            0 <= i <= w@.len(),
            forall|k: int| 0 <= k < w@.len() ==> 'a' <= #[trigger] w@[k] <= 'z',
            forall|k: int| 0 <= k < i ==> lower(#[trigger] t[k]) == w@[k],
        decreases w@.len() - i,
    {
        let c = v[start + i];
        let wc = w[i];
        assert(t[i as int] == c);
        if !(c == wc || ((wc as u32) >= 32 && (c as u32) == (wc as u32) - 32)) {
            return false;
        }
        i = i + 1;
    }
    true
}

/// Whether `v[lo..hi]` is a mantissa.
fn mantissa_at(v: &Vec<char>, lo: usize, hi: usize) -> (b: bool)
    requires
        lo <= hi <= v@.len(),
    ensures
        b == mantissa_text(v@.subrange(lo as int, hi as int)),
{
    let ghost m = v@.subrange(lo as int, hi as int);
    let mut i: usize = lo;
    let mut dot: Option<usize> = None;
    let mut digit: Option<usize> = None;
    while i < hi
        invariant
            lo <= i <= hi <= v@.len(),
            m == v@.subrange(lo as int, hi as int),
            forall|k: int| 0 <= k < i - lo ==> is_digit(#[trigger] m[k]) || m[k] == '.',
            match dot {
                Some(d) => lo <= d < i && m[d - lo] == '.' && forall|k: int|
                    0 <= k < i - lo && k != d - lo ==> #[trigger] m[k] != '.',
                None => forall|k: int| 0 <= k < i - lo ==> #[trigger] m[k] != '.',
            },
            match digit {
                Some(d) => lo <= d < i && is_digit(m[d - lo]),
                None => forall|k: int| 0 <= k < i - lo ==> !is_digit(#[trigger] m[k]),
            },
        decreases hi - i,
    {
        let c = v[i];
        assert(m[i - lo] == c);
        if '0' <= c && c <= '9' {
            digit = Some(i);
        } else if c == '.' {
            match dot {
                Some(d) => {
                    assert(m[d - lo] == '.' && m[i - lo] == '.');
                    return false;
                },
                None => {
                    dot = Some(i);
                },
            }
        } else {
            return false;
        }
        i = i + 1;
    }
    match digit {
        Some(d) => {
            assert(is_digit(m[d - lo]));
            true
        },
        None => false,
    }
}

/// Whether `v[lo..]` is an exponent.
fn exponent_at(v: &Vec<char>, lo: usize) -> (b: bool)
    requires
        lo < v@.len(),
    ensures
        b == exponent_text(v@.subrange(lo as int, v@.len() as int)),
{
    let ghost x = v@.subrange(lo as int, v@.len() as int);
    if !(v[lo] == 'e' || v[lo] == 'E') {
        return false;
    }
    let n = v.len();
    let start: usize = if lo < n - 1 && (v[lo + 1] == '+' || v[lo + 1] == '-') {
        lo + 2
    } else {
        lo + 1
    };
    proof {
        assert(v@.subrange(start as int, v@.len() as int) =~= unsigned_part(x.drop_first()));
    }
    start < n && digits_from(v, start)
}

/// Whether `v[start..]` consists of decimal digits only.
fn digits_from(v: &Vec<char>, start: usize) -> (b: bool)
    requires
        start <= v@.len(),
    ensures
        b == all_digits(v@.subrange(start as int, v@.len() as int)),
{
    let ghost d = v@.subrange(start as int, v@.len() as int);
    let mut i: usize = start;
    while i < v.len()
        invariant
            start <= i <= v@.len(),
            d == v@.subrange(start as int, v@.len() as int),
            forall|k: int| 0 <= k < i - start ==> is_digit(#[trigger] d[k]),
        decreases v@.len() - i,
    {
        let c = v[i];
        assert(d[i - start] == c);
        if !('0' <= c && c <= '9') {
            return false;
        }
        i = i + 1;
    }
    true
}


/// Whether `f64::from_str` accepts `s` (its result is never needed, only
/// whether it is an error).
pub fn parses_as_float(s: &str) -> (b: bool)
    ensures
        b == float_text(s@),
{
    let v = chars_of(s);
    let n = v.len();
    let start: usize = if n > 0 && (v[0] == '+' || v[0] == '-') { 1 } else { 0 };
    let ghost b = unsigned_part(s@);
    proof {
        assert(v@.subrange(start as int, n as int) =~= b);
    }
    let inf = vec!['i', 'n', 'f'];
    let infinity = vec!['i', 'n', 'f', 'i', 'n', 'i', 't', 'y'];
    let nan = vec!['n', 'a', 'n'];
    proof {
        assert(inf@ =~= seq!['i', 'n', 'f']);
        assert(infinity@ =~= seq!['i', 'n', 'f', 'i', 'n', 'i', 't', 'y']);
        assert(nan@ =~= seq!['n', 'a', 'n']);
    }
    if spells_at(&v, start, &inf) || spells_at(&v, start, &infinity) || spells_at(&v, start, &nan) {
        return true;
    }
    let mut k: usize = start;
    while k < n && !(v[k] == 'e' || v[k] == 'E')
        invariant
            n == v@.len(),
            start <= k <= n,
            forall|j: int| start <= j < k ==> !is_exp_mark(#[trigger] v@[j]),
        decreases n - k,
    {
        k = k + 1;
    }
    let ok = mantissa_at(&v, start, k) && (k == n || exponent_at(&v, k));
    proof {
        let kk = (k - start) as int;
        assert(b.subrange(0, kk) =~= v@.subrange(start as int, k as int));
        assert(b.subrange(kk, b.len() as int) =~= v@.subrange(k as int, n as int));
        if !ok {
            assert forall|k2: int|
                0 <= k2 <= b.len() && #[trigger] mantissa_text(b.subrange(0, k2)) implies !(k2
                == b.len() || exponent_text(b.subrange(k2, b.len() as int))) by {
                if k2 < kk {
                    assert(b.subrange(k2, b.len() as int)[0] == v@[start + k2]);
                } else if k2 > kk {
                    let m = b.subrange(0, k2);
                    assert(m[kk] == v@[k as int]);
                }
            }
        }
    }
    ok
}


/// `regex::Regex`, carried as an opaque value.
#[verifier::external_type_specification]
#[verifier::external_body]
pub struct ExRegex(regex::Regex);

/// Whether the regex crate accepts `pattern` (what `Regex::new` decides).
pub uninterp spec fn regex_compiles(pattern: Seq<char>) -> bool;

/// Whether the regex that `pattern` denotes matches somewhere in `haystack`
/// (what `Regex::is_match` decides).
pub uninterp spec fn regex_matches(pattern: Seq<char>, haystack: Seq<char>) -> bool;

/// A regex together with the pattern it was compiled from.
struct CompiledPattern {
    source: String,
    re: regex::Regex,
}

/// `regex::Regex::new`: compiles `pattern`, or fails on a pattern it rejects.
/// Claimed: success exactly when the pattern is accepted, and the compiled
/// value remembers its pattern.
#[verifier::external_body]
fn compile_pattern(pattern: &str) -> (r: Option<CompiledPattern>)
    ensures
        r is Some <==> regex_compiles(pattern@),
        r matches Some(p) ==> p.source@ == pattern@,
{
    match regex::Regex::new(pattern) {
        Ok(re) => Some(CompiledPattern { source: pattern.to_string(), re }),
        Err(_) => None,
    }
}

/// `regex::Regex::is_match`: whether the compiled pattern matches `text`.
#[verifier::external_body]
fn pattern_is_match(p: &CompiledPattern, text: &str) -> (b: bool)
    ensures
        b == regex_matches(p.source@, text@),
{
    p.re.is_match(text)
}

/// Whether `pattern` compiles and matches `text`.
fn regex_accepts(pattern: &str, text: &str) -> (b: bool)
    ensures
        b == (regex_compiles(pattern@) && regex_matches(pattern@, text@)),
{
    match compile_pattern(pattern) {
        Some(p) => pattern_is_match(&p, text),
        None => false,
    }
}

/// Whether the url crate parses `input` as an absolute URL
/// (what `url::Url::parse` decides).
pub uninterp spec fn url_parses(input: Seq<char>) -> bool;

/// `url::Url::parse`, reduced to whether it succeeds.
#[verifier::external_body]
fn url_parse_ok(input: &str) -> (b: bool)
    ensures
        b == url_parses(input@),
{
    url::Url::parse(input).is_ok()
}

/// Pattern that an e-mail address must match.
pub const EMAIL_PATTERN: &'static str = "^[^\\s@]+@[^\\s@]+\\.[^\\s@]+$";

/// Pattern that a host name must match.
pub const HOSTNAME_PATTERN: &'static str = "^[a-zA-Z0-9]([a-zA-Z0-9-]{0,61}[a-zA-Z0-9])?(\\.[a-zA-Z0-9]([a-zA-Z0-9-]{0,61}[a-zA-Z0-9])?)*$";

/// `Some(m)` with `m` spelling `text`.
pub open spec fn message(r: Option<String>, text: Seq<char>) -> bool {
    r matches Some(m) && m@ == text
}

/// Form validation helpers. Each returns `None` when the value is acceptable
/// and `Some(message)` otherwise.
pub struct FormValidator;

impl FormValidator {
    /// A required field must hold something other than white space.
    pub fn required(value: &str) -> (r: Option<String>)
        ensures
            blank(value@) ==> message(r, "This field is required"@),
            !blank(value@) ==> r is None,
    {
        if is_blank(value) {
            Some(String::from_str("This field is required"))
        } else {
            None
        }
    }

    /// An e-mail address: empty is accepted (see `required`), otherwise the
    /// value must match `EMAIL_PATTERN`.
    pub fn email(value: &str) -> (r: Option<String>)
        ensures
            blank(value@) ==> r is None,
            !blank(value@) ==> (r is None <==> regex_compiles(EMAIL_PATTERN@) && regex_matches(
                EMAIL_PATTERN@,
                value@,
            )),
            r is Some ==> message(r, "Invalid email format"@),
    {
        if is_blank(value) {
            return None;
        }
        if !regex_accepts(EMAIL_PATTERN, value) {
            Some(String::from_str("Invalid email format"))
        } else {
            None
        }
    }

    /// At least `min` bytes.
    pub fn min_length(value: &str, min: usize) -> (r: Option<String>)
        ensures
            bytes_of(value@).len() < min ==> message(
                r,
                "Must be at least "@ + decimal(min as nat) + " characters"@,
            ),
            bytes_of(value@).len() >= min ==> r is None,
    {
        if str_byte_len(value) < min {
            let mut m = String::from_str("Must be at least ");
            let n = usize_to_string(min);
            m.append(n.as_str());
            m.append(" characters");
            Some(m)
        } else {
            None
        }
    }

    /// At most `max` bytes.
    pub fn max_length(value: &str, max: usize) -> (r: Option<String>)
        ensures
            bytes_of(value@).len() > max ==> message(
                r,
                "Must be at most "@ + decimal(max as nat) + " characters"@,
            ),
            bytes_of(value@).len() <= max ==> r is None,
    {
        if str_byte_len(value) > max {
            let mut m = String::from_str("Must be at most ");
            let n = usize_to_string(max);
            m.append(n.as_str());
            m.append(" characters");
            Some(m)
        } else {
            None
        }
    }

    /// A number as `f64::from_str` reads one; empty is accepted.
    pub fn numeric(value: &str) -> (r: Option<String>)
        ensures
            blank(value@) || float_text(value@) ==> r is None,
            !blank(value@) && !float_text(value@) ==> message(r, "Must be a valid number"@),
    {
        if is_blank(value) {
            return None;
        }
        if !parses_as_float(value) {
            Some(String::from_str("Must be a valid number"))
        } else {
            None
        }
    }

    /// An integer as `i64::from_str` reads one; empty is accepted.
    pub fn integer(value: &str) -> (r: Option<String>)
        ensures
            blank(value@) || i64_text(value@) ==> r is None,
            !blank(value@) && !i64_text(value@) ==> message(r, "Must be a valid integer"@),
    {
        if is_blank(value) {
            return None;
        }
        if !parses_as_i64(value) {
            Some(String::from_str("Must be a valid integer"))
        } else {
            None
        }
    }

    /// An absolute URL as the url crate parses one; empty is accepted.
    pub fn url(value: &str) -> (r: Option<String>)
        ensures
            blank(value@) || url_parses(value@) ==> r is None,
            !blank(value@) && !url_parses(value@) ==> message(r, "Invalid URL format"@),
    {
        if is_blank(value) {
            return None;
        }
        if !url_parse_ok(value) {
            Some(String::from_str("Invalid URL format"))
        } else {
            None
        }
    }

    /// A host name or IP address; empty is accepted. `is_ip_address` tells
    /// whether the value parses as an IP address.
    pub fn hostname(value: &str, is_ip_address: bool) -> (r: Option<String>)
        ensures
            blank(value@) || is_ip_address ==> r is None,
            !blank(value@) && !is_ip_address ==> (r is None <==> regex_compiles(HOSTNAME_PATTERN@)
                && regex_matches(HOSTNAME_PATTERN@, value@)),
            r is Some ==> message(r, "Invalid hostname or IP address"@),
    {
        if is_blank(value) {
            return None;
        }
        if is_ip_address {
            return None;
        }
        if !regex_accepts(HOSTNAME_PATTERN, value) {
            Some(String::from_str("Invalid hostname or IP address"))
        } else {
            None
        }
    }

    /// A port number from 1 to 65535; empty is accepted.
    pub fn port(value: &str) -> (r: Option<String>)
        ensures
            blank(value@) ==> r is None,
            !blank(value@) ==> (r is None <==> u16_text(value@) && u16_text_value(value@) > 0),
            r is Some ==> message(r, "Invalid port number (must be 1-65535)"@),
    {
        if is_blank(value) {
            return None;
        }
        match parse_u16_text(value) {
            Some(p) => {
                if p > 0 {
                    None
                } else {
                    Some(String::from_str("Invalid port number (must be 1-65535)"))
                }
            },
            None => Some(String::from_str("Invalid port number (must be 1-65535)")),
        }
    }

    /// An existing path; empty is accepted. `exists` tells whether the path
    /// exists on disk.
    pub fn file_exists(value: &str, exists: bool) -> (r: Option<String>)
        ensures
            blank(value@) || exists ==> r is None,
            !blank(value@) && !exists ==> message(r, "File does not exist"@),
    {
        if is_blank(value) {
            return None;
        }
        if !exists {
            Some(String::from_str("File does not exist"))
        } else {
            None
        }
    }

    /// An existing directory; empty is accepted. `exists` and `is_dir` tell
    /// what the file system holds at the path.
    pub fn dir_exists(value: &str, exists: bool, is_dir: bool) -> (r: Option<String>)
        ensures
            blank(value@) || (exists && is_dir) ==> r is None,
            !blank(value@) && !exists ==> message(r, "Directory does not exist"@),
            !blank(value@) && exists && !is_dir ==> message(r, "Path is not a directory"@),
    {
        if is_blank(value) {
            return None;
        }
        if !exists {
            Some(String::from_str("Directory does not exist"))
        } else if !is_dir {
            Some(String::from_str("Path is not a directory"))
        } else {
            None
        }
    }

    /// Runs the validators in order and returns the first error.
    pub fn combine<F: Fn(&str) -> Option<String>>(value: &str, validators: &[F]) -> (r: Option<
        String,
    >)
        requires
            forall|i: int| 0 <= i < validators@.len() ==> call_requires(validators@[i], (value,)),
        ensures
            r is None ==> forall|i: int|
                0 <= i < validators@.len() ==> call_ensures(
                    validators@[i],
                    (value,),
                    None::<String>,
                ),
            r is Some ==> exists|i: int|
                0 <= i < validators@.len() && call_ensures(validators@[i], (value,), r) && forall|
                    j: int,
                | 0 <= j < i ==> call_ensures(validators@[j], (value,), None::<String>),
    {
        let mut k: usize = 0;
        while k < validators.len()
            invariant
                k <= validators@.len(),
                forall|i: int| 0 <= i < validators@.len() ==> call_requires(validators@[i], (value,)),
                forall|i: int| 0 <= i < k ==> call_ensures(validators@[i], (value,), None::<String>),
            decreases validators@.len() - k,
        {
            let v = &validators[k];
            let res = v(value);
            match res {
                Some(e) => {
                    return Some(e);
                },
                None => {},
            }
            k = k + 1;
        }
        None
    }
}


/// Every value that the integer check accepts, the number check accepts too:
/// an integer numeral is a float numeral without point or exponent.
pub proof fn law_integer_is_numeric(s: Seq<char>)
    ensures
        i64_text(s) ==> float_text(s),
{
    if i64_text(s) {
        let d = unsigned_part(s);
        assert(d.subrange(0, d.len() as int) =~= d);
        assert(is_digit(d[0]));
        assert(mantissa_text(d.subrange(0, d.len() as int)));
        assert(number_text(d));
    }
}

/// Every value that the port check accepts, the integer check accepts too.
pub proof fn law_port_is_integer(s: Seq<char>)
    ensures
        u16_text(s) ==> i64_text(s),
{
    if u16_text(s) {
        if s.len() > 0 && s[0] == '-' {
            assert(!is_digit(s[0]));
        }
    }
}

} // verus!
