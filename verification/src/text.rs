//! Texts: decimal numerals, integer parsing, and the few renderings that
//! come from the standard library.
use vstd::prelude::*;

verus! {

/// The character of a decimal digit `d < 10`.
pub open spec fn digit_char(d: nat) -> char {
    ((d + 48) as u8) as char
}

/// The decimal numeral of a natural number, without sign or leading zeros.
pub open spec fn decimal(n: nat) -> Seq<char>
    decreases n,
{
    if n < 10 {
        seq![digit_char(n)]
    } else {
        decimal(n / 10).push(digit_char(n % 10))
    }
}

/// The decimal numeral of an integer: a minus sign before negative numbers.
pub open spec fn int_text(i: int) -> Seq<char> {
    if i < 0 {
        seq!['-'] + decimal((-i) as nat)
    } else {
        decimal(i as nat)
    }
}

/// Whether a character is an ASCII decimal digit.
pub open spec fn is_digit_char(c: char) -> bool {
    '0' <= c <= '9'
}

pub open spec fn all_digits(t: Seq<char>) -> bool {
    forall|i: int| 0 <= i < t.len() ==> is_digit_char(#[trigger] t[i])
}

/// The number that a sequence of decimal digits denotes.
pub open spec fn digits_value(t: Seq<char>) -> nat
    decreases t.len(),
{
    if t.len() == 0 {
        0
    } else {
        digits_value(t.drop_last()) * 10 + ((t.last() as u32) - 48) as nat
    }
}

/// What parsing a text as an `i64` gives: an optional sign, then at least
/// one decimal digit, denoting a number in the range of `i64`.
pub open spec fn parse_int(t: Seq<char>) -> Option<i64> {
    let neg = t.len() > 0 && t[0] == '-';
    let digits = if t.len() > 0 && (t[0] == '-' || t[0] == '+') {
        t.drop_first()
    } else {
        t
    };
    if digits.len() == 0 || !all_digits(digits) {
        None
    } else if neg {
        if digits_value(digits) <= 0x8000_0000_0000_0000 {
            Some((0 - digits_value(digits)) as i64)
        } else {
            None
        }
    } else if digits_value(digits) <= i64::MAX {
        Some(digits_value(digits) as i64)
    } else {
        None
    }
}

/// What parsing a text as a `bool` gives.
pub open spec fn parse_bool(t: Seq<char>) -> Option<bool> {
    if t == "true"@ {
        Some(true)
    } else if t == "false"@ {
        Some(false)
    } else {
        None
    }
}

/// The text of a boolean.
pub open spec fn bool_text(b: bool) -> Seq<char> {
    if b {
        "true"@
    } else {
        "false"@
    }
}

/// The characters that bytes stand for when each is read as a character of its own.
pub open spec fn ascii_text(bytes: Seq<u8>) -> Seq<char> {
    Seq::new(bytes.len(), |i: int| bytes[i] as char)
}

/// Whether `c` has Unicode's `White_Space` property, which is what
/// `char::is_whitespace` tests and what `str::trim` removes.
pub open spec fn is_white(c: char) -> bool {
    let u = c as u32;
    ||| 0x9 <= u <= 0xD
    ||| u == 0x20
    ||| u == 0x85
    ||| u == 0xA0
    ||| u == 0x1680
    ||| 0x2000 <= u <= 0x200A
    ||| u == 0x2028
    ||| u == 0x2029
    ||| u == 0x202F
    ||| u == 0x205F
    ||| u == 0x3000
}

/// The first index at or after `i` that does not hold white space.
pub open spec fn skip_white(s: Seq<char>, i: int) -> int
    decreases s.len() - i,
{
    if 0 <= i < s.len() && is_white(s[i]) {
        skip_white(s, i + 1)
    } else {
        i
    }
}

/// The end of `s[lo..j]` once the white space at its end is dropped.
pub open spec fn drop_white_end(s: Seq<char>, lo: int, j: int) -> int
    decreases j - lo,
{
    if lo < j && is_white(s[j - 1]) {
        drop_white_end(s, lo, j - 1)
    } else {
        j
    }
}

/// `s` without the white space at its start and its end, as `str::trim`
/// gives it.
pub open spec fn trim(s: Seq<char>) -> Seq<char> {
    let a = skip_white(s, 0);
    s.subrange(a, drop_white_end(s, a, s.len() as int))
}

/// Whether `c` is white space (see `is_white`).
pub fn is_white_char(c: char) -> (r: bool)
    ensures
        r == is_white(c),
{
    let u = c as u32;
    (0x9 <= u && u <= 0xD) || u == 0x20 || u == 0x85 || u == 0xA0 || u == 0x1680 || (0x2000 <= u && u <= 0x200A)
        || u == 0x2028 || u == 0x2029 || u == 0x202F || u == 0x205F || u == 0x3000
}

/// The text without the white space at its start and its end.
pub fn trim_text(t: &str) -> (r: String)
    ensures
        r@ == trim(t@),
{
    let cs = chars_of(t);
    let ghost s = cs@;
    let mut a: usize = 0;
    while a < cs.len() && is_white_char(cs[a])
        invariant
            s == cs@,
            a <= cs@.len(),
            skip_white(s, a as int) == skip_white(s, 0),
        decreases cs@.len() - a,
    {
        a = a + 1;
    }
    let mut b: usize = cs.len();
    while a < b && is_white_char(cs[b - 1])
        invariant
            s == cs@,
            a <= b <= cs@.len(),
            skip_white(s, 0) == a,
            drop_white_end(s, a as int, b as int) == drop_white_end(s, a as int, s.len() as int),
        decreases b,
    {
        b = b - 1;
    }
    let mut r = String::new();
    let mut i: usize = a;
    while i < b
        invariant
            s == cs@,
            a <= i <= b <= cs@.len(),
            r@ == s.subrange(a as int, i as int),
        decreases b - i,
    {
        push_char(&mut r, cs[i]);
        assert(s.subrange(a as int, i + 1) == s.subrange(a as int, i as int).push(s[i as int]));
        i = i + 1;
    }
    assert(s == t@);
    r
}

/// How `{:?}` renders a character (quotes and escapes included).
pub uninterp spec fn char_debug(c: char) -> Seq<char>;

/// How `{:?}` renders a string (quotes and escapes included).
pub uninterp spec fn str_debug(s: Seq<char>) -> Seq<char>;

/// `String::push`: appends one character.
#[verifier::external_body]
pub(crate) fn push_char(s: &mut String, c: char)
    ensures
        final(s)@ == old(s)@.push(c),
{
    s.push(c);
}

/// `String::from_utf8`: the bytes as a string when they are valid UTF-8.
/// Claimed: the result is `Some` exactly for valid UTF-8, and then the
/// string's UTF-8 encoding is the given bytes.
#[verifier::external_body]
pub(crate) fn string_from_utf8(bytes: Vec<u8>) -> (r: Option<String>)
    ensures
        r is Some <==> vstd::utf8::valid_utf8(bytes@),
        r matches Some(s) ==> vstd::utf8::encode_utf8(s@) == bytes@,
{
    match String::from_utf8(bytes) {
        Ok(s) => Some(s),
        Err(_) => None,
    }
}

/// How `{:?}` shows a character: a printable ASCII character other than a
/// quote or a backslash as itself between single quotes, any other as
/// `char_debug` names it.
pub open spec fn shown_char(c: char) -> Seq<char> {
    if 0x20 <= c as u32 <= 0x7E && c != '\'' && c != '\\' {
        seq!['\'', c, '\'']
    } else {
        char_debug(c)
    }
}

/// `<char as Debug>::fmt`, through `format!("{:?}", ..)`. Claimed: the
/// result is the rendering named `char_debug`, and a printable ASCII
/// character other than a quote or a backslash is shown as itself between
/// single quotes; how the other characters are escaped is left unsaid.
#[verifier::external_body]
pub(crate) fn debug_char(c: char) -> (r: String)
    ensures
        r@ == char_debug(c),
        0x20 <= c as u32 <= 0x7E && c != '\'' && c != '\\' ==> r@ == seq!['\'', c, '\''],
{
    format!("{:?}", c)
}

/// `<str as Debug>::fmt`, through `format!("{:?}", ..)`. Claimed: the
/// result is the rendering named `str_debug`; what that rendering is
/// (which characters are escaped) is left unsaid.
#[verifier::external_body]
pub(crate) fn debug_str(s: &str) -> (r: String)
    ensures
        r@ == str_debug(s@),
{
    format!("{:?}", s)
}

/// Appends the decimal numeral of `m`.
pub fn push_decimal(s: &mut String, m: u64)
    ensures
        final(s)@ == old(s)@ + decimal(m as nat),
    decreases m,
{
    if m >= 10 {
        push_decimal(s, m / 10);
    }
    let d = (m % 10) as u8;
    push_char(s, (d + 48) as char);
    proof {
        assert(decimal(m as nat) == if m < 10 { seq![digit_char(m as nat)] } else {
            decimal((m / 10) as nat).push(digit_char((m % 10) as nat))
        });
    }
}

/// The decimal text of an `i64`, as `to_string` writes it.
pub fn int_to_text(n: i64) -> (r: String)
    ensures
        r@ == int_text(n as int),
{
    let mut s = String::new();
    if n < 0 {
        push_char(&mut s, '-');
        let m: u64 = if n == i64::MIN {
            0x8000_0000_0000_0000u64
        } else {
            (-n) as u64
        };
        push_decimal(&mut s, m);
    } else {
        push_decimal(&mut s, n as u64);
    }
    s
}

/// The decimal text of a `usize`.
pub fn usize_to_text(n: usize) -> (r: String)
    ensures
        r@ == decimal(n as nat),
{
    let mut s = String::new();
    push_decimal(&mut s, n as u64);
    assert(s@ == Seq::<char>::empty() + decimal(n as nat));
    s
}

/// The text of a boolean, as `to_string` writes it.
pub fn bool_to_text(b: bool) -> (r: String)
    ensures
        r@ == bool_text(b),
{
    if b {
        String::from_str("true")
    } else {
        String::from_str("false")
    }
}

/// The characters of a string.
pub fn chars_of(s: &str) -> (v: Vec<char>)
    ensures
        v@ == s@,
{
    let n = s.unicode_len();
    let mut v: Vec<char> = Vec::new();
    let mut i: usize = 0;
    while i < n
        invariant
            n == s@.len(),
            i <= n,
            v@ == s@.subrange(0, i as int),
        decreases n - i,
    {
        v.push(s.get_char(i));
        i = i + 1;
    }
    v
}

proof fn lemma_digits_value_prefix(t: Seq<char>, i: int)
    requires
        0 <= i <= t.len(),
    ensures
        digits_value(t.subrange(0, i)) <= digits_value(t),
    decreases t.len() - i,
{
    if i < t.len() {
        lemma_digits_value_prefix(t, i + 1);
        assert(t.subrange(0, i + 1).drop_last() == t.subrange(0, i));
    } else {
        assert(t.subrange(0, i) == t);
    }
}

/// The value of the digits `t[from..]`, or `None` when it exceeds `bound`.
fn digits_value_upto(t: &Vec<char>, from: usize, bound: u64) -> (r: Option<u64>)
    requires
        from <= t@.len(),
        all_digits(t@.subrange(from as int, t@.len() as int)),
        9 <= bound <= 0x8000_0000_0000_0000u64,
    ensures
        r matches Some(v) ==> v == digits_value(t@.subrange(from as int, t@.len() as int))
            && v <= bound,
        r is None ==> digits_value(t@.subrange(from as int, t@.len() as int)) > bound,
{
    let ghost d = t@.subrange(from as int, t@.len() as int);
    let mut acc: u64 = 0;
    let mut i: usize = from;
    while i < t.len()
        invariant
            from <= i <= t@.len(),
            d == t@.subrange(from as int, t@.len() as int),
            all_digits(d),
            9 <= bound <= 0x8000_0000_0000_0000u64,
            acc == digits_value(d.subrange(0, i - from)),
            acc <= bound,
        decreases t@.len() - i,
    {
        let c = t[i];
        assert(c == d[i - from]);
        assert(is_digit_char(c));
        let dv: u64 = ((c as u32) - 48) as u64;
        assert(d.subrange(0, i + 1 - from).drop_last() == d.subrange(0, i - from));
        if acc > (bound - dv) / 10 {
            assert(acc * 10 + dv > bound) by (nonlinear_arith)
                requires
                    acc > (bound - dv) / 10,
                    dv <= 9,
                    bound >= 9,
            ;
            proof {
                lemma_digits_value_prefix(d, i + 1 - from);
            }
            return None;
        }
        assert(acc * 10 + dv <= bound) by (nonlinear_arith)
            requires
                acc <= (bound - dv) / 10,
                dv <= 9,
                bound >= 9,
        ;
        acc = acc * 10 + dv;
        i = i + 1;
    }
    assert(d.subrange(0, i - from) == d);
    Some(acc)
}

/// Parses a text as an `i64`, as `str::parse::<i64>` does.
pub fn parse_int_text(t: &Vec<char>) -> (r: Option<i64>)
    ensures
        r == parse_int(t@),
{
    let n = t.len();
    if n == 0 {
        return None;
    }
    let first = t[0];
    let from: usize = if first == '-' || first == '+' {
        1
    } else {
        0
    };
    let ghost digits = t@.subrange(from as int, n as int);
    assert(digits == if t@.len() > 0 && (t@[0] == '-' || t@[0] == '+') {
        t@.drop_first()
    } else {
        t@
    });
    if from == n {
        return None;
    }
    let mut i = from;
    while i < n
        invariant
            from <= i <= n,
            n == t@.len(),
            digits == t@.subrange(from as int, n as int),
            n > 0,
            first == t@[0],
            from == (if first == '-' || first == '+' { 1usize } else { 0usize }),
            forall|j: int| from <= j < i ==> is_digit_char(#[trigger] t@[j]),
        decreases n - i,
    {
        if !(t[i] >= '0' && t[i] <= '9') {
            assert(!is_digit_char(digits[i - from]));
            assert(!all_digits(digits));
            assert(digits == if t@.len() > 0 && (t@[0] == '-' || t@[0] == '+') {
                t@.drop_first()
            } else {
                t@
            });
            return None;
        }
        i = i + 1;
    }
    assert(all_digits(digits)) by {
        assert forall|k: int| 0 <= k < digits.len() implies is_digit_char(#[trigger] digits[k]) by {
            assert(digits[k] == t@[k + from]);
        }
    }
    if first == '-' {
        match digits_value_upto(t, from, 0x8000_0000_0000_0000u64) {
            Some(v) => {
                if v == 0x8000_0000_0000_0000u64 {
                    Some(i64::MIN)
                } else {
                    Some(-(v as i64))
                }
            },
            None => None,
        }
    } else {
        match digits_value_upto(t, from, 0x7fff_ffff_ffff_ffffu64) {
            Some(v) => Some(v as i64),
            None => None,
        }
    }
}

/// Parses a text as a `bool`, as `str::parse::<bool>` does.
pub fn parse_bool_text(t: &String) -> (r: Option<bool>)
    ensures
        r == parse_bool(t@),
{
    let yes = String::from_str("true");
    let no = String::from_str("false");
    if *t == yes {
        Some(true)
    } else if *t == no {
        Some(false)
    } else {
        None
    }
}

} // verus!
