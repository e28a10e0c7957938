//! Text building blocks: comparison, decimal numbers, network addresses.
use vstd::prelude::*;

verus! {

/// Whether two strings hold the same characters.
pub fn same_text(a: &str, b: &str) -> (r: bool)
    ensures
        r == (a@ == b@),
{
    a.to_owned() == b.to_owned()
}

/// The character of a decimal digit.
pub open spec fn digit_char(d: nat) -> char
    recommends
        d < 10,
{
    (('0' as u32) + d) as char
}

/// The decimal notation of `n`, without leading zeros.
pub open spec fn decimal(n: nat) -> Seq<char>
    decreases n,
{
    if n < 10 {
        seq![digit_char(n)]
    } else {
        decimal(n / 10).push(digit_char(n % 10))
    }
}

fn digit_text(d: u64) -> (r: &'static str)
    requires
        d < 10,
    ensures
        r@ == seq![digit_char(d as nat)],
{
    proof {
        reveal_strlit("0");
        reveal_strlit("1");
        reveal_strlit("2");
        reveal_strlit("3");
        reveal_strlit("4");
        reveal_strlit("5");
        reveal_strlit("6");
        reveal_strlit("7");
        reveal_strlit("8");
        reveal_strlit("9");
    }
    let r = match d {
        0 => "0",
        1 => "1",
        2 => "2",
        3 => "3",
        4 => "4",
        5 => "5",
        6 => "6",
        7 => "7",
        8 => "8",
        _ => "9",
    };
    assert(r@ =~= seq![digit_char(d as nat)]);
    r
}

/// Writes `n` in decimal behind `out`.
pub fn append_decimal(out: &mut String, n: u64)
    ensures
        final(out)@ == old(out)@ + decimal(n as nat),
    decreases n,
{
    if n >= 10 {
        append_decimal(out, n / 10);
    }
    out.append(digit_text(n % 10));
    assert(out@ =~= old(out)@ + decimal(n as nat));
}

/// The `host:port` notation of an endpoint.
pub open spec fn endpoint_text(host: Seq<char>, port: u16) -> Seq<char> {
    host + seq![':'] + decimal(port as nat)
}

/// The `host:port` notation of an endpoint.
pub fn endpoint(host: &str, port: u16) -> (r: String)
    ensures
        r@ == endpoint_text(host@, port),
{
    let mut out = host.to_owned();
    proof {
        reveal_strlit(":");
    }
    out.append(":");
    append_decimal(&mut out, port as u64);
    assert(out@ =~= endpoint_text(host@, port));
    out
}

/// The characters of a string.
pub fn chars_of(s: &str) -> (r: Vec<char>)
    ensures
        r@ == s@,
{
    let mut out: Vec<char> = Vec::new();
    let n = s.unicode_len();
    let mut rest = s.chars();
    for i in 0..n
        invariant
            n == s@.len(),
            out@ == s@.take(i as int),
            vstd::std_specs::iter::IteratorSpec::remaining(&rest) == s@.skip(i as int),
            vstd::std_specs::iter::IteratorSpec::obeys_prophetic_iter_laws(&rest),
    {
        match rest.next() {
            Some(c) => {
                out.push(c);
            },
            None => {},
        }
        assert(s@.skip(i as int).drop_first() =~= s@.skip(i + 1));
        assert(out@ =~= s@.take(i + 1));
    }
    assert(s@.take(n as int) =~= s@);
    out
}

/// Whether `c` is a decimal digit.
pub open spec fn is_digit(c: char) -> bool {
    '0' <= c <= '9'
}

/// The number whose decimal digits `s` holds.
pub open spec fn digits_value(s: Seq<char>) -> nat
    decreases s.len(),
{
    if s.len() == 0 {
        0
    } else {
        (10 * digits_value(s.drop_last()) + (s.last() as u32 - '0' as u32)) as nat
    }
}

/// What stands behind an optional plus sign.
pub open spec fn behind_plus(s: Seq<char>) -> Seq<char> {
    if s.len() > 0 && s[0] == '+' {
        s.skip(1)
    } else {
        s
    }
}

/// Whether `c` has the Unicode property `White_Space`.
pub open spec fn is_white_space(c: char) -> bool {
    ||| '\u{9}' <= c <= '\u{D}'
    ||| c == '\u{20}'
    ||| c == '\u{85}'
    ||| c == '\u{A0}'
    ||| c == '\u{1680}'
    ||| '\u{2000}' <= c <= '\u{200A}'
    ||| c == '\u{2028}'
    ||| c == '\u{2029}'
    ||| c == '\u{202F}'
    ||| c == '\u{205F}'
    ||| c == '\u{3000}'
}

/// Whether `s` holds nothing but white space.
pub open spec fn is_blank_text(s: Seq<char>) -> bool {
    forall|i: int| 0 <= i < s.len() ==> is_white_space(#[trigger] s[i])
}

/// Whether `s` holds nothing but white space.
pub fn is_blank(s: &str) -> (r: bool)
    ensures
        r == is_blank_text(s@),
{
    let chars = chars_of(s);
    for i in 0..chars.len()
        invariant
            chars@ == s@,
            forall|j: int| 0 <= j < i ==> is_white_space(#[trigger] chars@[j]),
    {
        let c = chars[i];
        let white = ('\u{9}' <= c && c <= '\u{D}') || c == '\u{20}' || c == '\u{85}' || c
            == '\u{A0}' || c == '\u{1680}' || ('\u{2000}' <= c && c <= '\u{200A}') || c
            == '\u{2028}' || c == '\u{2029}' || c == '\u{202F}' || c == '\u{205F}' || c
            == '\u{3000}';
        if !white {
            assert(!is_white_space(s@[i as int]));
            return false;
        }
    }
    true
}

/// Whether `s` holds decimal digits only.
pub open spec fn all_digits(s: Seq<char>) -> bool {
    forall|i: int| 0 <= i < s.len() ==> is_digit(#[trigger] s[i])
}

/// The number that `s` notes: digits only, behind an optional plus sign, and at
/// least one of them. `None` also where the number does not fit.
pub open spec fn u8_value(s: Seq<char>) -> Option<u8> {
    let digits = behind_plus(s);
    if digits.len() > 0 && all_digits(digits) && digits_value(digits) <= u8::MAX {
        Some(digits_value(digits) as u8)
    } else {
        None
    }
}

proof fn lemma_digits_grow(s: Seq<char>, n: int)
    requires
        0 <= n <= s.len(),
        all_digits(s),
    ensures
        digits_value(s.take(n)) <= digits_value(s),
    decreases s.len() - n,
{
    if n == s.len() {
        assert(s.take(n) =~= s);
    } else {
        lemma_digits_grow(s, n + 1);
        assert(s.take(n + 1).drop_last() =~= s.take(n));
        assert(s.take(n + 1).last() == s[n]);
    }
}

/// Reads the number that the characters from `from` on note.
pub fn parse_u8(s: &Vec<char>, from: usize) -> (r: Option<u8>)
    requires
        from <= s@.len(),
    ensures
        r == u8_value(s@.skip(from as int)),
{
    let ghost text = s@.skip(from as int);
    let start = if from < s.len() && s[from] == '+' {
        from + 1
    } else {
        from
    };
    let ghost digits = s@.skip(start as int);
    assert(digits =~= behind_plus(text));
    if start == s.len() {
        return None;
    }
    let mut value: u32 = 0;
    for i in start..s.len()
        invariant
            start < s@.len(),
            digits == s@.skip(start as int),
            digits.len() == s@.len() - start,
            forall|j: int| 0 <= j < i - start ==> is_digit(#[trigger] digits[j]),
            value == digits_value(digits.take(i - start)),
            value <= u8::MAX,
            digits == behind_plus(text),
            text == s@.skip(from as int),
    {
        let c = s[i];
        assert(digits[i - start] == c);
        if c < '0' || c > '9' {
            return None;
        }
        value = 10 * value + (c as u32 - '0' as u32);
        assert(digits.take(i + 1 - start).drop_last() =~= digits.take(i - start));
        assert(digits.take(i + 1 - start).last() == c);
        if value > u8::MAX as u32 {
            proof {
                if all_digits(digits) {
                    lemma_digits_grow(digits, i + 1 - start);
                }
            }
            return None;
        }
    }
    assert(digits.take(s@.len() - start) =~= digits);
    Some(value as u8)
}

/// A digit stands for itself, and decimal notation is positional: a digit more
/// behind a number is ten times the number and the digit.
pub proof fn decimals_are_positional(n: nat, d: nat)
    requires
        d < 10,
    ensures
        decimal(d).len() == 1,
        decimal(d)[0] as int == 48 + d,
        n > 0 ==> decimal(10 * n + d) == decimal(n).push(decimal(d)[0]),
{
}

/// The notation of an endpoint is the host, a colon and the port in decimal.
pub proof fn endpoints_are_host_and_port(host: Seq<char>, port: u16)
    ensures
        endpoint_text(host, port).take(host.len() as int) == host,
        endpoint_text(host, port).skip(host.len() as int) == seq![':'] + decimal(port as nat),
{
    assert(endpoint_text(host, port).take(host.len() as int) =~= host);
    assert(endpoint_text(host, port).skip(host.len() as int) =~= seq![':'] + decimal(
        port as nat,
    ));
}

/// The white space of Unicode, by code point.
pub proof fn white_space_is_that_of_unicode(c: char)
    ensures
        is_blank_text(seq![c]) <==> {
            let code = c as int;
            ||| 9 <= code <= 13
            ||| code == 32
            ||| code == 0x85
            ||| code == 0xA0
            ||| code == 0x1680
            ||| 0x2000 <= code <= 0x200A
            ||| code == 0x2028
            ||| code == 0x2029
            ||| code == 0x202F
            ||| code == 0x205F
            ||| code == 0x3000
        },
{
    assert(seq![c][0] == c);
}

/// A text is blank exactly if both parts of it are, and one without characters is.
pub proof fn blank_texts_are_blank_throughout(a: Seq<char>, b: Seq<char>)
    ensures
        is_blank_text(Seq::empty()),
        is_blank_text(a + b) <==> is_blank_text(a) && is_blank_text(b),
{
    if is_blank_text(a + b) {
        assert forall|i: int| 0 <= i < a.len() implies is_white_space(#[trigger] a[i]) by {
            assert((a + b)[i] == a[i]);
        }
        assert forall|i: int| 0 <= i < b.len() implies is_white_space(#[trigger] b[i]) by {
            assert((a + b)[i + a.len()] == b[i]);
        }
    }
}

/// A number is read digit by digit: none is read where there is no digit, a plus
/// sign may stand in front, and a further digit makes it ten times as much and the
/// digit, if that fits. Whatever is no digit spoils it.
pub proof fn numbers_are_read_digit_by_digit(s: Seq<char>, c: char)
    ensures
        u8_value(Seq::empty()) is None,
        u8_value(seq!['+']) is None,
        s.len() > 0 && s[0] != '+' ==> u8_value(seq!['+'] + s) == u8_value(s),
        '0' <= c <= '9' ==> u8_value(seq![c]) == Some((c as u32 - 48) as u8),
        s.len() > 0 && !('0' <= c <= '9') ==> u8_value(s.push(c)) is None,
        '0' <= c <= '9' ==> match u8_value(s) {
            Some(v) => u8_value(s.push(c)) == if 10 * v + (c as u32 - 48) <= 255 {
                Some((10 * v + (c as u32 - 48)) as u8)
            } else {
                None
            },
            None => s.len() > 1 || (s.len() == 1 && s[0] != '+') ==> u8_value(s.push(c)) is None,
        },
{
    reveal_with_fuel(digits_value, 2);
    assert(seq![c].drop_last() =~= Seq::<char>::empty());
    assert(seq![c][0] == c);
    assert(behind_plus(seq!['+']) =~= Seq::<char>::empty());
    if s.len() > 0 && s[0] != '+' {
        assert((seq!['+'] + s).skip(1) =~= s);
    }
    let t = s.push(c);
    if s.len() > 0 {
        let digits = behind_plus(s);
        assert(behind_plus(t) =~= digits.push(c));
        assert(digits.push(c).drop_last() =~= digits);
        assert(digits.push(c)[digits.len() as int] == c);
        if all_digits(digits.push(c)) {
            assert forall|i: int| 0 <= i < digits.len() implies is_digit(#[trigger] digits[i]) by {
                assert(digits.push(c)[i] == digits[i]);
            }
        }
        if all_digits(digits) && is_digit(c) {
            assert forall|i: int| 0 <= i < digits.push(c).len() implies is_digit(
                #[trigger] digits.push(c)[i],
            ) by {
                if i < digits.len() {
                    assert(digits.push(c)[i] == digits[i]);
                }
            }
        }
    }
}

} // verus!
