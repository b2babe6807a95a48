//! Text helpers: decimal numbers, durations, markdown escaping.
use vstd::prelude::*;

verus! {

/// The character of a decimal digit.
pub open spec fn digit_char(d: int) -> char {
    if d == 0 {
        '0'
    } else if d == 1 {
        '1'
    } else if d == 2 {
        '2'
    } else if d == 3 {
        '3'
    } else if d == 4 {
        '4'
    } else if d == 5 {
        '5'
    } else if d == 6 {
        '6'
    } else if d == 7 {
        '7'
    } else if d == 8 {
        '8'
    } else {
        '9'
    }
}

/// The decimal digits of `n`, without leading zeros ("0" for zero).
pub open spec fn decimal(n: nat) -> Seq<char>
    decreases n,
{
    if n < 10 {
        seq![digit_char(n as int)]
    } else {
        decimal(n / 10) + seq![digit_char((n % 10) as int)]
    }
}

/// The decimal form of an integer, with a leading minus sign when it is negative.
pub open spec fn signed_decimal(n: int) -> Seq<char> {
    if n < 0 {
        seq!['-'] + decimal((-n) as nat)
    } else {
        decimal(n as nat)
    }
}

/// Pads `s` on the left with zeros to at least two characters.
pub open spec fn pad2(s: Seq<char>) -> Seq<char> {
    if s.len() < 2 {
        seq!['0'] + s
    } else {
        s
    }
}

/// Appends one character to a string (`String::push`).
#[verifier::external_body]
pub(crate) fn push_char(s: &mut String, c: char)
    ensures
        final(s)@ == old(s)@.push(c),
{
    s.push(c)
}

/// Appends the decimal digits of `n`.
pub fn push_decimal(s: &mut String, n: u64)
    ensures
        final(s)@ == old(s)@ + decimal(n as nat),
    decreases n,
{
    let ghost start = s@;
    if n >= 10 {
        push_decimal(s, n / 10);
    }
    let d = n % 10;
    let digit = if d == 0 {
        "0"
    } else if d == 1 {
        "1"
    } else if d == 2 {
        "2"
    } else if d == 3 {
        "3"
    } else if d == 4 {
        "4"
    } else if d == 5 {
        "5"
    } else if d == 6 {
        "6"
    } else if d == 7 {
        "7"
    } else if d == 8 {
        "8"
    } else {
        "9"
    };
    proof {
        reveal_strlit("0");
        reveal_strlit("1");
        reveal_strlit("2");
        reveal_strlit("3");
        reveal_strlit("4");
        reveal_strlit("5");
        reveal_strlit("6");
        reveal_strlit("7");
        reveal_strlit("8");
        reveal_strlit("9");
    }
    assert(digit@ =~= seq![digit_char(d as int)]);
    s.append(digit);
    assert(s@ =~= start + decimal(n as nat));
}

/// The decimal form of `n`.
pub fn decimal_string(n: u64) -> (s: String)
    ensures
        s@ == decimal(n as nat),
{
    let mut s = String::new();
    push_decimal(&mut s, n);
    assert(s@ =~= decimal(n as nat));
    s
}

/// Appends the decimal form of a signed integer.
pub fn push_signed_decimal(s: &mut String, n: i64)
    ensures
        final(s)@ == old(s)@ + signed_decimal(n as int),
{
    let ghost start = s@;
    if n < 0 {
        push_char(s, '-');
        let m: u64 = if n == i64::MIN {
            9223372036854775808u64
        } else {
            (-n) as u64
        };
        push_decimal(s, m);
        assert(s@ =~= start + signed_decimal(n as int));
    } else {
        push_decimal(s, n as u64);
    }
}

/// Appends the decimal digits of `n`, padded with zeros to two characters.
fn push_pad2(s: &mut String, n: u64)
    ensures
        final(s)@ == old(s)@ + pad2(decimal(n as nat)),
{
    let ghost start = s@;
    if n < 10 {
        push_char(s, '0');
    } else {
        assert(decimal(n as nat).len() >= 2) by {
            assert(decimal(n as nat) == decimal(n as nat / 10) + seq![digit_char((n % 10) as int)]);
            lemma_decimal_nonempty((n / 10) as nat);
        }
    }
    push_decimal(s, n);
    assert(s@ =~= start + pad2(decimal(n as nat)));
}

/// The decimal digits of a number are never empty.
pub proof fn lemma_decimal_nonempty(n: nat)
    ensures
        decimal(n).len() >= 1,
    decreases n,
{
    if n >= 10 {
        lemma_decimal_nonempty(n / 10);
    }
}

/// `hh:mm:ss` for a number of seconds; the hours grow past two digits when needed.
pub open spec fn hhmmss_text(secs: nat) -> Seq<char> {
    pad2(decimal(secs / 3600)) + seq![':'] + pad2(decimal((secs % 3600) / 60)) + seq![':']
        + pad2(decimal(secs % 60))
}

/// Formats seconds as hours, minutes and seconds: `hh:mm:ss`.
pub fn hhmmss(secs: u64) -> (s: String)
    ensures
        s@ == hhmmss_text(secs as nat),
{
    let hours = secs / 3600;
    let minutes = (secs % 3600) / 60;
    let seconds = secs % 60;
    let mut s = String::new();
    push_pad2(&mut s, hours);
    push_char(&mut s, ':');
    push_pad2(&mut s, minutes);
    push_char(&mut s, ':');
    push_pad2(&mut s, seconds);
    assert(s@ =~= hhmmss_text(secs as nat));
    s
}

/// Whether bit number `bit` of `value` is set.
pub fn get_bit(value: u16, bit: u8) -> (b: bool)
    requires
        bit < 16,
    ensures
        b == ((value >> bit) & 1u16 == 1u16),
{
    let r = value & (1u16 << bit) > 0;
    assert(((value & (1u16 << bit)) > 0) == ((value >> bit) & 1u16 == 1u16)) by (bit_vector)
        requires
            bit < 16,
    ;
    r
}

/// The characters of a string, in order.
pub fn chars_of(s: &str) -> (v: Vec<char>)
    ensures
        v@ == s@,
{
    let n = s.unicode_len();
    let mut v: Vec<char> = Vec::with_capacity(n);
    let mut i: usize = 0;
    while i < n
        invariant
            i <= n,
            n == s@.len(),
            v@ == s@.take(i as int),
        decreases n - i,
    {
        v.push(s.get_char(i));
        i = i + 1;
        assert(v@ =~= s@.take(i as int));
    }
    assert(s@.take(n as int) =~= s@);
    v
}

/// The string made of the given characters.
pub fn string_of(cs: &Vec<char>) -> (s: String)
    ensures
        s@ == cs@,
{
    let mut s = String::new();
    let mut i: usize = 0;
    while i < cs.len()
        invariant
            i <= cs@.len(),
            s@ == cs@.take(i as int),
        decreases cs@.len() - i,
    {
        push_char(&mut s, cs[i]);
        i = i + 1;
        assert(s@ =~= cs@.take(i as int));
    }
    assert(cs@.take(cs@.len() as int) =~= cs@);
    s
}

/// The first `max_chars` characters of `s` (all of `s` when it is shorter).
pub fn truncate(s: &str, max_chars: usize) -> (r: &str)
    ensures
        r@ == s@.take(if max_chars < s@.len() {
            max_chars as int
        } else {
            s@.len() as int
        }),
{
    let n = s.unicode_len();
    let end = if max_chars < n {
        max_chars
    } else {
        n
    };
    s.substring_char(0, end)
}

/// `s` without its backticks.
pub open spec fn without_backticks(s: Seq<char>) -> Seq<char> {
    s.filter(|c: char| c != '`')
}

/// Removes every backtick from `s`.
pub fn remove_backticks(s: &str) -> (r: String)
    ensures
        r@ == without_backticks(s@),
{
    let cs = chars_of(s);
    let mut out = String::new();
    let mut i: usize = 0;
    while i < cs.len()
        invariant
            i <= cs@.len(),
            cs@ == s@,
            out@ == without_backticks(cs@.take(i as int)),
        decreases cs@.len() - i,
    {
        let c = cs[i];
        proof {
            let p = |c: char| c != '`';
            assert(cs@.take(i + 1) =~= cs@.take(i as int).push(c));
            cs@.take(i as int).lemma_filter_push(c, p);
        }
        if c != '`' {
            push_char(&mut out, c);
        }
        i = i + 1;
    }
    assert(cs@.take(cs@.len() as int) =~= cs@);
    out
}

/// Characters that markdown treats specially and that get a backslash in front.
pub open spec fn is_markdown_char(c: char) -> bool {
    c == '*' || c == '>' || c == '_' || c == '-' || c == '#' || c == '~' || c == '`' || c == '['
}

/// How one character comes out of [`strip_markdown`]: a special character gets two
/// backslashes in front (one is added for it, then every backslash is doubled), a
/// backslash becomes two, anything else stays.
pub open spec fn escape_char(c: char) -> Seq<char> {
    if is_markdown_char(c) {
        seq!['\\', '\\', c]
    } else if c == '\\' {
        seq!['\\', '\\']
    } else {
        seq![c]
    }
}

/// `s` with every character replaced as [`escape_char`] says.
pub open spec fn escape_markdown(s: Seq<char>) -> Seq<char>
    decreases s.len(),
{
    if s.len() == 0 {
        seq![]
    } else {
        escape_markdown(s.drop_last()) + escape_char(s.last())
    }
}

/// Escapes markdown: `*`, `>`, `_`, `-`, `#`, `~`, `` ` `` and `[` each get a
/// backslash, and then every backslash is doubled.
pub fn strip_markdown(s: &str) -> (r: String)
    ensures
        r@ == escape_markdown(s@),
{
    let cs = chars_of(s);
    let mut out = String::new();
    let mut i: usize = 0;
    while i < cs.len()
        invariant
            i <= cs@.len(),
            cs@ == s@,
            out@ == escape_markdown(cs@.take(i as int)),
        decreases cs@.len() - i,
    {
        let c = cs[i];
        assert(cs@.take(i + 1).drop_last() =~= cs@.take(i as int));
        if c == '*' || c == '>' || c == '_' || c == '-' || c == '#' || c == '~' || c == '`' || c
            == '[' {
            push_char(&mut out, '\\');
            push_char(&mut out, '\\');
            push_char(&mut out, c);
        } else if c == '\\' {
            push_char(&mut out, '\\');
            push_char(&mut out, '\\');
        } else {
            push_char(&mut out, c);
        }
        i = i + 1;
        assert(out@ =~= escape_markdown(cs@.take(i as int)));
    }
    assert(cs@.take(cs@.len() as int) =~= cs@);
    out
}

/// The value of a decimal digit character, if it is one.
pub open spec fn digit_value(c: char) -> Option<int> {
    if '0' <= c && c <= '9' {
        Some(c as int - '0' as int)
    } else {
        None
    }
}

/// Whether every character is an ASCII decimal digit.
pub open spec fn all_digits(s: Seq<char>) -> bool {
    forall|i: int| 0 <= i < s.len() ==> #[trigger] digit_value(s[i]) is Some
}

/// The number written by a string of decimal digits.
pub open spec fn digits_value(s: Seq<char>) -> int
    decreases s.len(),
{
    if s.len() == 0 {
        0
    } else {
        digits_value(s.drop_last()) * 10 + match digit_value(s.last()) {
            Some(d) => d,
            None => 0,
        }
    }
}

proof fn lemma_digit_char(d: int)
    requires
        0 <= d <= 9,
    ensures
        digit_value(digit_char(d)) == Some(d),
{
    if d == 0 {
    } else if d == 1 {
    } else if d == 2 {
    } else if d == 3 {
    } else if d == 4 {
    } else if d == 5 {
    } else if d == 6 {
    } else if d == 7 {
    } else if d == 8 {
    } else {
    }
}

proof fn lemma_decimal_digits(n: nat)
    ensures
        decimal(n).len() >= 1,
        all_digits(decimal(n)),
        digits_value(decimal(n)) == n,
    decreases n,
{
    if n < 10 {
        let s = decimal(n);
        lemma_digit_char(n as int);
        assert(s.drop_last() =~= Seq::<char>::empty());
        assert(digit_value(s[0]) is Some);
        assert(digits_value(s.drop_last()) == 0);
        assert(digits_value(s) == digits_value(s.drop_last()) * 10 + n);
    } else {
        lemma_decimal_digits(n / 10);
        lemma_digit_char((n % 10) as int);
        let s = decimal(n);
        let p = decimal(n / 10);
        assert(s.drop_last() =~= p);
        assert(s.last() == digit_char((n % 10) as int));
        assert(digits_value(s) == digits_value(p) * 10 + (n % 10) as int);
        assert(n == (n / 10) * 10 + n % 10);
        assert forall|i: int| 0 <= i < s.len() implies #[trigger] digit_value(s[i]) is Some by {
            if i < p.len() {
                assert(s[i] == p[i]);
            }
        }
    }
}

/// `str::parse` reads back the number that [`push_decimal`] wrote, whenever it is
/// within the limit of the integer type read into.
pub proof fn law_parse_reads_decimal(n: nat, max: int)
    requires
        n <= max,
    ensures
        parse_unsigned(decimal(n), max) == Some(n as int),
{
    lemma_decimal_digits(n);
    assert(digit_value(decimal(n)[0]) is Some);
}

/// How `str::parse` reads an unsigned integer of at most `max`: an optional `+`,
/// then one or more ASCII digits whose value does not exceed `max`.
pub open spec fn parse_unsigned(s: Seq<char>, max: int) -> Option<int> {
    let digits = if s.len() > 0 && s[0] == '+' {
        s.drop_first()
    } else {
        s
    };
    if digits.len() > 0 && all_digits(digits) && digits_value(digits) <= max {
        Some(digits_value(digits))
    } else {
        None
    }
}

/// What [`parse_unsigned`] reads is never negative.
pub proof fn lemma_parse_unsigned_nonneg(s: Seq<char>, max: int)
    ensures
        parse_unsigned(s, max) matches Some(v) ==> v >= 0,
{
    let digits = if s.len() > 0 && s[0] == '+' {
        s.drop_first()
    } else {
        s
    };
    if digits.len() > 0 && all_digits(digits) {
        lemma_digits_value_nonneg(digits);
    }
}

proof fn lemma_digits_value_nonneg(s: Seq<char>)
    requires
        all_digits(s),
    ensures
        digits_value(s) >= 0,
    decreases s.len(),
{
    if s.len() > 0 {
        assert(all_digits(s.drop_last())) by {
            assert forall|i: int| 0 <= i < s.drop_last().len() implies #[trigger] digit_value(
                s.drop_last()[i],
            ) is Some by {
                assert(digit_value(s[i]) is Some);
            }
        }
        lemma_digits_value_nonneg(s.drop_last());
        assert(digit_value(s[s.len() - 1]) is Some);
    }
}

proof fn lemma_digits_value_grows(s: Seq<char>)
    requires
        all_digits(s),
    ensures
        forall|i: int| 0 <= i <= s.len() ==> #[trigger] digits_value(s.take(i)) <= digits_value(s),
    decreases s.len(),
{
    if s.len() > 0 {
        let t = s.drop_last();
        assert(all_digits(t)) by {
            assert forall|i: int| 0 <= i < t.len() implies #[trigger] digit_value(t[i]) is Some by {
                assert(digit_value(s[i]) is Some);
            }
        }
        lemma_digits_value_grows(t);
        lemma_digits_value_nonneg(t);
        assert(digit_value(s[s.len() - 1]) is Some);
        assert forall|i: int| 0 <= i <= s.len() implies #[trigger] digits_value(s.take(i))
            <= digits_value(s) by {
            if i < s.len() {
                assert(s.take(i) =~= t.take(i));
                assert(digits_value(t.take(i)) <= digits_value(t));
            } else {
                assert(s.take(i) =~= s);
            }
        }
    }
}

/// Reads an unsigned integer the way `str::parse::<u64>` does.
pub fn parse_u64(s: &str) -> (r: Option<u64>)
    ensures
        match r {
            Some(v) => parse_unsigned(s@, u64::MAX as int) == Some(v as int),
            None => parse_unsigned(s@, u64::MAX as int) is None,
        },
{
    let cs = chars_of(s);
    let start: usize = if cs.len() > 0 && cs[0] == '+' {
        1
    } else {
        0
    };
    let ghost digits = if s@.len() > 0 && s@[0] == '+' {
        s@.drop_first()
    } else {
        s@
    };
    assert(digits =~= cs@.skip(start as int));
    assert(parse_unsigned(s@, u64::MAX as int) == (if digits.len() > 0 && all_digits(digits)
        && digits_value(digits) <= u64::MAX {
        Some(digits_value(digits))
    } else {
        None
    }));
    if start >= cs.len() {
        return None;
    }
    let mut v: u64 = 0;
    let mut i: usize = start;
    while i < cs.len()
        invariant
            start <= i <= cs@.len(),
            cs@ == s@,
            digits == cs@.skip(start as int),
            digits.len() > 0,
            parse_unsigned(s@, u64::MAX as int) == (if digits.len() > 0 && all_digits(digits)
                && digits_value(digits) <= u64::MAX {
                Some(digits_value(digits))
            } else {
                None
            }),
            all_digits(digits.take(i - start)),
            v == digits_value(digits.take(i - start)),
        decreases cs@.len() - i,
    {
        let c = cs[i];
        assert(digits.take(i + 1 - start).drop_last() =~= digits.take(i - start));
        assert(digits[i - start] == c);
        if c < '0' || c > '9' {
            proof {
                assert(digit_value(digits[i - start]) is None);
                assert(!all_digits(digits));
                assert(parse_unsigned(s@, u64::MAX as int) is None);
            }
            return None;
        }
        let d: u64 = (c as u32 - '0' as u32) as u64;
        if v > (u64::MAX - d) / 10 {
            proof {
                // the value only grows, so it exceeds the maximum or has a non-digit
                if all_digits(digits) {
                    lemma_digits_value_grows(digits);
                    assert(digits_value(digits.take(i + 1 - start)) <= digits_value(digits));
                    assert(digits_value(digits.take(i + 1 - start)) == v * 10 + d);
                    assert(v * 10 + d > u64::MAX) by (nonlinear_arith)
                        requires
                            v > (u64::MAX - d) / 10,
                            d <= 9,
                    ;
                }
                assert(parse_unsigned(s@, u64::MAX as int) is None);
            }
            return None;
        }
        assert(v * 10 + d <= u64::MAX) by (nonlinear_arith)
            requires
                v <= (u64::MAX - d) / 10,
                d <= 9,
        ;
        v = v * 10 + d;
        i = i + 1;
        assert(all_digits(digits.take(i - start))) by {
            assert forall|j: int| 0 <= j < digits.take(i - start).len() implies #[trigger] digit_value(
                digits.take(i - start)[j],
            ) is Some by {
                if j < i - 1 - start {
                    assert(digits.take(i - start)[j] == digits.take(i - 1 - start)[j]);
                }
            }
        }
    }
    assert(digits.take(cs@.len() - start) =~= digits);
    Some(v)
}

/// Reads an index the way `str::parse::<usize>` does.
pub fn parse_usize(s: &str) -> (r: Option<usize>)
    ensures
        match r {
            Some(v) => parse_unsigned(s@, usize::MAX as int) == Some(v as int),
            None => parse_unsigned(s@, usize::MAX as int) is None,
        },
{
    match parse_u64(s) {
        Some(v) => {
            if v > usize::MAX as u64 {
                None
            } else {
                Some(v as usize)
            }
        },
        None => {
            proof {
                assert(usize::MAX as int <= u64::MAX as int);
            }
            None
        },
    }
}

/// Whether two texts hold the same characters.
pub fn text_eq(a: &str, b: &str) -> (r: bool)
    ensures
        r == (a@ == b@),
{
    let a = a.to_owned();
    let b = b.to_owned();
    a == b
}

/// The value of a hexadecimal digit character, if it is one.
pub open spec fn hex_digit_value(c: char) -> Option<int> {
    if '0' <= c && c <= '9' {
        Some(c as int - '0' as int)
    } else if 'a' <= c && c <= 'f' {
        Some(c as int - 'a' as int + 10)
    } else if 'A' <= c && c <= 'F' {
        Some(c as int - 'A' as int + 10)
    } else {
        None
    }
}

/// Whether every character is a hexadecimal digit.
pub open spec fn all_hex_digits(s: Seq<char>) -> bool {
    forall|i: int| 0 <= i < s.len() ==> #[trigger] hex_digit_value(s[i]) is Some
}

/// The number written by a string of hexadecimal digits.
pub open spec fn hex_digits_value(s: Seq<char>) -> int
    decreases s.len(),
{
    if s.len() == 0 {
        0
    } else {
        hex_digits_value(s.drop_last()) * 16 + match hex_digit_value(s.last()) {
            Some(d) => d,
            None => 0,
        }
    }
}

/// How `u32::from_str_radix(s, 16)` reads a number: an optional `+`, then one or
/// more hexadecimal digits whose value fits in a `u32`.
pub open spec fn parse_hex(s: Seq<char>) -> Option<int> {
    let digits = if s.len() > 0 && s[0] == '+' {
        s.drop_first()
    } else {
        s
    };
    if digits.len() > 0 && all_hex_digits(digits) && hex_digits_value(digits) <= u32::MAX {
        Some(hex_digits_value(digits))
    } else {
        None
    }
}

proof fn lemma_hex_value_grows(s: Seq<char>)
    requires
        all_hex_digits(s),
    ensures
        hex_digits_value(s) >= 0,
        forall|i: int|
            0 <= i <= s.len() ==> #[trigger] hex_digits_value(s.take(i)) <= hex_digits_value(s),
    decreases s.len(),
{
    if s.len() > 0 {
        let t = s.drop_last();
        assert(all_hex_digits(t)) by {
            assert forall|i: int| 0 <= i < t.len() implies #[trigger] hex_digit_value(t[i]) is Some by {
                assert(hex_digit_value(s[i]) is Some);
            }
        }
        lemma_hex_value_grows(t);
        assert(hex_digit_value(s[s.len() - 1]) is Some);
        assert forall|i: int| 0 <= i <= s.len() implies #[trigger] hex_digits_value(s.take(i))
            <= hex_digits_value(s) by {
            if i < s.len() {
                assert(s.take(i) =~= t.take(i));
                assert(hex_digits_value(t.take(i)) <= hex_digits_value(t));
            } else {
                assert(s.take(i) =~= s);
            }
        }
    } else {
    }
}

/// Reads a number the way `u32::from_str_radix(s, 16)` does.
pub fn parse_hex_u32(cs: &Vec<char>) -> (r: Option<u32>)
    ensures
        match r {
            Some(v) => parse_hex(cs@) == Some(v as int),
            None => parse_hex(cs@) is None,
        },
{
    let start: usize = if cs.len() > 0 && cs[0] == '+' {
        1
    } else {
        0
    };
    let ghost digits = if cs@.len() > 0 && cs@[0] == '+' {
        cs@.drop_first()
    } else {
        cs@
    };
    assert(digits =~= cs@.skip(start as int));
    if start >= cs.len() {
        return None;
    }
    let mut v: u32 = 0;
    let mut i: usize = start;
    while i < cs.len()
        invariant
            start <= i <= cs@.len(),
            digits == cs@.skip(start as int),
            digits.len() > 0,
            parse_hex(cs@) == (if digits.len() > 0 && all_hex_digits(digits) && hex_digits_value(
                digits,
            ) <= u32::MAX {
                Some(hex_digits_value(digits))
            } else {
                None
            }),
            all_hex_digits(digits.take(i - start)),
            v == hex_digits_value(digits.take(i - start)),
        decreases cs@.len() - i,
    {
        let c = cs[i];
        assert(digits.take(i + 1 - start).drop_last() =~= digits.take(i - start));
        assert(digits[i - start] == c);
        let d: u32 = if '0' <= c && c <= '9' {
            (c as u32) - ('0' as u32)
        } else if 'a' <= c && c <= 'f' {
            (c as u32) - ('a' as u32) + 10
        } else if 'A' <= c && c <= 'F' {
            (c as u32) - ('A' as u32) + 10
        } else {
            proof {
                assert(hex_digit_value(digits[i - start]) is None);
                assert(!all_hex_digits(digits));
            }
            return None;
        };
        assert(hex_digit_value(c) == Some(d as int));
        if v > (u32::MAX - d) / 16 {
            proof {
                if all_hex_digits(digits) {
                    lemma_hex_value_grows(digits);
                    assert(hex_digits_value(digits.take(i + 1 - start)) <= hex_digits_value(digits));
                    assert(hex_digits_value(digits.take(i + 1 - start)) == v * 16 + d);
                    assert(v * 16 + d > u32::MAX) by (nonlinear_arith)
                        requires
                            v > (u32::MAX - d) / 16,
                            d <= 15,
                    ;
                }
            }
            return None;
        }
        assert(v * 16 + d <= u32::MAX) by (nonlinear_arith)
            requires
                v <= (u32::MAX - d) / 16,
                d <= 15,
        ;
        v = v * 16 + d;
        i = i + 1;
        assert(all_hex_digits(digits.take(i - start))) by {
            assert forall|j: int| 0 <= j < digits.take(i - start).len() implies #[trigger] hex_digit_value(
                digits.take(i - start)[j],
            ) is Some by {
                if j < i - 1 - start {
                    assert(digits.take(i - start)[j] == digits.take(i - 1 - start)[j]);
                }
            }
        }
    }
    assert(digits.take(cs@.len() - start) =~= digits);
    Some(v)
}

/// Whether a number is a unicode scalar value, the code of a `char`.
pub open spec fn valid_scalar(v: int) -> bool {
    (0 <= v <= 0xD7FF) || (0xE000 <= v <= 0x10FFFF)
}

/// Calls `char::from_u32`: the character with that code, or `None` when the number
/// is not a unicode scalar value (a surrogate, or above `0x10FFFF`).
#[verifier::external_body]
pub(crate) fn char_from_u32(v: u32) -> (r: Option<char>)
    ensures
        r is Some <==> valid_scalar(v as int),
        r matches Some(c) ==> c as int == v as int,
{
    char::from_u32(v)
}

/// The pieces of a text between the separators `sep`, as `str::split(sep)` gives
/// them (empty pieces included).
pub open spec fn split_on(s: Seq<char>, sep: char) -> Seq<Seq<char>>
    decreases s.len(),
{
    if s.len() == 0 {
        seq![seq![]]
    } else {
        let p = split_on(s.drop_last(), sep);
        if s.last() == sep {
            p.push(seq![])
        } else {
            p.update(p.len() - 1, p.last().push(s.last()))
        }
    }
}

proof fn lemma_split_on_nonempty(s: Seq<char>, sep: char)
    ensures
        split_on(s, sep).len() >= 1,
    decreases s.len(),
{
    if s.len() > 0 {
        lemma_split_on_nonempty(s.drop_last(), sep);
    }
}

/// Splits a text at each `sep` (see [`split_on`]).
pub fn split_text(text: &str, sep: char) -> (v: Vec<String>)
    ensures
        v@.map_values(|p: String| p@) == split_on(text@, sep),
{
    let cs = chars_of(text);
    let mut pieces: Vec<Vec<char>> = Vec::new();
    let mut cur: Vec<char> = Vec::new();
    let mut i: usize = 0;
    assert(text@.take(0) =~= Seq::<char>::empty());
    assert(pieces@.map_values(|p: Vec<char>| p@).push(cur@) =~= split_on(text@.take(0), sep));
    while i < cs.len()
        invariant
            i <= cs@.len(),
            cs@ == text@,
            pieces@.map_values(|p: Vec<char>| p@).push(cur@) == split_on(text@.take(i as int), sep),
        decreases cs@.len() - i,
    {
        let ghost before = pieces@.map_values(|p: Vec<char>| p@).push(cur@);
        assert(text@.take(i + 1).drop_last() =~= text@.take(i as int));
        assert(text@.take(i + 1).last() == cs@[i as int]);
        proof {
            lemma_split_on_nonempty(text@.take(i as int), sep);
        }
        if cs[i] == sep {
            let done = cur;
            pieces.push(done);
            cur = Vec::new();
            assert(pieces@.map_values(|p: Vec<char>| p@).push(cur@) =~= before.push(seq![]));
        } else {
            cur.push(cs[i]);
            assert(pieces@.map_values(|p: Vec<char>| p@).push(cur@) =~= before.update(
                before.len() - 1,
                before.last().push(cs@[i as int]),
            ));
        }
        i = i + 1;
    }
    assert(text@.take(cs@.len() as int) =~= text@);
    pieces.push(cur);
    let ghost all = pieces@.map_values(|p: Vec<char>| p@);
    let mut out: Vec<String> = Vec::new();
    let mut k: usize = 0;
    while k < pieces.len()
        invariant
            k <= pieces@.len(),
            all == pieces@.map_values(|p: Vec<char>| p@),
            out@.len() == k,
            forall|j: int| 0 <= j < k ==> (#[trigger] out@[j])@ == all[j],
        decreases pieces@.len() - k,
    {
        let piece = string_of(&pieces[k]);
        out.push(piece);
        k = k + 1;
    }
    assert(out@.map_values(|p: String| p@) =~= all);
    out
}

/// The pieces of a text between single spaces, as `str::split(" ")` gives them
/// (empty pieces included).
pub open spec fn split_on_space(s: Seq<char>) -> Seq<Seq<char>>
    decreases s.len(),
{
    if s.len() == 0 {
        seq![seq![]]
    } else {
        let p = split_on_space(s.drop_last());
        if s.last() == ' ' {
            p.push(seq![])
        } else {
            p.update(p.len() - 1, p.last().push(s.last()))
        }
    }
}

pub proof fn lemma_split_nonempty(s: Seq<char>)
    ensures
        split_on_space(s).len() >= 1,
    decreases s.len(),
{
    if s.len() > 0 {
        lemma_split_nonempty(s.drop_last());
    }
}

/// The pieces of a prefix of a text: all but the last are pieces of the text, and
/// the last is the start of the piece at its position.
pub proof fn lemma_split_prefix(s: Seq<char>, i: int)
    requires
        0 <= i <= s.len(),
    ensures
        1 <= split_on_space(s.take(i)).len() <= split_on_space(s).len(),
        forall|j: int|
            0 <= j < split_on_space(s.take(i)).len() - 1 ==> #[trigger] split_on_space(s.take(i))[j]
                == split_on_space(s)[j],
        split_on_space(s.take(i)).last().is_prefix_of(
            split_on_space(s)[split_on_space(s.take(i)).len() - 1],
        ),
    decreases s.len(),
{
    lemma_split_nonempty(s.take(i));
    lemma_split_nonempty(s);
    if i == s.len() {
        assert(s.take(i) =~= s);
    } else {
        let t = s.drop_last();
        assert(s.take(i) =~= t.take(i));
        lemma_split_prefix(t, i);
        lemma_split_nonempty(t);
        let a = split_on_space(s.take(i));
        let q = split_on_space(t);
        let b = split_on_space(s);
        assert(b == if s.last() == ' ' {
            q.push(seq![])
        } else {
            q.update(q.len() - 1, q.last().push(s.last()))
        });
        assert forall|j: int| 0 <= j < a.len() - 1 implies #[trigger] a[j] == b[j] by {
            assert(a[j] == q[j]);
        }
        let k = a.len() - 1;
        assert(a.last().is_prefix_of(q[k]));
        if s.last() != ' ' && k == q.len() - 1 {
            assert(q[k].is_prefix_of(b[k]));
            assert(b[k].take(q[k].len() as int) =~= q[k]);
            assert(b[k].take(a.last().len() as int) =~= q[k].take(a.last().len() as int));
        } else {
            assert(b[k] == q[k]);
        }
    }
}

/// How `str::parse` reads a signed integer between `min` and `max`: a `-` followed
/// by one or more ASCII digits, or what [`parse_unsigned`] reads.
pub open spec fn parse_signed(s: Seq<char>, min: int, max: int) -> Option<int> {
    if s.len() > 0 && s[0] == '-' {
        let d = s.drop_first();
        if d.len() > 0 && all_digits(d) && -digits_value(d) >= min {
            Some(-digits_value(d))
        } else {
            None
        }
    } else {
        parse_unsigned(s, max)
    }
}

/// Reads an integer the way `str::parse::<i32>` does.
pub fn parse_i32(s: &str) -> (r: Option<i32>)
    ensures
        match r {
            Some(v) => parse_signed(s@, i32::MIN as int, i32::MAX as int) == Some(v as int),
            None => parse_signed(s@, i32::MIN as int, i32::MAX as int) is None,
        },
{
    proof {
        reveal_strlit("+");
    }
    let cs = chars_of(s);
    if cs.len() > 0 && cs[0] == '-' {
        let rest = skip_chars(s, 1);
        assert(rest@ == s@.drop_first());
        assert("+"@ =~= seq!['+']);
        if starts_with(rest, "+") {
            assert(rest@.take(1)[0] == '+');
            assert(rest@[0] == '+');
            assert(digit_value(rest@[0]) is None);
            return None;
        }
        assert(rest@.len() == 0 || rest@[0] != '+') by {
            if rest@.len() > 0 && rest@[0] == '+' {
                assert(rest@.take(1) =~= "+"@);
            }
        }
        match parse_u64(rest) {
            Some(v) => {
                if v <= 2147483648 {
                    let n: i64 = -(v as i64);
                    assert(n == -(v as int));
                    let r = n as i32;
                    assert(r as int == n as int);
                    Some(r)
                } else {
                    None
                }
            },
            None => None,
        }
    } else {
        match parse_u64(s) {
            Some(v) => {
                if v <= 2147483647 {
                    Some(v as i32)
                } else {
                    None
                }
            },
            None => None,
        }
    }
}

/// Whether `s` starts with `prefix`.
pub fn starts_with(s: &str, prefix: &str) -> (b: bool)
    ensures
        b == (prefix@.len() <= s@.len() && s@.take(prefix@.len() as int) == prefix@),
{
    let a = chars_of(s);
    let p = chars_of(prefix);
    if p.len() > a.len() {
        return false;
    }
    let mut i: usize = 0;
    while i < p.len()
        invariant
            i <= p@.len() <= a@.len(),
            a@ == s@,
            p@ == prefix@,
            forall|j: int| 0 <= j < i ==> a@[j] == p@[j],
        decreases p@.len() - i,
    {
        if a[i] != p[i] {
            assert(s@.take(prefix@.len() as int)[i as int] != prefix@[i as int]);
            return false;
        }
        i = i + 1;
    }
    assert(s@.take(prefix@.len() as int) =~= prefix@);
    true
}

/// The characters of `s` from position `n` on.
pub fn skip_chars(s: &str, n: usize) -> (r: &str)
    requires
        n <= s@.len(),
    ensures
        r@ == s@.skip(n as int),
{
    let len = s.unicode_len();
    let r = s.substring_char(n, len);
    assert(s@.subrange(n as int, len as int) =~= s@.skip(n as int));
    r
}

} // verus!
