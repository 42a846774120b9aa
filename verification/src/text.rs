//! Decimal rendering of numbers into strings.
use vstd::prelude::*;
use vstd::string::{StrSliceExecFns, StringExecFns, StringSliceAdditionalSpecFns};
use vstd::utf8::encode_utf8;

verus! {

/// The character of a decimal digit.
pub open spec fn digit(d: nat) -> char {
    (48 + d) as char
}

/// A number in decimal, without leading zeros.
pub open spec fn decimal(n: nat) -> Seq<char>
    decreases n,
{
    if n < 10 {
        seq![digit(n)]
    } else {
        decimal(n / 10).push(digit(n % 10))
    }
}

fn digit_str(d: u64) -> (s: &'static str)
    requires
        d < 10,
    ensures
        s@ == seq![digit(d as nat)],
{
    proof {
        reveal_strlit("0");
        reveal_strlit("1");
        reveal_strlit("2");
        reveal_strlit("3");
        reveal_strlit("4");
        reveal_strlit("5");
        reveal_strlit("6");
        reveal_strlit("7");
        reveal_strlit("8");
        reveal_strlit("9");
    }
    match d {
        0 => "0",
        1 => "1",
        2 => "2",
        3 => "3",
        4 => "4",
        5 => "5",
        6 => "6",
        7 => "7",
        8 => "8",
        _ => "9",
    }
}

/// Appends `n` in decimal.
pub fn push_decimal(out: &mut String, n: u64)
    ensures
        final(out)@ == old(out)@ + decimal(n as nat),
    decreases n,
{
    if n < 10 {
        out.append(digit_str(n));
    } else {
        push_decimal(out, n / 10);
        out.append(digit_str(n % 10));
        assert(out@ == old(out)@ + decimal(n as nat));
    }
}

/// Whether two texts are the same.
pub fn same_text(a: &str, b: &str) -> (r: bool)
    ensures
        r == (a@ == b@),
{
    let x: &[u8] = a.as_bytes();
    let y: &[u8] = b.as_bytes();
    proof {
        vstd::utf8::encode_utf8_decode_utf8(a@);
        vstd::utf8::encode_utf8_decode_utf8(b@);
    }
    if x.len() != y.len() {
        return false;
    }
    let mut i: usize = 0;
    while i < x.len()
        invariant
            i <= x@.len(),
            x@.len() == y@.len(),
            x@ == encode_utf8(a@),
            y@ == encode_utf8(b@),
            forall|j: int| 0 <= j < i ==> x@[j] == y@[j],
        decreases x.len() - i,
    {
        if x[i] != y[i] {
            return false;
        }
        i = i + 1;
    }
    assert(x@ =~= y@);
    true
}

/// A character with an upper-case ASCII letter made lower case.
pub open spec fn ascii_lower(c: char) -> char {
    if 'A' <= c && c <= 'Z' {
        (c as u32 + 32) as char
    } else {
        c
    }
}

/// Whether a text is the other one, letter case of ASCII letters aside.
pub open spec fn same_ignoring_case(a: Seq<char>, b: Seq<char>) -> bool {
    a.len() == b.len() && forall|i: int|
        0 <= i < a.len() ==> ascii_lower(#[trigger] a[i]) == ascii_lower(b[i])
}

fn code(c: char) -> (n: u32)
    ensures
        n == ascii_lower(c) as u32,
{
    let n: u32 = c as u32;
    if 65 <= n && n <= 90 {
        n + 32
    } else {
        n
    }
}

/// Whether a text is the other one, letter case of ASCII letters aside.
pub fn eq_ignoring_case(a: &str, b: &str) -> (r: bool)
    ensures
        r == same_ignoring_case(a@, b@),
{
    let n: usize = a.unicode_len();
    if n != b.unicode_len() {
        return false;
    }
    let mut i: usize = 0;
    while i < n
        invariant
            i <= n,
            n == a@.len(),
            n == b@.len(),
            forall|j: int| 0 <= j < i ==> ascii_lower(#[trigger] a@[j]) == ascii_lower(b@[j]),
        decreases n - i,
    {
        if code(a.get_char(i)) != code(b.get_char(i)) {
            assert(ascii_lower(a@[i as int]) != ascii_lower(b@[i as int]));
            return false;
        }
        proof {
            vstd::utf8::char_u32_cast(
                ascii_lower(a@[i as int]),
                ascii_lower(a@[i as int]) as u32,
            );
            vstd::utf8::char_u32_cast(
                ascii_lower(b@[i as int]),
                ascii_lower(b@[i as int]) as u32,
            );
        }
        i = i + 1;
    }
    true
}

/// Whether every character is a decimal digit.
pub open spec fn all_digits(s: Seq<char>) -> bool {
    forall|i: int| 0 <= i < s.len() ==> '0' <= #[trigger] s[i] && s[i] <= '9'
}

/// The number that some decimal digits write.
pub open spec fn number(s: Seq<char>) -> int
    decreases s.len(),
{
    if s.len() == 0 {
        0
    } else {
        number(s.drop_last()) * 10 + (s.last() as int - 48)
    }
}

/// The digits of a written number: the text, without a leading plus sign.
pub open spec fn digits_of(s: Seq<char>) -> Seq<char> {
    if s.len() > 0 && s[0] == '+' {
        s.subrange(1, s.len() as int)
    } else {
        s
    }
}

/// Whether a text writes an unsigned number of 64 bits: at least one digit, with an optional plus
/// sign before them.
pub open spec fn writes_u64(s: Seq<char>) -> bool {
    digits_of(s).len() > 0 && all_digits(digits_of(s)) && number(digits_of(s)) <= u64::MAX
}

/// The number that a text writes.
pub fn parse_u64(s: &str) -> (r: Option<u64>)
    ensures
        writes_u64(s@) <==> r is Some,
        r is Some ==> r->0 == number(digits_of(s@)),
{
    let n: usize = s.unicode_len();
    if n == 0 {
        return None;
    }
    let start: usize = if s.get_char(0) == '+' {
        1
    } else {
        0
    };
    let ghost d = digits_of(s@);
    if n == start {
        return None;
    }
    let mut v: u64 = 0;
    let mut i: usize = start;
    while i < n
        invariant
            start <= i <= n,
            start <= 1,
            n == s@.len(),
            d == digits_of(s@),
            d.len() == n - start,
            forall|j: int| 0 <= j < d.len() ==> #[trigger] d[j] == s@[j + start],
            all_digits(d.take(i - start)),
            v == number(d.take(i - start)),
        decreases n - i,
    {
        let c: char = s.get_char(i);
        let k: u32 = c as u32;
        proof {
            assert(d[i - start] == c);
            assert(d.take(i - start + 1).drop_last() =~= d.take(i - start));
            assert(d.take(i - start + 1).last() == c);
        }
        if k < 48 || k > 57 {
            assert(!all_digits(d)) by {
                assert(!('0' <= d[i - start] && d[i - start] <= '9'));
            }
            return None;
        }
        let step: u64 = (k - 48) as u64;
        if v > (u64::MAX - step) / 10 {
            proof {
                assert(number(d.take(i - start + 1)) > u64::MAX);
                if all_digits(d) {
                    lemma_number_grows(d, i - start + 1);
                }
            }
            return None;
        }
        v = v * 10 + step;
        i = i + 1;
        assert(all_digits(d.take(i - start))) by {
            assert forall|j: int| 0 <= j < i - start implies '0' <= #[trigger] d.take(
                i - start,
            )[j] && d.take(i - start)[j] <= '9' by {
                if j < i - start - 1 {
                    assert(d.take(i - start - 1)[j] == d[j]);
                }
            }
        }
    }
    assert(d.take(i - start) =~= d);
    Some(v)
}

/// More digits write no smaller number.
proof fn lemma_number_grows(d: Seq<char>, n: int)
    requires
        0 <= n <= d.len(),
        all_digits(d),
    ensures
        0 <= number(d.take(n)) <= number(d),
    decreases d.len(),
{
    if d.len() == 0 {
        assert(d.take(n) =~= d);
    } else {
        let t = d.drop_last();
        assert(all_digits(t)) by {
            assert forall|i: int| 0 <= i < t.len() implies '0' <= #[trigger] t[i] && t[i]
                <= '9' by {
                assert(t[i] == d[i]);
            }
        }
        assert('0' <= d[d.len() - 1] && d[d.len() - 1] <= '9');
        if n == d.len() {
            assert(d.take(n) =~= d);
            lemma_number_grows(t, t.len() as int);
            assert(t.take(t.len() as int) =~= t);
        } else {
            lemma_number_grows(t, n);
            assert(t.take(n) =~= d.take(n));
        }
    }
}

/// The text of an optional string.
pub open spec fn text_of(s: Option<String>) -> Option<Seq<char>> {
    match s {
        Some(s) => Some(s@),
        None => None,
    }
}

/// The texts of some strings.
pub open spec fn texts(v: Seq<String>) -> Seq<Seq<char>> {
    Seq::new(v.len(), |i: int| v[i]@)
}

/// Decimal goes digit by digit: one digit for a number below ten, and one more behind for every
/// factor of ten.
pub proof fn law_decimal_digits(n: nat, d: nat)
    requires
        d < 10,
    ensures
        decimal(d) == seq![(48 + d) as char],
        n > 0 ==> decimal(10 * n + d) == decimal(n).push((48 + d) as char),
{
    if n > 0 {
        let m = 10 * n + d;
        assert(m / 10 == n && m % 10 == d);
    }
}

/// A number in decimal reads back as itself, with a plus sign before it too, as far as 64 bits
/// reach.
pub proof fn law_decimal_reads_back(n: nat)
    ensures
        number(digits_of(decimal(n))) == n,
        number(digits_of(seq!['+'] + decimal(n))) == n,
        writes_u64(decimal(n)) <==> n <= u64::MAX,
        writes_u64(seq!['+'] + decimal(n)) <==> n <= u64::MAX,
        decimal(n).len() > 0,
        all_digits(decimal(n)),
{
    lemma_decimal_number(n);
    assert('0' <= decimal(n)[0] && decimal(n)[0] <= '9');
    assert(digits_of(decimal(n)) == decimal(n));
    assert(digits_of(seq!['+'] + decimal(n)) =~= decimal(n));
}

proof fn lemma_decimal_number(n: nat)
    ensures
        number(decimal(n)) == n,
        decimal(n).len() > 0,
        all_digits(decimal(n)),
    decreases n,
{
    let s = decimal(n);
    if n < 10 {
        assert(s.drop_last() =~= Seq::<char>::empty());
        assert(number(s.drop_last()) == 0);
        assert(s.last() as int == 48 + n);
    } else {
        lemma_decimal_number(n / 10);
        let front = decimal(n / 10);
        assert(s.drop_last() =~= front);
        assert(s.last() as int == 48 + n % 10);
        assert forall|i: int| 0 <= i < s.len() implies '0' <= #[trigger] s[i] && s[i] <= '9' by {
            if i < front.len() {
                assert(s[i] == front[i]);
            }
        }
    }
}

/// What is parsed is the number that was written, and a text that writes none gives none: nothing
/// at all, a sign alone, or any character that is no digit.
pub proof fn law_parsed_number(s: &str, r: Option<u64>, n: nat, i: int)
    requires
        call_ensures(parse_u64, (s,), r),
    ensures
        s@ == decimal(n) && n <= u64::MAX ==> r == Some(n as u64),
        s@ == decimal(n) && n > u64::MAX ==> r is None,
        s@.len() == 0 ==> r is None,
        s@ == seq!['+'] ==> r is None,
        1 <= i < s@.len() && !('0' <= s@[i] && s@[i] <= '9') ==> r is None,
        s@.len() > 0 && s@[0] != '+' && !('0' <= s@[0] && s@[0] <= '9') ==> r is None,
{
    law_decimal_reads_back(n);
    let d = digits_of(s@);
    if 1 <= i < s@.len() && !('0' <= s@[i] && s@[i] <= '9') {
        if s@[0] == '+' {
            assert(d[i - 1] == s@[i]);
        } else {
            assert(d[i] == s@[i]);
        }
        assert(!all_digits(d));
    }
    if s@.len() > 0 && s@[0] != '+' && !('0' <= s@[0] && s@[0] <= '9') {
        assert(d[0] == s@[0]);
        assert(!all_digits(d));
    }
}

/// Whether two characters are the same, or the two cases of one ASCII letter.
pub open spec fn same_letter(a: char, b: char) -> bool {
    ||| a == b
    ||| 'A' <= a && a <= 'Z' && b as u32 == a as u32 + 32
    ||| 'A' <= b && b <= 'Z' && a as u32 == b as u32 + 32
}

/// Letter case aside, texts are the same exactly where they are as long and every character is the
/// same or the other case of the same letter.
pub proof fn law_case_is_set_aside(a: &str, b: &str, r: bool, i: int)
    requires
        call_ensures(eq_ignoring_case, (a, b), r),
        0 <= i < a@.len(),
        a@.len() == b@.len(),
        forall|j: int| 0 <= j < a@.len() && j != i ==> a@[j] == b@[j],
    ensures
        r <==> same_letter(a@[i], b@[i]),
{
    lemma_lower(a@[i], b@[i]);
    if same_letter(a@[i], b@[i]) {
        assert forall|j: int| 0 <= j < a@.len() implies ascii_lower(#[trigger] a@[j])
            == ascii_lower(b@[j]) by {}
    }
}

proof fn lemma_lower(a: char, b: char)
    ensures
        ascii_lower(a) == ascii_lower(b) <==> same_letter(a, b),
{
}

} // verus!
