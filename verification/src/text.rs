//! Small text utilities: string equality, the `voice_N` key grammar,
//! decimal rendering of numbers, and case folding.

use vstd::prelude::*;
use vstd::string::*;

verus! {

/// The ASCII character of decimal digit `d` (`d < 10`).
pub open spec fn digit_char(d: nat) -> char {
    ((('0' as u8) as nat + d) as u8) as char
}

/// Whether `c` is one of the ASCII digits `0`..=`9`.
pub open spec fn is_digit(c: char) -> bool {
    '0' <= c && c <= '9'
}

/// The value of the decimal digit character `c`.
pub open spec fn digit_value(c: char) -> nat {
    (c as u32 - '0' as u32) as nat
}

/// Decimal rendering of a natural number, most significant digit first,
/// without leading zeros (zero renders as `0`).
pub open spec fn decimal(n: nat) -> Seq<char>
    decreases n,
{
    if n < 10 {
        seq![digit_char(n)]
    } else {
        decimal(n / 10) + seq![digit_char(n % 10)]
    }
}

/// The number denoted by a sequence of decimal digits.
pub open spec fn digits_value(s: Seq<char>) -> nat
    decreases s.len(),
{
    if s.len() == 0 {
        0
    } else {
        digits_value(s.drop_last()) * 10 + digit_value(s.last())
    }
}

/// The digits part of an unsigned decimal literal: an optional leading `+`
/// is not part of it.
pub open spec fn unsigned_digits(s: Seq<char>) -> Seq<char> {
    if s.len() > 0 && s[0] == '+' {
        s.skip(1)
    } else {
        s
    }
}

/// The `usize` that a decimal text denotes, as `usize::from_str` reads it:
/// an optional `+`, then at least one ASCII digit and nothing else, with a
/// value that fits in `usize`.
pub open spec fn parse_unsigned(s: Seq<char>) -> Option<usize> {
    let d = unsigned_digits(s);
    if d.len() > 0 && (forall|i: int| 0 <= i < d.len() ==> is_digit(#[trigger] d[i]))
        && digits_value(d) <= usize::MAX {
        Some(digits_value(d) as usize)
    } else {
        None
    }
}

/// The prefix that every voice key starts with.
pub open spec fn voice_prefix() -> Seq<char> {
    seq!['v', 'o', 'i', 'c', 'e', '_']
}

/// Whether `s` starts with `p`.
pub open spec fn has_prefix(s: Seq<char>, p: Seq<char>) -> bool {
    p.len() <= s.len() && s.take(p.len() as int) == p
}

/// Case folding as `str::to_lowercase` performs it.
pub uninterp spec fn lowercase(s: Seq<char>) -> Seq<char>;

/// Whether every character is ASCII.
pub open spec fn is_ascii_text(s: Seq<char>) -> bool {
    forall|i: int| 0 <= i < s.len() ==> (#[trigger] s[i] as u32) < 128
}

/// `c` with an ASCII capital letter turned into its small letter.
pub open spec fn ascii_lower_char(c: char) -> char {
    if 'A' <= c && c <= 'Z' {
        ((c as u32) + 32) as char
    } else {
        c
    }
}

/// ASCII lowercase of a text: capitals A-Z become a-z, all else stays.
pub open spec fn ascii_lowercase(s: Seq<char>) -> Seq<char> {
    s.map_values(|c: char| ascii_lower_char(c))
}

/// What case folding gives for a text: its ASCII lowercase when the text
/// is ASCII, the Unicode folding otherwise.
pub open spec fn case_folded(s: Seq<char>) -> Seq<char> {
    if is_ascii_text(s) {
        ascii_lowercase(s)
    } else {
        lowercase(s)
    }
}

/// Calls `str::to_lowercase`. Claimed: the result is the case folding of
/// the argument's characters, a function of those characters alone; on an
/// ASCII argument it is the ASCII lowercase of the argument (capitals A-Z
/// become a-z, every other character stays), as the documentation of
/// `str::to_lowercase` and of Unicode lowercase mapping give.
#[verifier::external_body]
pub(crate) fn to_lowercase(s: &str) -> (r: String)
    ensures
        r@ == lowercase(s@),
        is_ascii_text(s@) ==> r@ == ascii_lowercase(s@),
{
    s.to_lowercase()
}

/// Character-wise equality of two strings.
pub fn str_eq(a: &str, b: &str) -> (r: bool)
    ensures
        r == (a@ == b@),
{
    let n = a.unicode_len();
    let m = b.unicode_len();
    if n != m {
        return false;
    }
    let mut i: usize = 0;
    while i < n
        invariant
            i <= n,
            n == a@.len(),
            m == b@.len(),
            n == m,
            forall|k: int| 0 <= k < i ==> a@[k] == b@[k],
        decreases n - i,
    {
        if a.get_char(i) != b.get_char(i) {
            return false;
        }
        i += 1;
    }
    assert(a@ =~= b@);
    true
}

/// A new string holding the characters of `a` followed by those of `b`.
pub fn concat2(a: &str, b: &str) -> (r: String)
    ensures
        r@ == a@ + b@,
{
    let mut s = String::from_str(a);
    s.append(b);
    s
}

/// A new string holding `a`, `b` and `c` in turn.
pub fn concat3(a: &str, b: &str, c: &str) -> (r: String)
    ensures
        r@ == a@ + b@ + c@,
{
    let mut s = String::from_str(a);
    s.append(b);
    s.append(c);
    s
}

/// The one-character string of decimal digit `d`.
fn digit_str(d: u64) -> (r: &'static str)
    requires
        d < 10,
    ensures
        r@ == seq![digit_char(d as nat)],
{
    let digits = "0123456789";
    proof {
        reveal_strlit("0123456789");
    }
    let r = digits.substring_char(d as usize, (d + 1) as usize);
    assert(r@ =~= seq![digit_char(d as nat)]);
    r
}

/// Appends the decimal rendering of `n` to `s`.
pub fn push_decimal(s: &mut String, n: u64)
    ensures
        final(s)@ == old(s)@ + decimal(n as nat),
    decreases n,
{
    if n < 10 {
        s.append(digit_str(n));
    } else {
        push_decimal(s, n / 10);
        s.append(digit_str(n % 10));
        proof {
            assert(old(s)@ + decimal((n / 10) as nat) + seq![digit_char((n % 10) as nat)]
                =~= old(s)@ + decimal(n as nat));
        }
    }
}

proof fn lemma_digits_value_push(s: Seq<char>, c: char)
    ensures
        digits_value(s.push(c)) == digits_value(s) * 10 + digit_value(c),
{
    assert(s.push(c).drop_last() =~= s);
}

proof fn lemma_digits_value_monotone(s: Seq<char>, i: int)
    requires
        0 <= i <= s.len(),
    ensures
        digits_value(s.take(i)) <= digits_value(s),
    decreases s.len() - i,
{
    if i < s.len() {
        lemma_digits_value_monotone(s, i + 1);
        assert(s.take(i + 1) =~= s.take(i).push(s[i]));
        lemma_digits_value_push(s.take(i), s[i]);
        assert(digits_value(s.take(i)) * 10 >= digits_value(s.take(i))) by (nonlinear_arith);
    } else {
        assert(s.take(i) =~= s);
    }
}

/// Reads a `usize` from `s` starting at character `from`, as
/// `usize::from_str` reads the remainder of the string.
pub fn parse_unsigned_from(s: &str, from: usize) -> (r: Option<usize>)
    requires
        from <= s@.len(),
    ensures
        r == parse_unsigned(s@.skip(from as int)),
{
    let n = s.unicode_len();
    let ghost t = s@.skip(from as int);
    let mut start = from;
    if from < n && s.get_char(from) == '+' {
        start = from + 1;
    }
    let ghost d = unsigned_digits(t);
    assert(d =~= s@.skip(start as int));
    if start == n {
        return None;
    }
    let mut acc: usize = 0;
    let mut overflow = false;
    let mut i = start;
    while i < n
        invariant
            start <= i <= n,
            n == s@.len(),
            start < n,
            d =~= s@.skip(start as int),
            d == unsigned_digits(t),
            t == s@.skip(from as int),
            forall|k: int| 0 <= k < i - start ==> is_digit(#[trigger] d[k]),
            !overflow ==> acc as nat == digits_value(d.take(i - start)),
            overflow ==> digits_value(d.take(i - start)) > usize::MAX,
        decreases n - i,
    {
        let c = s.get_char(i);
        if c < '0' || c > '9' {
            assert(!is_digit(d[i - start]));
            assert(!(forall|k: int| 0 <= k < d.len() ==> is_digit(#[trigger] d[k])));
            return None;
        }
        let v = (c as u32 - '0' as u32) as usize;
        proof {
            assert(d.take(i - start + 1) =~= d.take(i - start).push(d[i - start]));
            lemma_digits_value_push(d.take(i - start), d[i - start]);
        }
        if !overflow {
            if acc > (usize::MAX - v) / 10 {
                overflow = true;
                assert(acc * 10 + v > usize::MAX) by (nonlinear_arith)
                    requires
                        acc > (usize::MAX - v) / 10,
                        v <= 9,
                ;
            } else {
                assert(acc * 10 + v <= usize::MAX) by (nonlinear_arith)
                    requires
                        acc <= (usize::MAX - v) / 10,
                        v <= 9,
                ;
                acc = acc * 10 + v;
            }
        } else {
            assert(digits_value(d.take(i - start)) * 10 >= digits_value(d.take(i - start)))
                by (nonlinear_arith);
        }
        i += 1;
    }
    assert(d.take(d.len() as int) =~= d);
    if overflow {
        None
    } else {
        Some(acc)
    }
}

/// Whether `s` starts with `voice_`.
pub fn starts_with_voice_prefix(s: &str) -> (r: bool)
    ensures
        r == has_prefix(s@, voice_prefix()),
{
    let n = s.unicode_len();
    if n < 6 {
        return false;
    }
    let r = s.get_char(0) == 'v' && s.get_char(1) == 'o' && s.get_char(2) == 'i'
        && s.get_char(3) == 'c' && s.get_char(4) == 'e' && s.get_char(5) == '_';
    if r {
        assert(s@.take(6) =~= voice_prefix());
    } else {
        assert(s@.take(6)[0] == s@[0]);
        assert(s@.take(6)[1] == s@[1]);
        assert(s@.take(6)[2] == s@[2]);
        assert(s@.take(6)[3] == s@[3]);
        assert(s@.take(6)[4] == s@[4]);
        assert(s@.take(6)[5] == s@[5]);
    }
    r
}

} // verus!
