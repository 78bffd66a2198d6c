//! Text helpers: decimal rendering of integers, trimming, case mapping
//! (lower, upper and title case) and replacement of every occurrence of a
//! pattern.

use vstd::prelude::*;

verus! {

/// The character of one decimal digit.
pub open spec fn digit_char(d: nat) -> char {
    if d == 0 { '0' }
    else if d == 1 { '1' }
    else if d == 2 { '2' }
    else if d == 3 { '3' }
    else if d == 4 { '4' }
    else if d == 5 { '5' }
    else if d == 6 { '6' }
    else if d == 7 { '7' }
    else if d == 8 { '8' }
    else { '9' }
}

/// Decimal digits of a natural number, most significant first, with no
/// leading zeros.
pub open spec fn nat_text(n: nat) -> Seq<char>
    decreases n,
{
    if n < 10 {
        seq![digit_char(n)]
    } else {
        nat_text(n / 10) + seq![digit_char(n % 10)]
    }
}

/// Decimal text of an integer, with a leading `-` when negative.
pub open spec fn int_text(i: int) -> Seq<char> {
    if i < 0 {
        seq!['-'] + nat_text((-i) as nat)
    } else {
        nat_text(i as nat)
    }
}

fn digit_str(d: u64) -> (r: &'static str)
    requires
        d < 10,
    ensures
        r@ == seq![digit_char(d as nat)],
{
    proof {
        reveal_strlit("0");
        reveal_strlit("1");
        reveal_strlit("2");
        reveal_strlit("3");
        reveal_strlit("4");
        reveal_strlit("5");
        reveal_strlit("6");
        reveal_strlit("7");
        reveal_strlit("8");
        reveal_strlit("9");
    }
    if d == 0 { "0" }
    else if d == 1 { "1" }
    else if d == 2 { "2" }
    else if d == 3 { "3" }
    else if d == 4 { "4" }
    else if d == 5 { "5" }
    else if d == 6 { "6" }
    else if d == 7 { "7" }
    else if d == 8 { "8" }
    else { "9" }
}

/// Renders an unsigned integer in decimal.
pub fn u64_text(n: u64) -> (r: String)
    ensures
        r@ == nat_text(n as nat),
    decreases n,
{
    if n < 10 {
        String::from_str(digit_str(n))
    } else {
        let mut s = u64_text(n / 10);
        s.append(digit_str(n % 10));
        s
    }
}

/// Renders a signed integer in decimal.
pub fn i64_text(i: i64) -> (r: String)
    ensures
        r@ == int_text(i as int),
{
    if i < 0 {
        let magnitude: u64 = if i == i64::MIN {
            9223372036854775808u64
        } else {
            (-i) as u64
        };
        let mut s = String::from_str("-");
        proof {
            reveal_strlit("-");
        }
        let digits = u64_text(magnitude);
        s.append(digits.as_str());
        s
    } else {
        u64_text(i as u64)
    }
}



/// Whether a character is Unicode white space.
pub uninterp spec fn white_space(c: char) -> bool;

/// The lower-case mapping of a string.
pub uninterp spec fn lower_text(s: Seq<char>) -> Seq<char>;

/// The upper-case mapping of a string.
pub uninterp spec fn upper_text(s: Seq<char>) -> Seq<char>;

/// The upper-case mapping of one character (one or more characters).
pub uninterp spec fn upper_char(c: char) -> Seq<char>;

/// Relies on `char::is_whitespace`: the White_Space property of the
/// character alone.
#[verifier::external_body]
pub fn is_white_space(c: char) -> (r: bool)
    ensures
        r == white_space(c),
{
    c.is_whitespace()
}

/// Relies on `str::to_lowercase`: the result depends on the characters
/// alone, and the empty string stays empty.
#[verifier::external_body]
pub fn to_lower(s: &str) -> (r: String)
    ensures
        r@ == lower_text(s@),
        s@.len() == 0 ==> r@.len() == 0,
{
    s.to_lowercase()
}

/// Relies on `str::to_uppercase`: the result depends on the characters
/// alone, and the empty string stays empty.
#[verifier::external_body]
pub fn to_upper(s: &str) -> (r: String)
    ensures
        r@ == upper_text(s@),
        s@.len() == 0 ==> r@.len() == 0,
{
    s.to_uppercase()
}

/// Relies on `char::to_uppercase`, collected into a string: the mapping
/// of the character alone.
#[verifier::external_body]
fn upper_of_char(c: char) -> (r: String)
    ensures
        r@ == upper_char(c),
{
    c.to_uppercase().collect::<String>()
}

/// The position of the first character that is not white space at or after
/// `i`, or the length.
pub open spec fn skip_space(s: Seq<char>, i: int) -> int
    decreases s.len() - i,
{
    if i >= s.len() {
        s.len() as int
    } else if !white_space(s[i]) {
        i
    } else {
        skip_space(s, i + 1)
    }
}

/// The end of the last character that is not white space before `j`, or 0.
pub open spec fn trim_end(s: Seq<char>, j: int) -> int
    decreases j,
{
    if j <= 0 {
        0
    } else if !white_space(s[j - 1]) {
        j
    } else {
        trim_end(s, j - 1)
    }
}

/// A string without its leading and trailing white space.
pub open spec fn trimmed(s: Seq<char>) -> Seq<char> {
    let a = skip_space(s, 0);
    if a >= s.len() {
        Seq::empty()
    } else {
        s.subrange(a, trim_end(s, s.len() as int))
    }
}

/// Removes leading and trailing white space.
pub fn trim_text(s: &str) -> (r: String)
    ensures
        r@ == trimmed(s@),
{
    let n = s.unicode_len();
    let mut a: usize = 0;
    while a < n && is_white_space(s.get_char(a))
        invariant
            n == s@.len(),
            a <= n,
            skip_space(s@, a as int) == skip_space(s@, 0),
        decreases n - a,
    {
        a = a + 1;
    }
    proof {
        if a < n {
            assert(skip_space(s@, a as int) == a as int);
        }
    }
    if a >= n {
        return String::new();
    }
    let mut b: usize = n;
    while b > a && is_white_space(s.get_char(b - 1))
        invariant
            n == s@.len(),
            a < n,
            a < s@.len() && !white_space(s@[a as int]),
            a < b <= n,
            trim_end(s@, b as int) == trim_end(s@, n as int),
        decreases b,
    {
        b = b - 1;
    }
    proof {
        assert(trim_end(s@, b as int) == b as int);
    }
    String::from_str(s.substring_char(a, b))
}

/// The title-case state after a prefix: the text so far, whether the next
/// character starts a word, and whether any word was written.
pub open spec fn title_state(s: Seq<char>) -> (Seq<char>, bool, bool)
    decreases s.len(),
{
    if s.len() == 0 {
        (Seq::empty(), true, false)
    } else {
        let (out, at_start, any) = title_state(s.drop_last());
        let c = s.last();
        if white_space(c) {
            (out, true, any)
        } else if at_start {
            let sep = if any { seq![' '] } else { Seq::empty() };
            (out + sep + upper_char(c), false, true)
        } else {
            (out.push(c), false, any)
        }
    }
}

/// Title case: the white-space separated words of `s`, each with its first
/// character upper-cased, joined by single spaces.
pub open spec fn title_text(s: Seq<char>) -> Seq<char> {
    title_state(s).0
}

/// Converts to title case.
pub fn to_title(s: &str) -> (r: String)
    ensures
        r@ == title_text(s@),
{
    let n = s.unicode_len();
    let mut out = String::new();
    let mut at_start = true;
    let mut any = false;
    let mut i: usize = 0;
    while i < n
        invariant
            n == s@.len(),
            i <= n,
            (out@, at_start, any) == title_state(s@.take(i as int)),
        decreases n - i,
    {
        proof {
            assert(s@.take(i as int + 1).drop_last() =~= s@.take(i as int));
            assert(s@.take(i as int + 1).last() == s@[i as int]);
        }
        let c = s.get_char(i);
        if is_white_space(c) {
            at_start = true;
        } else if at_start {
            proof {
                reveal_strlit(" ");
            }
            let ghost before = out@;
            if any {
                out.append(" ");
            }
            assert(out@ =~= before + if any { seq![' '] } else { Seq::<char>::empty() });
            let u = upper_of_char(c);
            out.append(u.as_str());
            at_start = false;
            any = true;
        } else {
            out.append(s.substring_char(i, i + 1));
            proof {
                assert(s@.subrange(i as int, i as int + 1) =~= seq![c]);
            }
            at_start = false;
        }
        i = i + 1;
    }
    assert(s@.take(n as int) =~= s@);
    out
}

/// Every non-overlapping occurrence of `from`, left to right, replaced by
/// `to`.
pub open spec fn replace_all(s: Seq<char>, from: Seq<char>, to: Seq<char>) -> Seq<char>
    decreases s.len(),
{
    if from.len() == 0 || s.len() < from.len() {
        s
    } else if s.take(from.len() as int) == from {
        to + replace_all(s.skip(from.len() as int), from, to)
    } else {
        seq![s[0]] + replace_all(s.skip(1), from, to)
    }
}

/// Relies on `str::replace`: each non-overlapping occurrence of a
/// non-empty pattern, scanning left to right, is replaced.
#[verifier::external_body]
pub fn replace_text(s: &str, from: &str, to: &str) -> (r: String)
    requires
        from@.len() > 0,
    ensures
        r@ == replace_all(s@, from@, to@),
{
    s.replace(from, to)
}

} // verus!
