//! Character-level helpers for the URL and path handling of the crawler.
//!
//! Every function here is stated over the characters of its arguments
//! (`Seq<char>`), so that the contracts of the crawler can speak of URLs and
//! paths as plain sequences.

use vstd::prelude::*;
use vstd::string::StringExecFns;

verus! {

broadcast use vstd::string::group_string_axioms;

/// `s` without the leading `prefix`, or `s` itself when it does not start
/// with `prefix`.
pub open spec fn stripped(s: Seq<char>, prefix: Seq<char>) -> Seq<char> {
    if prefix.is_prefix_of(s) {
        s.skip(prefix.len() as int)
    } else {
        s
    }
}

/// The piece number `k` (counted from zero) of `s` cut at every `'/'`, or
/// `None` when `s` has fewer than `k + 1` pieces.
pub open spec fn nth_segment(s: Seq<char>, k: nat) -> Option<Seq<char>>
    decreases k,
{
    let cut = s.index_of_first('/');
    if k == 0 {
        match cut {
            Some(i) => Some(s.take(i)),
            None => Some(s),
        }
    } else {
        match cut {
            Some(i) => nth_segment(s.skip(i + 1), (k - 1) as nat),
            None => None,
        }
    }
}

/// What follows the last `'/'` of `s`; all of `s` when it holds none.
pub open spec fn final_segment(s: Seq<char>) -> Seq<char> {
    match s.index_of_last('/') {
        Some(i) => s.skip(i + 1),
        None => s,
    }
}

/// The character that writes the digit `d`.
pub open spec fn digit_char(d: int) -> char {
    seq!['0', '1', '2', '3', '4', '5', '6', '7', '8', '9'][d]
}

/// `n` written in base ten, without leading zeros.
pub open spec fn decimal(n: nat) -> Seq<char>
    decreases n,
{
    if n < 10 {
        seq![digit_char(n as int)]
    } else {
        decimal(n / 10).push(digit_char((n % 10) as int))
    }
}

/// Whether `c` is one of `'0'` to `'9'`.
pub open spec fn is_digit(c: char) -> bool {
    '0' as u32 <= c as u32 <= '9' as u32
}

/// The number that a sequence of digits writes in base ten.
pub open spec fn digits_value(s: Seq<char>) -> nat
    decreases s.len(),
{
    if s.len() == 0 {
        0
    } else {
        (digits_value(s.drop_last()) * 10 + (s.last() as u32 - '0' as u32)) as nat
    }
}

/// The number written by the first `width` characters of `s` (by all of `s`
/// when it is shorter), or `None` when `s` is empty or one of these
/// characters is not a digit.
pub open spec fn leading_number(s: Seq<char>, width: nat) -> Option<nat> {
    let n = if s.len() <= width {
        s.len()
    } else {
        width
    };
    if n > 0 && (forall|i: int| 0 <= i < n ==> is_digit(#[trigger] s[i])) {
        Some(digits_value(s.take(n as int)))
    } else {
        None
    }
}

/// Where the first `'/'` of `t` stands, told from what comes before it.
proof fn lemma_first_slash_at(t: Seq<char>, m: int)
    requires
        0 <= m < t.len(),
        t[m] == '/',
        forall|j: int| 0 <= j < m ==> t[j] != '/',
    ensures
        t.index_of_first('/') == Some(m),
{
    t.index_of_first_ensures('/');
    assert(t.contains('/'));
}

proof fn lemma_no_slash(t: Seq<char>)
    requires
        forall|j: int| 0 <= j < t.len() ==> t[j] != '/',
    ensures
        t.index_of_first('/') is None,
        t.index_of_last('/') is None,
{
    t.index_of_first_ensures('/');
    t.index_of_last_ensures('/');
}

proof fn lemma_last_slash_at(t: Seq<char>, m: int)
    requires
        0 <= m < t.len(),
        t[m] == '/',
        forall|j: int| m < j < t.len() ==> t[j] != '/',
    ensures
        t.index_of_last('/') == Some(m),
{
    t.index_of_last_ensures('/');
    assert(t.contains('/'));
}

/// The characters of `s`, in order.
pub fn chars_of(s: &str) -> (v: Vec<char>)
    ensures
        v@ == s@,
{
    let mut v: Vec<char> = Vec::new();
    for c in iter: s.chars()
        invariant
            iter.seq() == s@,
            v@ == iter.seq().take(iter.index()),
    {
        v.push(c);
    }
    v
}

/// Whether `s` begins with `prefix`.
pub fn starts_with(s: &Vec<char>, prefix: &Vec<char>) -> (b: bool)
    ensures
        b == prefix@.is_prefix_of(s@),
{
    if prefix.len() > s.len() {
        return false;
    }
    let mut i: usize = 0;
    while i < prefix.len()
        invariant
            i <= prefix.len() <= s.len(),
            forall|j: int| 0 <= j < i ==> s@[j] == prefix@[j],
        decreases prefix.len() - i,
    {
        if s[i] != prefix[i] {
            assert(s@.subrange(0, prefix@.len() as int)[i as int] != prefix@[i as int]);
            return false;
        }
        i += 1;
    }
    assert(prefix@ =~= s@.subrange(0, prefix@.len() as int));
    true
}

/// Whether two strings hold the same characters.
pub fn same_text(a: &str, b: &str) -> (eq: bool)
    ensures
        eq == (a@ == b@),
{
    let ac = chars_of(a);
    let bc = chars_of(b);
    if ac.len() != bc.len() {
        return false;
    }
    let same = starts_with(&ac, &bc);
    assert(same ==> a@ =~= b@);
    same
}

/// Whether the string `s` begins with the string `prefix`.
pub fn has_prefix(s: &str, prefix: &str) -> (b: bool)
    ensures
        b == prefix@.is_prefix_of(s@),
{
    let sc = chars_of(s);
    let pc = chars_of(prefix);
    starts_with(&sc, &pc)
}

/// Removes `prefix` from the front of `s` when `s` begins with it.
pub fn strip_prefix(s: &str, prefix: &str) -> (r: String)
    ensures
        r@ == stripped(s@, prefix@),
{
    let sc = chars_of(s);
    let pc = chars_of(prefix);
    if starts_with(&sc, &pc) {
        String::from_str(s.substring_char(pc.len(), sc.len()))
    } else {
        String::from_str(s)
    }
}

/// Cuts `s` at every `'/'` and returns the piece number `k`, counted from
/// zero.
pub fn segment(s: &str, k: usize) -> (r: Option<String>)
    ensures
        r.deep_view() == nth_segment(s@, k as nat),
{
    let chars = chars_of(s);
    let n = chars.len();
    let mut start: usize = 0;
    let mut left: usize = k;
    let mut i: usize = 0;
    assert(s@.skip(0) =~= s@);
    while i < n
        invariant
            chars@ == s@,
            n == chars.len(),
            start <= i <= n,
            forall|j: int| start <= j < i ==> chars@[j] != '/',
            nth_segment(s@, k as nat) == nth_segment(s@.skip(start as int), left as nat),
        decreases n - i,
    {
        if chars[i] == '/' {
            proof {
                lemma_first_slash_at(s@.skip(start as int), i - start);
            }
            if left == 0 {
                let piece = String::from_str(s.substring_char(start, i));
                assert(piece@ =~= s@.skip(start as int).take(i - start));
                return Some(piece);
            }
            assert(s@.skip(start as int).skip(i - start + 1) =~= s@.skip(i + 1));
            left -= 1;
            start = i + 1;
        }
        i += 1;
    }
    proof {
        lemma_no_slash(s@.skip(start as int));
    }
    if left == 0 {
        let piece = String::from_str(s.substring_char(start, n));
        assert(piece@ =~= s@.skip(start as int));
        Some(piece)
    } else {
        None
    }
}

/// What follows the last `'/'` of `s`.
pub fn last_segment(s: &str) -> (r: String)
    ensures
        r@ == final_segment(s@),
{
    let chars = chars_of(s);
    let n = chars.len();
    let mut start: usize = 0;
    let mut i: usize = 0;
    while i < n
        invariant
            chars@ == s@,
            n == chars.len(),
            start <= i <= n,
            start > 0 ==> chars@[start - 1] == '/',
            forall|j: int| start <= j < i ==> chars@[j] != '/',
        decreases n - i,
    {
        if chars[i] == '/' {
            start = i + 1;
        }
        i += 1;
    }
    proof {
        if start > 0 {
            lemma_last_slash_at(s@, start - 1);
        } else {
            lemma_no_slash(s@);
        }
    }
    let piece = String::from_str(s.substring_char(start, n));
    assert(piece@ =~= s@.skip(start as int));
    piece
}

/// The one-character string that writes the digit `d`.
fn digit_str(d: u32) -> (r: &'static str)
    requires
        d < 10,
    ensures
        r@ == seq![digit_char(d as int)],
{
    proof {
        reveal_strlit("0");
        reveal_strlit("1");
        reveal_strlit("2");
        reveal_strlit("3");
        reveal_strlit("4");
        reveal_strlit("5");
        reveal_strlit("6");
        reveal_strlit("7");
        reveal_strlit("8");
        reveal_strlit("9");
    }
    let r = if d == 0 {
        "0"
    } else if d == 1 {
        "1"
    } else if d == 2 {
        "2"
    } else if d == 3 {
        "3"
    } else if d == 4 {
        "4"
    } else if d == 5 {
        "5"
    } else if d == 6 {
        "6"
    } else if d == 7 {
        "7"
    } else if d == 8 {
        "8"
    } else {
        "9"
    };
    assert(r@ =~= seq![digit_char(d as int)]);
    r
}

/// Writes `n` in base ten.
pub fn decimal_string(n: u32) -> (r: String)
    ensures
        r@ == decimal(n as nat),
    decreases n,
{
    if n < 10 {
        String::from_str(digit_str(n))
    } else {
        let mut r = decimal_string(n / 10);
        r.append(digit_str(n % 10));
        r
    }
}

/// Reads the number that the first `width` characters of `s` write.
pub fn parse_leading(s: &str, width: usize) -> (r: Option<u32>)
    requires
        width <= 9,
    ensures
        match r {
            Some(v) => leading_number(s@, width as nat) == Some(v as nat),
            None => leading_number(s@, width as nat) is None,
        },
{
    let chars = chars_of(s);
    let n = if chars.len() <= width {
        chars.len()
    } else {
        width
    };
    if n == 0 {
        return None;
    }
    let mut value: u32 = 0;
    let mut i: usize = 0;
    while i < n
        invariant
            chars@ == s@,
            n <= 9,
            i <= n,
            n == if chars.len() <= width { chars.len() } else { width },
            forall|j: int| 0 <= j < i ==> is_digit(#[trigger] s@[j]),
            value == digits_value(s@.take(i as int)),
            value < pow10(i as nat),
        decreases n - i,
    {
        let c: u32 = chars[i] as u32;
        if c < '0' as u32 || c > '9' as u32 {
            assert(!is_digit(s@[i as int]));
            return None;
        }
        let d: u32 = c - '0' as u32;
        proof {
            assert(s@.take(i + 1).drop_last() =~= s@.take(i as int));
            assert(s@.take(i + 1).last() == chars@[i as int]);
            lemma_pow10_step(i as nat);
        }
        value = value * 10 + d;
        i += 1;
    }
    Some(value)
}

/// Ten to the power `e`.
pub open spec fn pow10(e: nat) -> nat
    decreases e,
{
    if e == 0 {
        1
    } else {
        10 * pow10((e - 1) as nat)
    }
}

proof fn lemma_pow10_step(e: nat)
    ensures
        pow10(e + 1) == 10 * pow10(e),
        e < 9 ==> pow10(e + 1) <= 1_000_000_000,
{
    reveal_with_fuel(pow10, 11);
}

} // verus!
