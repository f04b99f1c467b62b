//! Small text building blocks: decimal numerals, prefixes, character removal
//! and hexadecimal notation.

use vstd::prelude::*;
use vstd::string::*;

verus! {

/// The character that writes the digit `d`.
pub open spec fn digit_char(d: nat) -> char {
    if d == 0 {
        '0'
    } else if d == 1 {
        '1'
    } else if d == 2 {
        '2'
    } else if d == 3 {
        '3'
    } else if d == 4 {
        '4'
    } else if d == 5 {
        '5'
    } else if d == 6 {
        '6'
    } else if d == 7 {
        '7'
    } else if d == 8 {
        '8'
    } else {
        '9'
    }
}

/// The decimal numeral of `n`, most significant digit first, without leading zeros.
pub open spec fn decimal_text(n: nat) -> Seq<char>
    decreases n,
{
    if n < 10 {
        seq![digit_char(n)]
    } else {
        decimal_text(n / 10).push(digit_char(n % 10))
    }
}

/// The one-character text of a single digit.
fn digit_str(d: u64) -> (s: &'static str)
    requires
        d < 10,
    ensures
        s@ == seq![digit_char(d as nat)],
{
    proof {
        reveal_strlit("0");
        reveal_strlit("1");
        reveal_strlit("2");
        reveal_strlit("3");
        reveal_strlit("4");
        reveal_strlit("5");
        reveal_strlit("6");
        reveal_strlit("7");
        reveal_strlit("8");
        reveal_strlit("9");
    }
    let s = if d == 0 {
        "0"
    } else if d == 1 {
        "1"
    } else if d == 2 {
        "2"
    } else if d == 3 {
        "3"
    } else if d == 4 {
        "4"
    } else if d == 5 {
        "5"
    } else if d == 6 {
        "6"
    } else if d == 7 {
        "7"
    } else if d == 8 {
        "8"
    } else {
        "9"
    };
    assert(s@ =~= seq![digit_char(d as nat)]);
    s
}

/// Writes `n` as a decimal numeral.
pub fn decimal_string(n: u64) -> (s: String)
    ensures
        s@ == decimal_text(n as nat),
    decreases n,
{
    if n < 10 {
        String::from_str(digit_str(n))
    } else {
        let mut s = decimal_string(n / 10);
        s.append(digit_str(n % 10));
        assert(s@ =~= decimal_text(n as nat));
        s
    }
}

/// Whether `text` begins with `prefix`.
pub fn starts_with(text: &str, prefix: &str) -> (b: bool)
    ensures
        b == prefix@.is_prefix_of(text@),
{
    let n = prefix.unicode_len();
    let m = text.unicode_len();
    if m < n {
        return false;
    }
    let mut i: usize = 0;
    while i < n
        invariant
            n == prefix@.len(),
            m == text@.len(),
            n <= m,
            i <= n,
            forall|j: int| 0 <= j < i ==> prefix@[j] == text@[j],
        decreases n - i,
    {
        if prefix.get_char(i) != text.get_char(i) {
            assert(prefix@[i as int] != text@.subrange(0, prefix@.len() as int)[i as int]);
            return false;
        }
        i += 1;
    }
    assert(prefix@ =~= text@.subrange(0, prefix@.len() as int));
    true
}

/// `s` with every occurrence of `c` left out.
pub open spec fn without_char(s: Seq<char>, c: char) -> Seq<char>
    decreases s.len(),
{
    if s.len() == 0 {
        Seq::<char>::empty()
    } else if s.last() == c {
        without_char(s.drop_last(), c)
    } else {
        without_char(s.drop_last(), c).push(s.last())
    }
}

/// The first `limit` characters of `s`, or all of `s` where it is shorter.
pub open spec fn leading(s: Seq<char>, limit: nat) -> Seq<char> {
    if s.len() <= limit {
        s
    } else {
        s.subrange(0, limit as int)
    }
}

/// Appends one character to a string, as `String::push` does.
#[verifier::external_body]
fn push_char(s: &mut String, c: char)
    ensures
        final(s)@ == old(s)@.push(c),
{
    s.push(c)
}

/// Copies `text` without the occurrences of `c`.
pub fn remove_char(text: &str, c: char) -> (out: String)
    ensures
        out@ == without_char(text@, c),
{
    let n = text.unicode_len();
    let mut out = String::new();
    let mut i: usize = 0;
    assert(text@.take(0) =~= Seq::<char>::empty());
    while i < n
        invariant
            n == text@.len(),
            i <= n,
            out@ == without_char(text@.take(i as int), c),
        decreases n - i,
    {
        let x = text.get_char(i);
        proof {
            let next = text@.take(i + 1);
            assert(next.drop_last() =~= text@.take(i as int));
            assert(next.last() == x);
        }
        if x != c {
            push_char(&mut out, x);
        }
        i += 1;
    }
    assert(text@.take(n as int) =~= text@);
    out
}

/// Copies at most the first `limit` characters of `text`.
pub fn take_leading(text: &str, limit: usize) -> (out: String)
    ensures
        out@ == leading(text@, limit as nat),
{
    let n = text.unicode_len();
    if n <= limit {
        String::from_str(text)
    } else {
        String::from_str(text.substring_char(0, limit))
    }
}

} // verus!
