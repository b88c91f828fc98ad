//! Numerals: the texts that stand for a floating-point number.
//!
//! The grammar is the one that the standard library reads a float from,
//! letters in either case:
//!
//! ```text
//! Float  ::= Sign? ( 'inf' | 'infinity' | 'nan' | Number )
//! Number ::= ( Digit+ | Digit+ '.' Digit* | Digit* '.' Digit+ ) Exp?
//! Exp    ::= 'e' Sign? Digit+
//! Sign   ::= [+-]
//! Digit  ::= [0-9]
//! ```
//!
//! This module only tells whether a text is a numeral. Which number it
//! stands for is for the caller to compute.

use crate::decimal::{is_digit, unsigned_part};
use crate::text::chars_of;
use vstd::prelude::*;

verus! {

/// Where the run of digits that starts at `i` ends: the first index at or
/// after `i` that holds no digit, or the length of `s`.
pub open spec fn digits_end(s: Seq<char>, i: int) -> int
    decreases s.len() - i,
{
    if 0 <= i < s.len() && is_digit(s[i]) {
        digits_end(s, i + 1)
    } else {
        i
    }
}

/// The letter `c` in lower case; any other character unchanged.
pub open spec fn lower(c: char) -> char {
    if 'A' <= c <= 'Z' {
        ((c as u8) + 32) as char
    } else {
        c
    }
}

/// Tells whether `s` is `word` but for the case of its letters.
pub open spec fn is_word_any_case(s: Seq<char>, word: Seq<char>) -> bool {
    s.len() == word.len() && forall|i: int| 0 <= i < s.len() ==> lower(#[trigger] s[i]) == word[i]
}

/// Tells whether `b` names infinity or not-a-number.
pub open spec fn is_special(b: Seq<char>) -> bool {
    is_word_any_case(b, "inf"@) || is_word_any_case(b, "infinity"@) || is_word_any_case(b, "nan"@)
}

/// Tells whether an exponent stands in `b` from `i` on: an optional sign,
/// then digits up to the end, one at least.
pub open spec fn is_exponent(b: Seq<char>, i: int) -> bool {
    let j = if 0 <= i < b.len() && (b[i] == '+' || b[i] == '-') {
        i + 1
    } else {
        i
    };
    0 <= j < b.len() && digits_end(b, j) == b.len()
}

/// Tells whether `b` is an unsigned decimal number: digits with at most one
/// point among them, one digit at least, then an exponent or nothing.
pub open spec fn is_number(b: Seq<char>) -> bool {
    let a = digits_end(b, 0);
    let pointed = a < b.len() && b[a] == '.';
    let c = if pointed {
        digits_end(b, a + 1)
    } else {
        a
    };
    let digits = if pointed {
        c - 1
    } else {
        c
    };
    digits > 0 && (c == b.len() || ((b[c] == 'e' || b[c] == 'E') && is_exponent(b, c + 1)))
}

/// Tells whether `s` is a numeral.
pub open spec fn is_numeral(s: Seq<char>) -> bool {
    is_special(unsigned_part(s)) || is_number(unsigned_part(s))
}

/// Finds where the run of digits that starts at `i` ends.
fn scan_digits(chars: &Vec<char>, from: usize, i: usize) -> (r: usize)
    requires
        from <= i <= chars.len(),
    ensures
        i <= r <= chars.len(),
        r - from == digits_end(chars@.subrange(from as int, chars.len() as int), i - from),
{
    let ghost b = chars@.subrange(from as int, chars.len() as int);
    let mut j: usize = i;
    while j < chars.len() && '0' <= chars[j] && chars[j] <= '9'
        invariant
            from <= i <= j <= chars.len(),
            b == chars@.subrange(from as int, chars.len() as int),
            digits_end(b, j - from) == digits_end(b, i - from),
        decreases chars.len() - j,
    {
        assert(b[j - from] == chars@[j as int]);
        j += 1;
    }
    proof {
        if j < chars.len() {
            assert(b[j - from] == chars@[j as int]);
        }
    }
    j
}

/// Tells whether the characters from `from` on are `word` but for case.
fn matches_any_case(chars: &Vec<char>, from: usize, word: &str) -> (r: bool)
    requires
        from <= chars.len(),
    ensures
        r == is_word_any_case(chars@.subrange(from as int, chars.len() as int), word@),
{
    let ghost b = chars@.subrange(from as int, chars.len() as int);
    let w = chars_of(word);
    if chars.len() - from != w.len() {
        return false;
    }
    let mut i: usize = 0;
    while i < w.len()
        invariant
            i <= w.len(),
            from <= chars.len(),
            chars.len() - from == w.len(),
            w@ == word@,
            b == chars@.subrange(from as int, chars.len() as int),
            forall|k: int| 0 <= k < i ==> lower(#[trigger] b[k]) == w@[k],
        decreases w.len() - i,
    {
        let c = chars[from + i];
        assert(b[i as int] == c);
        let l = if 'A' <= c && c <= 'Z' {
            ((c as u8) + 32) as char
        } else {
            c
        };
        if l != w[i] {
            return false;
        }
        i += 1;
    }
    true
}

/// Tells whether `s` is a numeral.
pub fn is_numeral_text(s: &str) -> (r: bool)
    ensures
        r == is_numeral(s@),
{
    let chars = chars_of(s);
    let n = chars.len();
    let from: usize = if n > 0 && (chars[0] == '-' || chars[0] == '+') {
        1
    } else {
        0
    };
    let ghost b = chars@.subrange(from as int, n as int);
    assert(b =~= unsigned_part(s@));
    if matches_any_case(&chars, from, "inf") || matches_any_case(&chars, from, "infinity")
        || matches_any_case(&chars, from, "nan") {
        return true;
    }
    let a = scan_digits(&chars, from, from);
    let pointed = a < n && chars[a] == '.';
    proof {
        if a < n {
            assert(b[a - from] == chars@[a as int]);
        }
    }
    let c = if pointed {
        scan_digits(&chars, from, a + 1)
    } else {
        a
    };
    let digits = if pointed {
        c - from - 1
    } else {
        c - from
    };
    if digits == 0 {
        return false;
    }
    if c == n {
        return true;
    }
    assert(b[c - from] == chars@[c as int]);
    if !(chars[c] == 'e' || chars[c] == 'E') {
        return false;
    }
    let i = c + 1;
    proof {
        if i < n {
            assert(b[i - from] == chars@[i as int]);
        }
    }
    let j = if i < n && (chars[i] == '+' || chars[i] == '-') {
        i + 1
    } else {
        i
    };
    if j >= n {
        return false;
    }
    scan_digits(&chars, from, j) == n
}

} // verus!
