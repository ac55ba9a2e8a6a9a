//! Operations on text that the engine needs and the standard library does
//! not specify.

use vstd::prelude::*;

verus! {

/// Two texts have the same bytes exactly when they have the same characters.
pub proof fn lemma_bytes_decide(a: Seq<char>, b: Seq<char>)
    ensures
        (vstd::utf8::encode_utf8(a) == vstd::utf8::encode_utf8(b)) <==> a == b,
{
    vstd::utf8::encode_utf8_decode_utf8(a);
    vstd::utf8::encode_utf8_decode_utf8(b);
}

/// Whether two texts are the same.
pub fn str_eq(a: &str, b: &str) -> (same: bool)
    ensures
        same == (a@ == b@),
{
    let x = a.as_bytes();
    let y = b.as_bytes();
    proof {
        lemma_bytes_decide(a@, b@);
    }
    if x.len() != y.len() {
        return false;
    }
    let mut i: usize = 0;
    while i < x.len()
        invariant
            i <= x.len(),
            x.len() == y.len(),
            x@ == vstd::utf8::encode_utf8(a@),
            y@ == vstd::utf8::encode_utf8(b@),
            a@ == b@ ==> x@ == y@,
            forall|k: int| 0 <= k < i ==> x@[k] == y@[k],
        decreases x.len() - i,
    {
        if x[i] != y[i] {
            return false;
        }
        i += 1;
    }
    assert(x@ =~= y@);
    true
}

/// Whether `pattern` occurs at position `at` of `bytes`.
pub open spec fn occurs_at(bytes: Seq<u8>, pattern: Seq<u8>, at: int) -> bool {
    0 <= at && at + pattern.len() <= bytes.len() && bytes.subrange(at, at + pattern.len()) == pattern
}

/// Whether `pattern` occurs somewhere in `bytes`.
pub open spec fn occurs(bytes: Seq<u8>, pattern: Seq<u8>) -> bool {
    exists|at: int| occurs_at(bytes, pattern, at)
}

/// Whether the text `pattern` occurs in the text `text`, both by their
/// UTF-8 bytes.
pub open spec fn text_contains(text: Seq<char>, pattern: Seq<char>) -> bool {
    occurs(vstd::utf8::encode_utf8(text), vstd::utf8::encode_utf8(pattern))
}

fn matches_at(text: &[u8], pattern: &[u8], at: usize) -> (found: bool)
    requires
        at + pattern@.len() <= text@.len(),
    ensures
        found == occurs_at(text@, pattern@, at as int),
{
    let mut j: usize = 0;
    while j < pattern.len()
        invariant
            j <= pattern.len(),
            at + pattern.len() <= text.len(),
            forall|k: int| 0 <= k < j ==> text@[at + k] == pattern@[k],
        decreases pattern.len() - j,
    {
        if text[at + j] != pattern[j] {
            assert(text@.subrange(at as int, at + pattern@.len())[j as int] == text@[at + j]);
            return false;
        }
        j += 1;
    }
    assert(text@.subrange(at as int, at + pattern@.len()) =~= pattern@);
    true
}

/// Whether `pattern` occurs in `text`.
pub fn contains(text: &str, pattern: &str) -> (found: bool)
    ensures
        found == text_contains(text@, pattern@),
{
    let t = text.as_bytes();
    let p = pattern.as_bytes();
    if p.len() > t.len() {
        return false;
    }
    let last: usize = t.len() - p.len();
    let mut at: usize = 0;
    loop
        invariant
            t@ == vstd::utf8::encode_utf8(text@),
            p@ == vstd::utf8::encode_utf8(pattern@),
            last == t@.len() - p@.len(),
            at <= last,
            forall|k: int| 0 <= k < at ==> !occurs_at(t@, p@, k),
        decreases last - at,
    {
        if matches_at(t, p, at) {
            return true;
        }
        if at == last {
            return false;
        }
        at += 1;
    }
}

/// The decimal digit of a number below ten.
pub open spec fn digit_char(d: nat) -> char {
    if d == 0 {
        '0'
    } else if d == 1 {
        '1'
    } else if d == 2 {
        '2'
    } else if d == 3 {
        '3'
    } else if d == 4 {
        '4'
    } else if d == 5 {
        '5'
    } else if d == 6 {
        '6'
    } else if d == 7 {
        '7'
    } else if d == 8 {
        '8'
    } else {
        '9'
    }
}

/// A natural number in decimal, without leading zeros.
pub open spec fn decimal_text(n: nat) -> Seq<char>
    decreases n,
{
    if n < 10 {
        seq![digit_char(n)]
    } else {
        decimal_text(n / 10).push(digit_char(n % 10))
    }
}

fn digit_str(d: u64) -> (s: &'static str)
    requires
        d < 10,
    ensures
        s@ == seq![digit_char(d as nat)],
{
    proof {
        reveal_strlit("0");
        reveal_strlit("1");
        reveal_strlit("2");
        reveal_strlit("3");
        reveal_strlit("4");
        reveal_strlit("5");
        reveal_strlit("6");
        reveal_strlit("7");
        reveal_strlit("8");
        reveal_strlit("9");
    }
    let s = if d == 0 {
        "0"
    } else if d == 1 {
        "1"
    } else if d == 2 {
        "2"
    } else if d == 3 {
        "3"
    } else if d == 4 {
        "4"
    } else if d == 5 {
        "5"
    } else if d == 6 {
        "6"
    } else if d == 7 {
        "7"
    } else if d == 8 {
        "8"
    } else {
        "9"
    };
    assert(s@ =~= seq![digit_char(d as nat)]);
    s
}

/// A number in decimal, without leading zeros.
pub fn decimal(n: u64) -> (text: String)
    ensures
        text@ == decimal_text(n as nat),
    decreases n,
{
    if n < 10 {
        digit_str(n).to_owned()
    } else {
        let mut text = decimal(n / 10);
        text.append(digit_str(n % 10));
        assert(text@ =~= decimal_text(n as nat));
        text
    }
}

/// Whether a byte is an ASCII digit.
pub open spec fn is_digit(b: u8) -> bool {
    48 <= b <= 57
}

/// The number that a text of decimal digits writes; `None` where the text
/// is empty or holds anything but digits.
pub open spec fn digits_value(bytes: Seq<u8>) -> Option<nat>
    decreases bytes.len(),
{
    if bytes.len() == 0 {
        None
    } else if !is_digit(bytes.last()) {
        None
    } else if bytes.len() == 1 {
        Some((bytes.last() - 48) as nat)
    } else {
        match digits_value(bytes.drop_last()) {
            Some(v) => Some(v * 10 + (bytes.last() - 48) as nat),
            None => None,
        }
    }
}

/// The number that a text writes in decimal, with or without a `+` before
/// it; `None` where the text is no such number or the number exceeds
/// `u64`.
pub open spec fn parsed_u64(text: Seq<char>) -> Option<u64> {
    let bytes = vstd::utf8::encode_utf8(text);
    let digits = if bytes.len() > 0 && bytes[0] == 43 {
        bytes.skip(1)
    } else {
        bytes
    };
    match digits_value(digits) {
        Some(v) => if v <= u64::MAX {
            Some(v as u64)
        } else {
            None
        },
        None => None,
    }
}

/// A text of digits writes no smaller a number than its first digits do,
/// and is no number where its first digits are none.
pub proof fn lemma_digits_grow(bytes: Seq<u8>, n: int)
    requires
        1 <= n <= bytes.len(),
    ensures
        digits_value(bytes.take(n)) is None ==> digits_value(bytes) is None,
        digits_value(bytes) matches Some(v) ==> digits_value(bytes.take(n))->Some_0 <= v,
    decreases bytes.len() - n,
{
    if n < bytes.len() {
        assert(bytes.take(n + 1).drop_last() =~= bytes.take(n));
        lemma_digits_grow(bytes, n + 1);
    } else {
        assert(bytes.take(n) =~= bytes);
    }
}

/// Reads a number written in decimal, with or without a `+` before it.
pub fn parse_u64(text: &str) -> (r: Option<u64>)
    ensures
        r == parsed_u64(text@),
{
    let bytes = text.as_bytes();
    let start: usize = if bytes.len() > 0 && bytes[0] == 43 {
        1
    } else {
        0
    };
    let ghost digits = bytes@.skip(start as int);
    proof {
        assert(bytes@.skip(0) =~= bytes@);
    }
    if start >= bytes.len() {
        return None;
    }
    let mut value: u64 = 0;
    let mut i: usize = start;
    while i < bytes.len()
        invariant
            start <= i <= bytes.len(),
            start < bytes.len(),
            bytes@ == vstd::utf8::encode_utf8(text@),
            start as int == (if bytes@.len() > 0 && bytes@[0] == 43 {
                1int
            } else {
                0int
            }),
            digits == bytes@.skip(start as int),
            i == start ==> value == 0,
            i > start ==> digits_value(digits.take(i - start)) == Some(value as nat),
        decreases bytes.len() - i,
    {
        let b = bytes[i];
        proof {
            let next = digits.take(i - start + 1);
            assert(next.drop_last() =~= digits.take(i - start));
            assert(next.last() == b);
            assert(bytes@.skip(0) =~= bytes@);
            lemma_digits_grow(digits, i - start + 1);
        }
        if b < 48 || b > 57 {
            return None;
        }
        let d = (b - 48) as u64;
        let next = match value.checked_mul(10) {
            Some(v) => v.checked_add(d),
            None => None,
        };
        match next {
            Some(v) => {
                value = v;
            },
            None => {
                return None;
            },
        }
        i += 1;
    }
    proof {
        assert(digits.take(i - start) =~= digits);
        assert(bytes@.skip(0) =~= bytes@);
    }
    Some(value)
}

/// Whether the text `text` begins with the text `prefix`, both by their
/// UTF-8 bytes.
pub open spec fn text_starts_with(text: Seq<char>, prefix: Seq<char>) -> bool {
    vstd::utf8::encode_utf8(prefix).is_prefix_of(vstd::utf8::encode_utf8(text))
}

/// Whether `text` begins with `prefix`.
pub fn starts_with(text: &str, prefix: &str) -> (b: bool)
    ensures
        b == text_starts_with(text@, prefix@),
{
    let t = text.as_bytes();
    let p = prefix.as_bytes();
    if p.len() > t.len() {
        return false;
    }
    let found = matches_at(t, p, 0);
    proof {
        assert(t@.subrange(0, p@.len() as int) =~= t@.take(p@.len() as int));
        if p@.is_prefix_of(t@) {
            assert(t@.subrange(0, p@.len() as int) =~= p@);
        }
        if found {
            assert(p@ =~= t@.subrange(0, p@.len() as int));
        }
    }
    found
}

} // verus!
