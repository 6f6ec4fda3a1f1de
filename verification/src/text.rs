//! Character-level text helpers: substrings that never cut a character in
//! two, decimal numbers, and padding.

use vstd::prelude::*;
use vstd::string::StrSliceExecFns;
use vstd::string::StringExecFns;

verus! {

/// The smaller of two integers.
pub open spec fn min_int(a: int, b: int) -> int {
    if a <= b {
        a
    } else {
        b
    }
}

/// The characters of `s` from position `start` on, at most `len` of them.
/// Positions are counted in characters; a range that reaches past the end
/// is cut at the end.
pub open spec fn substring_of(s: Seq<char>, start: int, len: int) -> Seq<char>
    recommends
        0 <= start,
        0 <= len,
{
    s.subrange(min_int(start, s.len() as int), min_int(start + len, s.len() as int))
}

/// The first `n` characters of `s`, or all of `s` if it is shorter.
pub open spec fn truncate_to(s: Seq<char>, n: int) -> Seq<char>
    recommends
        0 <= n,
{
    s.subrange(0, min_int(n, s.len() as int))
}

/// Substring of a string slice by character positions.
pub fn char_substring<'a>(s: &'a str, start: usize, len: usize) -> (r: &'a str)
    ensures
        r@ == substring_of(s@, start as int, len as int),
{
    let n: usize = s.unicode_len();
    let from: usize = if start < n {
        start
    } else {
        n
    };
    let to: usize = if len < n - from {
        from + len
    } else {
        n
    };
    s.substring_char(from, to)
}

/// The character that stands for a decimal digit.
pub open spec fn digit_char(d: int) -> char
    recommends
        0 <= d <= 9,
{
    if d == 0 {
        '0'
    } else if d == 1 {
        '1'
    } else if d == 2 {
        '2'
    } else if d == 3 {
        '3'
    } else if d == 4 {
        '4'
    } else if d == 5 {
        '5'
    } else if d == 6 {
        '6'
    } else if d == 7 {
        '7'
    } else if d == 8 {
        '8'
    } else {
        '9'
    }
}

/// The decimal digits of a natural number, most significant first, without
/// leading zeros; zero is written as one digit.
pub open spec fn decimal(n: nat) -> Seq<char>
    decreases n,
{
    if n < 10 {
        seq![digit_char(n as int)]
    } else {
        decimal(n / 10).push(digit_char((n % 10) as int))
    }
}

/// A number as text in a field of at least two characters, filled with a
/// zero on the left; a negative number carries its sign in front.
pub open spec fn two_digits(n: int) -> Seq<char> {
    if n < 0 {
        seq!['-'] + decimal((-n) as nat)
    } else if n < 10 {
        seq!['0'] + decimal(n as nat)
    } else {
        decimal(n as nat)
    }
}

/// `n` blanks.
pub open spec fn blanks(n: nat) -> Seq<char> {
    Seq::new(n, |i: int| ' ')
}

fn digit_str(d: u64) -> (r: &'static str)
    requires
        d <= 9,
    ensures
        r@ == seq![digit_char(d as int)],
{
    proof {
        reveal_strlit("0");
        reveal_strlit("1");
        reveal_strlit("2");
        reveal_strlit("3");
        reveal_strlit("4");
        reveal_strlit("5");
        reveal_strlit("6");
        reveal_strlit("7");
        reveal_strlit("8");
        reveal_strlit("9");
    }
    let r = if d == 0 {
        "0"
    } else if d == 1 {
        "1"
    } else if d == 2 {
        "2"
    } else if d == 3 {
        "3"
    } else if d == 4 {
        "4"
    } else if d == 5 {
        "5"
    } else if d == 6 {
        "6"
    } else if d == 7 {
        "7"
    } else if d == 8 {
        "8"
    } else {
        "9"
    };
    assert(r@ =~= seq![digit_char(d as int)]);
    r
}

/// Appends the decimal digits of `n` to `out`.
pub fn push_decimal(out: &mut String, n: u64)
    ensures
        final(out)@ == old(out)@ + decimal(n as nat),
    decreases n,
{
    if n >= 10 {
        push_decimal(out, n / 10);
    }
    let d = digit_str(n % 10);
    out.append(d);
    assert(out@ =~= old(out)@ + decimal(n as nat));
}

/// A natural number as decimal text.
pub fn decimal_string(n: u64) -> (r: String)
    ensures
        r@ == decimal(n as nat),
{
    let mut out = String::new();
    push_decimal(&mut out, n);
    assert(out@ =~= decimal(n as nat));
    out
}

/// Appends `n` in a zero-filled field of two characters to `out`.
pub fn push_two_digits(out: &mut String, n: i64)
    ensures
        final(out)@ == old(out)@ + two_digits(n as int),
{
    if n < 0 {
        out.append("-");
        let m: u64 = if n == i64::MIN {
            9223372036854775808u64
        } else {
            (-n) as u64
        };
        push_decimal(out, m);
        proof {
            reveal_strlit("-");
            assert(out@ =~= old(out)@ + two_digits(n as int));
        }
    } else {
        if n < 10 {
            out.append("0");
        }
        push_decimal(out, n as u64);
        proof {
            reveal_strlit("0");
            assert(out@ =~= old(out)@ + two_digits(n as int));
        }
    }
}

/// Appends `n` blanks to `out`.
pub fn push_blanks(out: &mut String, n: usize)
    ensures
        final(out)@ == old(out)@ + blanks(n as nat),
{
    let mut i: usize = 0;
    while i < n
        invariant
            i <= n,
            out@ == old(out)@ + blanks(i as nat),
        decreases n - i,
    {
        out.append(" ");
        i = i + 1;
        proof {
            reveal_strlit(" ");
            assert(out@ =~= old(out)@ + blanks(i as nat));
        }
    }
}

/// A line of exactly `width` characters that ends in `meta`: the label,
/// cut so that at least one blank separates it from `meta`, then blanks,
/// then `meta`. Where `meta` and one blank do not fit into `width`, the line
/// is the label alone, cut to `width`.
pub open spec fn right_justified(label: Seq<char>, meta: Seq<char>, width: int) -> Seq<char>
    recommends
        0 <= width,
{
    if meta.len() + 1 > width {
        truncate_to(label, width)
    } else {
        let head = truncate_to(label, width - meta.len() - 1);
        head + blanks((width - head.len() - meta.len()) as nat) + meta
    }
}

/// A right-justified line fills its width when the metadata fits, and never
/// exceeds it.
pub proof fn lemma_right_justified_len(label: Seq<char>, meta: Seq<char>, width: int)
    requires
        0 <= width,
    ensures
        right_justified(label, meta, width).len() <= width,
        meta.len() + 1 <= width ==> right_justified(label, meta, width).len() == width,
        meta.len() + 1 <= width ==> right_justified(label, meta, width).subrange(
            width - meta.len(),
            width,
        ) == meta,
        meta.len() + 1 <= width ==> right_justified(label, meta, width)[width - meta.len() - 1]
            == ' ',
{
    if meta.len() + 1 <= width {
        let head = truncate_to(label, width - meta.len() - 1);
        let line = right_justified(label, meta, width);
        assert(line.len() == width);
        assert(line.subrange(width - meta.len(), width) =~= meta);
    }
}

/// Lays out a label with right-justified metadata in `width` characters.
pub fn justify_right(label: &str, meta: &str, width: usize) -> (r: String)
    ensures
        r@ == right_justified(label@, meta@, width as int),
{
    let m: usize = meta.unicode_len();
    if m >= width {
        let head = char_substring(label, 0, width);
        let r = String::from_str(head);
        assert(r@ =~= right_justified(label@, meta@, width as int));
        r
    } else {
        let head = char_substring(label, 0, width - m - 1);
        let h: usize = head.unicode_len();
        let mut r = String::from_str(head);
        push_blanks(&mut r, width - h - m);
        r.append(meta);
        assert(r@ =~= right_justified(label@, meta@, width as int));
        r
    }
}

} // verus!
