//! Plain-text building blocks for the report tables: decimal digits,
//! column padding and repeated fill characters, all modelled at the
//! specification level so that a rendered report is pinned down exactly.

use vstd::prelude::*;

verus! {

/// `p` repeated `n` times (empty when `n <= 0`).
pub open spec fn repeat_seq(p: Seq<char>, n: int) -> Seq<char>
    decreases n,
{
    if n <= 0 {
        Seq::empty()
    } else {
        repeat_seq(p, n - 1) + p
    }
}

/// The decimal digit character for `d` in `0 .. 9`.
pub open spec fn dec_digit(d: int) -> char {
    if d == 0 {
        '0'
    } else if d == 1 {
        '1'
    } else if d == 2 {
        '2'
    } else if d == 3 {
        '3'
    } else if d == 4 {
        '4'
    } else if d == 5 {
        '5'
    } else if d == 6 {
        '6'
    } else if d == 7 {
        '7'
    } else if d == 8 {
        '8'
    } else {
        '9'
    }
}

/// The usual decimal rendering of a non-negative integer, without sign or
/// leading zeros (`0` renders as `"0"`).
pub open spec fn dec_str(n: int) -> Seq<char>
    decreases n,
{
    if n < 10 {
        seq![dec_digit(n)]
    } else {
        dec_str(n / 10).push(dec_digit(n % 10))
    }
}

/// `s` padded on the left with spaces to width `w` (unchanged when it is
/// already that wide).
pub open spec fn right_aligned(s: Seq<char>, w: int) -> Seq<char> {
    repeat_seq(seq![' '], w - s.len()) + s
}

/// `s` padded on the right with spaces to width `w` (unchanged when it is
/// already that wide).
pub open spec fn left_aligned(s: Seq<char>, w: int) -> Seq<char> {
    s + repeat_seq(seq![' '], w - s.len())
}

/// Appends `piece` to `out` `n` times.
pub fn push_repeat(out: &mut String, piece: &str, n: usize)
    ensures
        final(out)@ == old(out)@ + repeat_seq(piece@, n as int),
{
    let mut i: usize = 0;
    proof {
        assert(out@ =~= old(out)@ + repeat_seq(piece@, 0));
    }
    while i < n
        invariant
            i <= n,
            out@ == old(out)@ + repeat_seq(piece@, i as int),
        decreases n - i,
    {
        out.append(piece);
        proof {
            assert(out@ =~= old(out)@ + repeat_seq(piece@, i + 1));
        }
        i = i + 1;
    }
}

/// The one-character string for the decimal digit `d`.
fn digit_str(d: usize) -> (r: &'static str)
    requires
        d < 10,
    ensures
        r@ =~= seq![dec_digit(d as int)],
{
    proof {
        reveal_strlit("0");
        reveal_strlit("1");
        reveal_strlit("2");
        reveal_strlit("3");
        reveal_strlit("4");
        reveal_strlit("5");
        reveal_strlit("6");
        reveal_strlit("7");
        reveal_strlit("8");
        reveal_strlit("9");
    }
    if d == 0 {
        "0"
    } else if d == 1 {
        "1"
    } else if d == 2 {
        "2"
    } else if d == 3 {
        "3"
    } else if d == 4 {
        "4"
    } else if d == 5 {
        "5"
    } else if d == 6 {
        "6"
    } else if d == 7 {
        "7"
    } else if d == 8 {
        "8"
    } else {
        "9"
    }
}

/// The decimal rendering of `n`.
pub fn usize_to_string(n: usize) -> (r: String)
    ensures
        r@ == dec_str(n as int),
    decreases n,
{
    if n < 10 {
        String::from_str(digit_str(n))
    } else {
        let mut s = usize_to_string(n / 10);
        s.append(digit_str(n % 10));
        proof {
            assert(s@ =~= dec_str((n / 10) as int).push(dec_digit((n % 10) as int)));
        }
        s
    }
}

/// Appends `t` to `out`, left-padded with spaces to width `width`.
pub fn push_right_aligned_str(out: &mut String, t: &str, width: usize)
    ensures
        final(out)@ == old(out)@ + right_aligned(t@, width as int),
{
    let len = t.unicode_len();
    let pad = if width > len {
        width - len
    } else {
        0
    };
    push_repeat(out, " ", pad);
    out.append(t);
    proof {
        reveal_strlit(" ");
        assert(" "@ =~= seq![' ']);
        assert(repeat_seq(seq![' '], pad as int) == repeat_seq(seq![' '], width - t@.len()));
        assert(out@ =~= old(out)@ + right_aligned(t@, width as int));
    }
}

/// Appends `t` to `out`, right-padded with spaces to width `width`.
pub fn push_left_aligned_str(out: &mut String, t: &str, width: usize)
    ensures
        final(out)@ == old(out)@ + left_aligned(t@, width as int),
{
    let len = t.unicode_len();
    let pad = if width > len {
        width - len
    } else {
        0
    };
    out.append(t);
    push_repeat(out, " ", pad);
    proof {
        reveal_strlit(" ");
        assert(" "@ =~= seq![' ']);
        assert(repeat_seq(seq![' '], pad as int) == repeat_seq(seq![' '], width - t@.len()));
        assert(out@ =~= old(out)@ + left_aligned(t@, width as int));
    }
}

/// Appends the decimal rendering of `n` to `out`, left-padded with spaces
/// to width `width`.
pub fn push_right_aligned_number(out: &mut String, n: usize, width: usize)
    ensures
        final(out)@ == old(out)@ + right_aligned(dec_str(n as int), width as int),
{
    let digits = usize_to_string(n);
    push_right_aligned_str(out, digits.as_str(), width);
}

} // verus!
