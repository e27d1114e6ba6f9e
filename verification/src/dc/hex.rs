//! Integers written in hexadecimal.

use vstd::prelude::*;
use vstd::string::StringExecFns;

verus! {

/// The sixteen digits, in order of value.
pub open spec fn digits() -> Seq<char> {
    "0123456789abcdef"@
}

/// The digits of `n` in base sixteen, most significant first, with no
/// leading zero; a single `0` for zero.
pub open spec fn hex_digits(n: nat) -> Seq<char>
    decreases n,
{
    if n < 16 {
        seq![digits()[n as int]]
    } else {
        hex_digits(n / 16).push(digits()[(n % 16) as int])
    }
}

/// The text of the digit of value `d`.
fn digit_text(d: u8) -> (s: &'static str)
    requires
        d < 16,
    ensures
        s@ == seq![digits()[d as int]],
{
    proof {
        reveal_strlit("0123456789abcdef");
        reveal_strlit("0");
        reveal_strlit("1");
        reveal_strlit("2");
        reveal_strlit("3");
        reveal_strlit("4");
        reveal_strlit("5");
        reveal_strlit("6");
        reveal_strlit("7");
        reveal_strlit("8");
        reveal_strlit("9");
        reveal_strlit("a");
        reveal_strlit("b");
        reveal_strlit("c");
        reveal_strlit("d");
        reveal_strlit("e");
        reveal_strlit("f");
    }
    let s = match d {
        0 => "0",
        1 => "1",
        2 => "2",
        3 => "3",
        4 => "4",
        5 => "5",
        6 => "6",
        7 => "7",
        8 => "8",
        9 => "9",
        10 => "a",
        11 => "b",
        12 => "c",
        13 => "d",
        14 => "e",
        _ => "f",
    };
    s
}

/// Appends the hexadecimal digits of `x` to `out`.
fn push_hex(x: u128, out: &mut String)
    ensures
        final(out)@ == old(out)@ + hex_digits(x as nat),
    decreases x,
{
    if x >= 16 {
        push_hex(x / 16, out);
    }
    out.append(digit_text((x % 16) as u8));
}

/// `x` in hexadecimal, as the format `{:x}` writes it.
pub fn lower_hex(x: u128) -> (s: String)
    ensures
        s@ == hex_digits(x as nat),
{
    let mut s = String::new();
    push_hex(x, &mut s);
    s
}

} // verus!
