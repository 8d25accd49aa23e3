//! Decimal and hexadecimal rendering of integers as text.

use vstd::prelude::*;

verus! {

/// The sixteen lowercase hexadecimal digits, in order of value.
pub open spec fn hex_digits() -> Seq<char> {
    seq!['0', '1', '2', '3', '4', '5', '6', '7', '8', '9', 'a', 'b', 'c', 'd', 'e', 'f']
}

/// The lowercase hexadecimal digit of value `d` (which is below 16).
pub open spec fn hex_char(d: int) -> char {
    hex_digits()[d]
}

/// The decimal digit of value `d` (which is below 10).
pub open spec fn digit_char(d: int) -> char {
    hex_digits()[d]
}

/// The shortest decimal text of `n`, most significant digit first.
pub open spec fn decimal(n: nat) -> Seq<char>
    decreases n,
{
    if n < 10 {
        seq![digit_char(n as int)]
    } else {
        decimal(n / 10) + seq![digit_char((n % 10) as int)]
    }
}

/// Text of a boolean as Rust prints it.
pub open spec fn bool_text(b: bool) -> Seq<char> {
    if b {
        seq!['t', 'r', 'u', 'e']
    } else {
        seq!['f', 'a', 'l', 's', 'e']
    }
}

/// A decimal digit's character is the digit's ASCII code.
pub proof fn lemma_digit_code(d: int)
    requires
        0 <= d < 10,
    ensures
        digit_char(d) as u32 == 48 + d,
{
    if d == 0 { assert(digit_char(d) == '0'); }
    else if d == 1 { assert(digit_char(d) == '1'); }
    else if d == 2 { assert(digit_char(d) == '2'); }
    else if d == 3 { assert(digit_char(d) == '3'); }
    else if d == 4 { assert(digit_char(d) == '4'); }
    else if d == 5 { assert(digit_char(d) == '5'); }
    else if d == 6 { assert(digit_char(d) == '6'); }
    else if d == 7 { assert(digit_char(d) == '7'); }
    else if d == 8 { assert(digit_char(d) == '8'); }
    else { assert(digit_char(d) == '9'); }
}

/// Decimal text is not empty, has more than one digit from ten on, and
/// holds only the characters `0` to `9`.
pub proof fn lemma_decimal_digits(n: nat)
    ensures
        decimal(n).len() >= 1,
        n >= 10 ==> decimal(n).len() >= 2,
        forall|i: int| 0 <= i < decimal(n).len() ==> 48 <= #[trigger] (decimal(n)[i] as u32) <= 57,
    decreases n,
{
    if n < 10 {
        lemma_digit_code(n as int);
    } else {
        lemma_decimal_digits(n / 10);
        lemma_digit_code((n % 10) as int);
        let d = decimal(n);
        assert forall|i: int| 0 <= i < d.len() implies 48 <= #[trigger] (d[i] as u32) <= 57 by {
            if i < decimal(n / 10).len() {
                assert(d[i] == decimal(n / 10)[i]);
            }
        }
    }
}

/// Different numbers have different decimal texts.
pub proof fn lemma_decimal_injective(a: nat, b: nat)
    requires
        decimal(a) == decimal(b),
    ensures
        a == b,
    decreases a,
{
    lemma_decimal_digits(a);
    lemma_decimal_digits(b);
    if a < 10 && b < 10 {
        lemma_digit_code(a as int);
        lemma_digit_code(b as int);
        assert(decimal(a)[0] == digit_char(a as int));
        assert(decimal(b)[0] == digit_char(b as int));
        assert(decimal(a)[0] == decimal(b)[0]);
        assert(digit_char(a as int) as u32 == digit_char(b as int) as u32);
    } else if a >= 10 && b >= 10 {
        let da = decimal(a);
        let db = decimal(b);
        assert(da == decimal(a / 10) + seq![digit_char((a % 10) as int)]);
        assert(db == decimal(b / 10) + seq![digit_char((b % 10) as int)]);
        assert(da.last() == digit_char((a % 10) as int));
        assert(db.last() == digit_char((b % 10) as int));
        lemma_digit_code((a % 10) as int);
        lemma_digit_code((b % 10) as int);
        assert(a % 10 == b % 10);
        assert(da.drop_last() =~= decimal(a / 10));
        assert(db.drop_last() =~= decimal(b / 10));
        lemma_decimal_injective(a / 10, b / 10);
        assert(a / 10 == b / 10);
        assert(a == 10 * (a / 10) + a % 10);
        assert(b == 10 * (b / 10) + b % 10);
    } else {
        assert(decimal(a).len() == decimal(b).len());
    }
}

/// A string slice holding the single hexadecimal digit of value `d`.
pub fn hex_digit_str(d: u8) -> (s: &'static str)
    requires
        d < 16,
    ensures
        s@ == seq![hex_char(d as int)],
{
    match d {
        0 => { proof { reveal_strlit("0"); } "0" },
        1 => { proof { reveal_strlit("1"); } "1" },
        2 => { proof { reveal_strlit("2"); } "2" },
        3 => { proof { reveal_strlit("3"); } "3" },
        4 => { proof { reveal_strlit("4"); } "4" },
        5 => { proof { reveal_strlit("5"); } "5" },
        6 => { proof { reveal_strlit("6"); } "6" },
        7 => { proof { reveal_strlit("7"); } "7" },
        8 => { proof { reveal_strlit("8"); } "8" },
        9 => { proof { reveal_strlit("9"); } "9" },
        10 => { proof { reveal_strlit("a"); } "a" },
        11 => { proof { reveal_strlit("b"); } "b" },
        12 => { proof { reveal_strlit("c"); } "c" },
        13 => { proof { reveal_strlit("d"); } "d" },
        14 => { proof { reveal_strlit("e"); } "e" },
        _ => { proof { reveal_strlit("f"); } "f" },
    }
}

/// Appends the decimal text of `n` to `out`.
pub fn push_decimal(out: &mut String, n: u64)
    ensures
        final(out)@ == old(out)@ + decimal(n as nat),
    decreases n,
{
    if n < 10 {
        out.append(hex_digit_str(n as u8));
    } else {
        push_decimal(out, n / 10);
        out.append(hex_digit_str((n % 10) as u8));
        assert(out@ =~= old(out)@ + decimal(n as nat)) by {
            assert(decimal(n as nat) == decimal((n / 10) as nat) + seq![digit_char((n % 10) as int)]);
        }
    }
}

/// Appends the text of `b` ("true" or "false") to `out`.
pub fn push_bool(out: &mut String, b: bool)
    ensures
        final(out)@ == old(out)@ + bool_text(b),
{
    if b {
        proof { reveal_strlit("true"); }
        out.append("true");
    } else {
        proof { reveal_strlit("false"); }
        out.append("false");
    }
}

} // verus!
