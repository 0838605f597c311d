//! Text helpers: decimal numerals, right alignment and comparison of strings.

use vstd::prelude::*;
use vstd::string::*;

verus! {

/// The decimal digits, indexed by their value.
pub open spec fn digit_chars() -> Seq<char> {
    seq!['0', '1', '2', '3', '4', '5', '6', '7', '8', '9']
}

/// The decimal numeral of `n`, without leading zeros.
pub open spec fn decimal(n: nat) -> Seq<char>
    decreases n,
{
    if n < 10 {
        seq![digit_chars()[n as int]]
    } else {
        decimal(n / 10).push(digit_chars()[(n % 10) as int])
    }
}

/// `s` right-aligned in a field of `width` characters, filled with spaces on the left.
pub open spec fn right_aligned(s: Seq<char>, width: nat) -> Seq<char> {
    if s.len() < width {
        Seq::new((width - s.len()) as nat, |i: int| ' ') + s
    } else {
        s
    }
}

/// Appends the decimal numeral of `n` to `out`.
fn append_decimal(out: &mut String, n: usize)
    ensures
        final(out)@ == old(out)@ + decimal(n as nat),
    decreases n,
{
    if n >= 10 {
        append_decimal(out, n / 10);
    }
    let digits = "0123456789";
    proof {
        reveal_strlit("0123456789");
    }
    let d: usize = n % 10;
    let one = digits.substring_char(d, d + 1);
    out.append(one);
    proof {
        assert(one@ =~= seq![digit_chars()[d as int]]);
        assert(final(out)@ =~= old(out)@ + decimal(n as nat));
    }
}

/// The decimal numeral of `n`, right-aligned in a field of four characters.
pub fn index_label(n: usize) -> (r: String)
    ensures
        r@ == right_aligned(decimal(n as nat), 4),
{
    let mut digits = String::new();
    append_decimal(&mut digits, n);
    let len = digits.as_str().unicode_len();
    let pad: usize = if len < 4 {
        4 - len
    } else {
        0
    };
    let mut r = String::new();
    let mut i: usize = 0;
    while i < pad
        invariant
            i <= pad,
            r@ =~= Seq::new(i as nat, |j: int| ' '),
        decreases pad - i,
    {
        proof {
            reveal_strlit(" ");
        }
        r.append(" ");
        i += 1;
        proof {
            assert(r@ =~= Seq::new(i as nat, |j: int| ' '));
        }
    }
    r.append(digits.as_str());
    proof {
        assert(r@ =~= right_aligned(decimal(n as nat), 4));
    }
    r
}

/// Whether two strings hold the same characters.
pub fn same_text(a: &str, b: &str) -> (r: bool)
    ensures
        r == (a@ == b@),
{
    let n = a.unicode_len();
    if n != b.unicode_len() {
        return false;
    }
    let mut i: usize = 0;
    while i < n
        invariant
            n == a@.len(),
            n == b@.len(),
            i <= n,
            forall|j: int| 0 <= j < i ==> a@[j] == b@[j],
        decreases n - i,
    {
        if a.get_char(i) != b.get_char(i) {
            return false;
        }
        i += 1;
    }
    proof {
        assert(a@ =~= b@);
    }
    true
}

} // verus!
