//! Decimal text of integers, as integer literals spell them.
use vstd::prelude::*;

verus! {

/// The decimal digit character for `d < 10`.
pub open spec fn digit_char(d: nat) -> char {
    if d == 0 {
        '0'
    } else if d == 1 {
        '1'
    } else if d == 2 {
        '2'
    } else if d == 3 {
        '3'
    } else if d == 4 {
        '4'
    } else if d == 5 {
        '5'
    } else if d == 6 {
        '6'
    } else if d == 7 {
        '7'
    } else if d == 8 {
        '8'
    } else {
        '9'
    }
}

/// The decimal digits of `n`, most significant first, without leading zeros.
pub open spec fn decimal_digits(n: nat) -> Seq<char>
    decreases n,
{
    if n < 10 {
        seq![digit_char(n)]
    } else {
        decimal_digits(n / 10).push(digit_char(n % 10))
    }
}

/// The decimal text of `n`: a `-` sign for negatives, then the digits.
pub open spec fn decimal(n: int) -> Seq<char> {
    if n < 0 {
        seq!['-'] + decimal_digits((-n) as nat)
    } else {
        decimal_digits(n as nat)
    }
}

fn digit_str(d: u128) -> (r: &'static str)
    requires
        d < 10,
    ensures
        r@ == seq![digit_char(d as nat)],
{
    proof {
        reveal_strlit("0");
        reveal_strlit("1");
        reveal_strlit("2");
        reveal_strlit("3");
        reveal_strlit("4");
        reveal_strlit("5");
        reveal_strlit("6");
        reveal_strlit("7");
        reveal_strlit("8");
        reveal_strlit("9");
    }
    if d == 0 {
        "0"
    } else if d == 1 {
        "1"
    } else if d == 2 {
        "2"
    } else if d == 3 {
        "3"
    } else if d == 4 {
        "4"
    } else if d == 5 {
        "5"
    } else if d == 6 {
        "6"
    } else if d == 7 {
        "7"
    } else if d == 8 {
        "8"
    } else {
        "9"
    }
}

/// Writes the decimal digits of `n`.
pub fn unsigned_decimal(n: u128) -> (r: String)
    ensures
        r@ == decimal_digits(n as nat),
{
    let mut m = n;
    let mut acc = String::new();
    loop
        invariant_except_break
            decimal_digits(n as nat) == decimal_digits(m as nat) + acc@,
        ensures
            decimal_digits(n as nat) == acc@,
        decreases m,
    {
        let d = m % 10;
        let ghost prev = acc@;
        let mut next = String::from_str(digit_str(d));
        next.append(acc.as_str());
        acc = next;
        assert(acc@ == seq![digit_char((m % 10) as nat)] + prev);
        if m < 10 {
            assert(decimal_digits(m as nat) == seq![digit_char((m % 10) as nat)]);
            assert(decimal_digits(n as nat) == acc@);
            break;
        }
        let ghost old_m = m;
        m = m / 10;
        assert(decimal_digits(old_m as nat) == decimal_digits(m as nat).push(
            digit_char((old_m % 10) as nat),
        ));
        assert(decimal_digits(m as nat) + acc@ =~= decimal_digits(old_m as nat) + prev);
    }
    acc
}

/// Writes the decimal text of `n`, with a `-` sign when it is negative.
pub fn signed_decimal(n: i128) -> (r: String)
    ensures
        r@ == decimal(n as int),
{
    if n < 0 {
        let magnitude: u128 = ((-(n + 1)) as u128) + 1;
        let digits = unsigned_decimal(magnitude);
        let mut r = String::from_str("-");
        proof {
            reveal_strlit("-");
        }
        r.append(digits.as_str());
        r
    } else {
        unsigned_decimal(n as u128)
    }
}

/// The number that a text of decimal digits spells, most significant
/// first.
pub open spec fn digits_value(text: Seq<char>) -> int
    decreases text.len(),
{
    if text.len() == 0 {
        0
    } else {
        10 * digits_value(text.drop_last()) + (text.last() as int - 0x30)
    }
}

/// The decimal text of a natural number is made of the digits `0` to `9`,
/// spells that number, and has no leading zero.
pub proof fn law_decimal_digits_spell(n: nat)
    ensures
        decimal_digits(n).len() > 0,
        forall|i: int|
            0 <= i < decimal_digits(n).len() ==> '0' <= #[trigger] decimal_digits(n)[i] <= '9',
        digits_value(decimal_digits(n)) == n,
        decimal_digits(n).len() > 1 ==> decimal_digits(n)[0] != '0',
    decreases n,
{
    if n >= 10 {
        law_decimal_digits_spell(n / 10);
        let d = decimal_digits(n);
        assert(d.drop_last() =~= decimal_digits(n / 10));
        assert forall|i: int| 0 <= i < d.len() implies '0' <= #[trigger] d[i] <= '9' by {
            if i < d.len() - 1 {
                assert(d[i] == decimal_digits(n / 10)[i]);
            }
        }
        assert(d[0] == decimal_digits(n / 10)[0]);
        let m = n / 10;
        if m < 10 {
            assert(decimal_digits(m) == seq![digit_char(m)]);
            assert(m >= 1);
        } else {
            law_decimal_digits_spell(m / 10);
            assert(decimal_digits(m).len() > 1);
        }
        assert(digit_char(n % 10) as int - 0x30 == n % 10);
        assert(digits_value(d) == 10 * digits_value(decimal_digits(m)) + (n % 10));
        assert(digits_value(decimal_digits(m)) == m);
        assert(n == 10 * m + n % 10);
    } else {
        let d = decimal_digits(n);
        assert(d == seq![digit_char(n)]);
        assert(d.drop_last() =~= Seq::<char>::empty());
        assert(digits_value(Seq::<char>::empty()) == 0);
        assert(digit_char(n) as int - 0x30 == n);
        assert(digits_value(d) == 10 * digits_value(d.drop_last()) + (d.last() as int - 0x30));
    }
}

/// The decimal text of an integer: a negative number is `-` and the digits
/// of its magnitude, any other number its digits alone.
pub proof fn law_decimal_spell(n: int)
    ensures
        n < 0 ==> decimal(n).len() > 1 && decimal(n)[0] == '-' && digits_value(decimal(n).skip(1))
            == -n,
        n >= 0 ==> digits_value(decimal(n)) == n && decimal(n)[0] != '-',
{
    if n < 0 {
        law_decimal_digits_spell((-n) as nat);
        assert(decimal(n).skip(1) =~= decimal_digits((-n) as nat));
    } else {
        law_decimal_digits_spell(n as nat);
    }
}

} // verus!
