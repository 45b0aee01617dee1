//! Rendering of the numbers and names that occur in error messages.
use vstd::prelude::*;

verus! {

/// The character of one decimal digit.
pub open spec fn digit(d: nat) -> char {
    (48 + d) as char
}

/// `n` in decimal, without leading zeros.
pub open spec fn decimal(n: nat) -> Seq<char>
    decreases n,
{
    if n < 10 {
        seq![digit(n)]
    } else {
        decimal(n / 10).push(digit(n % 10))
    }
}

/// `v` in decimal, with a minus sign in front when it is negative.
pub open spec fn signed_decimal(v: int) -> Seq<char> {
    if v < 0 {
        seq!['-'] + decimal((-v) as nat)
    } else {
        decimal(v as nat)
    }
}

fn digit_text(d: u8) -> (text: &'static str)
    requires
        d < 10,
    ensures
        text@ == seq![digit(d as nat)],
{
    proof {
        reveal_strlit("0");
        reveal_strlit("1");
        reveal_strlit("2");
        reveal_strlit("3");
        reveal_strlit("4");
        reveal_strlit("5");
        reveal_strlit("6");
        reveal_strlit("7");
        reveal_strlit("8");
        reveal_strlit("9");
    }
    match d {
        0 => "0",
        1 => "1",
        2 => "2",
        3 => "3",
        4 => "4",
        5 => "5",
        6 => "6",
        7 => "7",
        8 => "8",
        _ => "9",
    }
}

/// Renders `n` in decimal.
pub fn decimal_text(n: u128) -> (text: String)
    ensures
        text@ == decimal(n as nat),
    decreases n,
{
    if n < 10 {
        digit_text(n as u8).to_owned()
    } else {
        let mut text = decimal_text(n / 10);
        text.append(digit_text((n % 10) as u8));
        text
    }
}

/// Renders `v` in decimal, with its sign.
pub fn signed_text(v: i32) -> (text: String)
    ensures
        text@ == signed_decimal(v as int),
{
    if v < 0 {
        let mut text = "-".to_owned();
        proof {
            reveal_strlit("-");
        }
        text.append(decimal_text((-(v as i64)) as u128).as_str());
        text
    } else {
        decimal_text(v as u128)
    }
}

/// Joins three pieces of text.
pub fn join3(a: &str, b: &str, c: &str) -> (text: String)
    ensures
        text@ == a@ + b@ + c@,
{
    let mut text = a.to_owned();
    text.append(b);
    text.append(c);
    text
}

proof fn lemma_decimal_is_digits(n: nat)
    ensures
        decimal(n).len() > 0,
        forall|i: int|
            0 <= i < decimal(n).len() ==> '0' <= #[trigger] decimal(n)[i] && decimal(n)[i] <= '9',
    decreases n,
{
    if n >= 10 {
        lemma_decimal_is_digits(n / 10);
    }
}

/// Different numbers are rendered differently.
pub proof fn law_decimal_is_injective(a: nat, b: nat)
    ensures
        decimal(a) == decimal(b) ==> a == b,
    decreases a,
{
    if decimal(a) == decimal(b) {
        lemma_decimal_is_digits(a / 10);
        lemma_decimal_is_digits(b / 10);
        let (x, y) = (decimal(a), decimal(b));
        assert(x.last() == digit(a % 10));
        assert(y.last() == digit(b % 10));
        if a >= 10 && b >= 10 {
            assert(x.drop_last() =~= decimal(a / 10));
            assert(y.drop_last() =~= decimal(b / 10));
            law_decimal_is_injective(a / 10, b / 10);
        }
    }
}

/// Different signed numbers are rendered differently.
pub proof fn law_signed_decimal_is_injective(a: int, b: int)
    ensures
        signed_decimal(a) == signed_decimal(b) ==> a == b,
{
    if signed_decimal(a) == signed_decimal(b) {
        let (x, y) = (signed_decimal(a), signed_decimal(b));
        lemma_decimal_is_digits(if a < 0 {
            (-a) as nat
        } else {
            a as nat
        });
        lemma_decimal_is_digits(if b < 0 {
            (-b) as nat
        } else {
            b as nat
        });
        assert(x[0] == y[0]);
        if a < 0 && b < 0 {
            assert(x.skip(1) =~= decimal((-a) as nat));
            assert(y.skip(1) =~= decimal((-b) as nat));
            law_decimal_is_injective((-a) as nat, (-b) as nat);
        } else if a >= 0 && b >= 0 {
            law_decimal_is_injective(a as nat, b as nat);
        } else if a < 0 {
            assert('0' <= decimal(b as nat)[0]);
        } else {
            assert('0' <= decimal(a as nat)[0]);
        }
    }
}

proof fn lemma_signed_decimal_chars(v: int, i: int)
    requires
        0 <= i < signed_decimal(v).len(),
    ensures
        signed_decimal(v)[i] == '-' || '0' <= signed_decimal(v)[i] <= '9',
{
    if v < 0 {
        lemma_decimal_is_digits((-v) as nat);
        if i > 0 {
            assert(signed_decimal(v)[i] == decimal((-v) as nat)[i - 1]);
        }
    } else {
        lemma_decimal_is_digits(v as nat);
    }
}

/// A number between the same text and a comma or a bracket can be told from its context.
pub proof fn lemma_number_ends(
    prefix: Seq<char>,
    a: int,
    rest_a: Seq<char>,
    b: int,
    rest_b: Seq<char>,
)
    requires
        prefix + signed_decimal(a) + rest_a == prefix + signed_decimal(b) + rest_b,
        rest_a.len() > 0,
        rest_b.len() > 0,
        rest_a[0] == ',' || rest_a[0] == ')',
        rest_b[0] == ',' || rest_b[0] == ')',
    ensures
        a == b,
{
    let (x, y) = (signed_decimal(a), signed_decimal(b));
    let s = prefix + x + rest_a;
    let t = prefix + y + rest_b;
    let n = prefix.len() as int;
    if x.len() < y.len() {
        assert(s[n + x.len()] == rest_a[0]);
        assert(t[n + x.len()] == y[x.len() as int]);
        lemma_signed_decimal_chars(b, x.len() as int);
    } else if y.len() < x.len() {
        assert(t[n + y.len()] == rest_b[0]);
        assert(s[n + y.len()] == x[y.len() as int]);
        lemma_signed_decimal_chars(a, y.len() as int);
    } else {
        assert forall|i: int| 0 <= i < x.len() implies x[i] == y[i] by {
            assert(s[n + i] == x[i]);
            assert(t[n + i] == y[i]);
        }
        assert(x =~= y);
        law_signed_decimal_is_injective(a, b);
    }
}

/// A number below ten is one digit, and a further digit at the end makes a number ten times as
/// large and that digit more.
pub proof fn law_decimal_counts_in_tens(n: nat, d: nat)
    requires
        d < 10,
    ensures
        decimal(d).len() == 1,
        decimal(d)[0] as int == '0' as int + d,
        n > 0 ==> {
            &&& decimal(10 * n + d).len() == decimal(n).len() + 1
            &&& decimal(10 * n + d).drop_last() == decimal(n)
            &&& decimal(10 * n + d).last() as int == '0' as int + d
        },
{
    if n > 0 {
        assert((10 * n + d) / 10 == n);
        assert((10 * n + d) % 10 == d);
        assert(decimal(10 * n + d).drop_last() =~= decimal(n));
    }
}

/// A number that is not negative carries no sign, and its opposite is the same digits behind a
/// minus sign.
pub proof fn law_sign_stands_in_front(n: nat)
    ensures
        signed_decimal(n as int) == decimal(n),
        n > 0 ==> {
            &&& signed_decimal(-n).len() == decimal(n).len() + 1
            &&& signed_decimal(-n)[0] == '-'
            &&& signed_decimal(-n).skip(1) == decimal(n)
        },
{
    if n > 0 {
        assert(signed_decimal(-n).skip(1) =~= decimal(n));
    }
}

} // verus!
