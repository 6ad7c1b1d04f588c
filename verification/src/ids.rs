//! Identifier texts: decimal numbers for series, and token ids derived from a
//! series id and the token's number within the series.

use vstd::prelude::*;
use vstd::string::*;

verus! {

/// The character of a decimal digit.
pub open spec fn digit(d: nat) -> char {
    if d == 0 {
        '0'
    } else if d == 1 {
        '1'
    } else if d == 2 {
        '2'
    } else if d == 3 {
        '3'
    } else if d == 4 {
        '4'
    } else if d == 5 {
        '5'
    } else if d == 6 {
        '6'
    } else if d == 7 {
        '7'
    } else if d == 8 {
        '8'
    } else {
        '9'
    }
}

/// The decimal text of a number, without leading zeros.
pub open spec fn decimal(n: nat) -> Seq<char>
    decreases n,
{
    if n < 10 {
        seq![digit(n)]
    } else {
        decimal(n / 10).push(digit(n % 10))
    }
}

/// A decimal text has at least one digit, and at least two from ten on.
pub proof fn lemma_decimal_len(n: nat)
    ensures
        decimal(n).len() >= 1,
        n >= 10 ==> decimal(n).len() >= 2,
        n < 10 ==> decimal(n).len() == 1,
    decreases n,
{
    if n >= 10 {
        lemma_decimal_len(n / 10);
    }
}

/// Different numbers have different decimal texts.
pub proof fn lemma_decimal_injective(a: nat, b: nat)
    requires
        decimal(a) == decimal(b),
    ensures
        a == b,
    decreases a,
{
    lemma_decimal_len(a);
    lemma_decimal_len(b);
    if a < 10 && b < 10 {
        assert(decimal(a)[0] == digit(a));
        assert(decimal(b)[0] == digit(b));
    } else if a >= 10 && b >= 10 {
        assert(decimal(a).drop_last() =~= decimal(a / 10));
        assert(decimal(b).drop_last() =~= decimal(b / 10));
        assert(decimal(a).last() == digit(a % 10));
        assert(decimal(b).last() == digit(b % 10));
        lemma_decimal_injective(a / 10, b / 10);
    }
}

/// The id of the `n`-th token of a series: the series id, a colon, and `n` in
/// decimal.
pub open spec fn token_id_of(series_id: Seq<char>, n: nat) -> Seq<char> {
    series_id + seq![':'] + decimal(n)
}

/// A decimal text holds no colon.
pub proof fn lemma_decimal_has_no_colon(n: nat)
    ensures
        forall|i: int| 0 <= i < decimal(n).len() ==> decimal(n)[i] != ':',
    decreases n,
{
    if n >= 10 {
        lemma_decimal_has_no_colon(n / 10);
    }
    assert forall|i: int| 0 <= i < decimal(n).len() implies decimal(n)[i] != ':' by {
        if n < 10 {
            assert(decimal(n)[i] == digit(n));
        } else if i < decimal(n / 10).len() {
            assert(decimal(n)[i] == decimal(n / 10)[i]);
        } else {
            assert(decimal(n)[i] == digit(n % 10));
        }
    }
}

/// Token ids of different series, or with different numbers, differ, as long
/// as the series ids hold no colon.
pub proof fn lemma_token_id_injective(s1: Seq<char>, n1: nat, s2: Seq<char>, n2: nat)
    requires
        token_id_of(s1, n1) == token_id_of(s2, n2),
        forall|i: int| 0 <= i < s1.len() ==> s1[i] != ':',
        forall|i: int| 0 <= i < s2.len() ==> s2[i] != ':',
    ensures
        s1 == s2,
        n1 == n2,
{
    let a = token_id_of(s1, n1);
    let b = token_id_of(s2, n2);
    assert(a[s1.len() as int] == ':');
    assert(b[s2.len() as int] == ':');
    if s1.len() < s2.len() {
        assert(b[s1.len() as int] == s2[s1.len() as int]);
    } else if s2.len() < s1.len() {
        assert(a[s2.len() as int] == s1[s2.len() as int]);
    }
    assert forall|i: int| 0 <= i < s1.len() implies s1[i] == s2[i] by {
        assert(a[i] == s1[i]);
        assert(b[i] == s2[i]);
    }
    assert(s1 =~= s2);
    assert(a.len() == b.len());
    assert forall|i: int| 0 <= i < decimal(n1).len() implies decimal(n1)[i] == decimal(n2)[i] by {
        assert(a[s1.len() + 1 + i] == decimal(n1)[i]);
        assert(b[s2.len() + 1 + i] == decimal(n2)[i]);
    }
    assert(decimal(n1) =~= decimal(n2));
    lemma_decimal_injective(n1, n2);
}

fn digit_text(d: u128) -> (text: &'static str)
    requires
        d < 10,
    ensures
        text@ == seq![digit(d as nat)],
{
    proof {
        reveal_strlit("0");
        reveal_strlit("1");
        reveal_strlit("2");
        reveal_strlit("3");
        reveal_strlit("4");
        reveal_strlit("5");
        reveal_strlit("6");
        reveal_strlit("7");
        reveal_strlit("8");
        reveal_strlit("9");
    }
    let text = if d == 0 {
        "0"
    } else if d == 1 {
        "1"
    } else if d == 2 {
        "2"
    } else if d == 3 {
        "3"
    } else if d == 4 {
        "4"
    } else if d == 5 {
        "5"
    } else if d == 6 {
        "6"
    } else if d == 7 {
        "7"
    } else if d == 8 {
        "8"
    } else {
        "9"
    };
    assert(text@ =~= seq![digit(d as nat)]);
    text
}

/// Writes `n` in decimal.
pub fn decimal_text(n: u128) -> (text: String)
    ensures
        text@ == decimal(n as nat),
    decreases n,
{
    if n < 10 {
        String::from_str(digit_text(n))
    } else {
        let mut text = decimal_text(n / 10);
        text.append(digit_text(n % 10));
        assert(text@ =~= decimal(n as nat));
        text
    }
}

/// Builds the id of the `n`-th token of the series `series_id`.
pub fn derive_token_id(series_id: &String, n: u128) -> (token_id: String)
    ensures
        token_id@ == token_id_of(series_id@, n as nat),
{
    proof {
        reveal_strlit(":");
    }
    let mut token_id = series_id.clone();
    token_id.append(":");
    let number = decimal_text(n);
    token_id.append(number.as_str());
    assert(":"@ =~= seq![':']);
    token_id
}

} // verus!
