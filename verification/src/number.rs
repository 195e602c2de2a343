//! Forms in which numbers are written: Roman numerals and padded sort keys.

use vstd::prelude::*;
use vstd::string::StringExecFns;
use crate::numeric::{
    decimal,
    push_decimal,
    token_text,
    token_views,
    NumericModel,
    NumericToken,
    NumericValue,
    Token,
};

verus! {

/// The largest number that is written as a Roman numeral.
pub const ROMAN_MAX: u32 = 3999;

/// The width to which the numbers of a sort key are padded with zeros.
pub const SORT_WIDTH: usize = 8;

/// The character `c`, `times` times.
pub open spec fn repeat(c: char, times: nat) -> Seq<char> {
    Seq::new(times, |i: int| c)
}

/// The Roman numeral, in lower case, of one decimal digit at the place that
/// `one`, `five` and `ten` are the letters of: four and nine are written by
/// subtraction, the others as a five, if any, and ones.
pub open spec fn roman_digit(d: nat, one: char, five: char, ten: char) -> Seq<char> {
    if d == 4 {
        repeat(one, 1) + repeat(five, 1)
    } else if d == 9 {
        repeat(one, 1) + repeat(ten, 1)
    } else if d >= 5 {
        repeat(five, 1) + repeat(one, (d - 5) as nat)
    } else {
        repeat(one, d) + repeat(one, 0)
    }
}

/// The Roman numeral of `n` in lower case: its thousands, hundreds, tens and
/// units, each written with the letters of its place.
pub open spec fn roman(n: nat) -> Seq<char>
    recommends
        1 <= n <= ROMAN_MAX,
{
    roman_digit(n / 1000, 'm', 'm', 'm') + roman_digit((n / 100) % 10, 'c', 'd', 'm') + roman_digit(
        (n / 10) % 10,
        'x',
        'l',
        'c',
    ) + roman_digit(n % 10, 'i', 'v', 'x')
}

fn letter(c: char) -> (s: &'static str)
    requires
        c == 'i' || c == 'v' || c == 'x' || c == 'l' || c == 'c' || c == 'd' || c == 'm',
    ensures
        s@ == seq![c],
{
    let s = if c == 'i' {
        "i"
    } else if c == 'v' {
        "v"
    } else if c == 'x' {
        "x"
    } else if c == 'l' {
        "l"
    } else if c == 'c' {
        "c"
    } else if c == 'd' {
        "d"
    } else {
        "m"
    };
    proof {
        reveal_strlit("i");
        reveal_strlit("v");
        reveal_strlit("x");
        reveal_strlit("l");
        reveal_strlit("c");
        reveal_strlit("d");
        reveal_strlit("m");
        assert(s@ =~= seq![c]);
    }
    s
}

fn push_letters(out: &mut String, c: char, times: u32)
    requires
        c == 'i' || c == 'v' || c == 'x' || c == 'l' || c == 'c' || c == 'd' || c == 'm',
    ensures
        final(out)@ == old(out)@ + repeat(c, times as nat),
{
    let mut k: u32 = 0;
    assert(out@ =~= old(out)@ + repeat(c, 0));
    while k < times
        invariant
            k <= times,
            c == 'i' || c == 'v' || c == 'x' || c == 'l' || c == 'c' || c == 'd' || c == 'm',
            out@ == old(out)@ + repeat(c, k as nat),
        decreases times - k,
    {
        out.append(letter(c));
        k = k + 1;
        assert(out@ =~= old(out)@ + repeat(c, k as nat));
    }
}

fn push_two(out: &mut String, a: char, m: u32, b: char, n: u32)
    requires
        a == 'i' || a == 'v' || a == 'x' || a == 'l' || a == 'c' || a == 'd' || a == 'm',
        b == 'i' || b == 'v' || b == 'x' || b == 'l' || b == 'c' || b == 'd' || b == 'm',
    ensures
        final(out)@ == old(out)@ + (repeat(a, m as nat) + repeat(b, n as nat)),
{
    push_letters(out, a, m);
    push_letters(out, b, n);
    assert(out@ =~= old(out)@ + (repeat(a, m as nat) + repeat(b, n as nat)));
}

fn push_roman_digit(out: &mut String, d: u32, one: char, five: char, ten: char)
    requires
        d < 10,
        one == 'i' || one == 'x' || one == 'c' || one == 'm',
        five == 'v' || five == 'l' || five == 'd' || five == 'm',
        ten == 'x' || ten == 'c' || ten == 'm',
    ensures
        final(out)@ == old(out)@ + roman_digit(d as nat, one, five, ten),
{
    if d == 4 {
        push_two(out, one, 1, five, 1);
    } else if d == 9 {
        push_two(out, one, 1, ten, 1);
    } else if d >= 5 {
        push_two(out, five, 1, one, d - 5);
    } else {
        push_two(out, one, d, one, 0);
    }
}

/// Appends the Roman numeral of `n`, in lower case.
pub fn push_roman(out: &mut String, n: u32)
    requires
        n <= ROMAN_MAX,
    ensures
        final(out)@ == old(out)@ + roman(n as nat),
{
    push_roman_digit(out, n / 1000, 'm', 'm', 'm');
    push_roman_digit(out, (n / 100) % 10, 'c', 'd', 'm');
    push_roman_digit(out, (n / 10) % 10, 'x', 'l', 'c');
    push_roman_digit(out, n % 10, 'i', 'v', 'x');
    assert(out@ =~= old(out)@ + roman(n as nat));
}

/// Whether a token can stand in a value written in Roman numerals: a
/// separator, or a plain number from 1 to [`ROMAN_MAX`].
pub open spec fn token_roman_representable(t: Token) -> bool {
    match t {
        Token::Num(n) => 1 <= n <= ROMAN_MAX,
        Token::Affixed(_) => false,
        _ => true,
    }
}

/// Whether a value can be written in Roman numerals: it is numeric, and each
/// of its tokens can.
pub open spec fn spec_roman_representable(v: NumericModel) -> bool {
    v is Tokens && tokens_roman_representable(v->Tokens_0)
}

pub open spec fn tokens_roman_representable(ts: Seq<Token>) -> bool {
    forall|i: int| 0 <= i < ts.len() ==> token_roman_representable(#[trigger] ts[i])
}

fn token_is_roman_representable(t: &NumericToken) -> (b: bool)
    ensures
        b == token_roman_representable(t@),
{
    match t {
        NumericToken::Num(n) => 1 <= *n && *n <= ROMAN_MAX,
        NumericToken::Affixed(_) => false,
        _ => true,
    }
}

pub fn roman_representable(val: &NumericValue) -> (b: bool)
    ensures
        b == spec_roman_representable(val@),
{
    match val {
        NumericValue::Tokens(ts) => {
            let mut i: usize = 0;
            while i < ts.len()
                invariant
                    i <= ts@.len(),
                    val@ == NumericModel::Tokens(token_views(ts@)),
                    forall|j: int|
                        0 <= j < i ==> token_roman_representable(
                            #[trigger] token_views(ts@)[j],
                        ),
                decreases ts@.len() - i,
            {
                let ok = token_is_roman_representable(&ts[i]);
                if !ok {
                    assert(token_views(ts@)[i as int] == ts@[i as int]@);
                    assert(!token_roman_representable(token_views(ts@)[i as int]));
                    assert(!tokens_roman_representable(token_views(ts@)));
                    return false;
                }
                assert(token_views(ts@)[i as int] == ts@[i as int]@);
                i = i + 1;
            }
            true
        },
        NumericValue::Str(_) => false,
    }
}

/// The text of one token, numbers in Roman numerals.
pub open spec fn roman_token_text(t: Token) -> Seq<char> {
    match t {
        Token::Num(n) => roman(n as nat),
        _ => token_text(t),
    }
}

/// The text of a run of tokens, numbers in Roman numerals.
pub open spec fn spec_roman_lower(ts: Seq<Token>) -> Seq<char>
    decreases ts.len(),
{
    if ts.len() == 0 {
        Seq::empty()
    } else {
        spec_roman_lower(ts.drop_last()) + roman_token_text(ts.last())
    }
}

pub fn roman_lower(ts: &Vec<NumericToken>) -> (s: String)
    requires
        spec_roman_representable(NumericModel::Tokens(token_views(ts@))),
    ensures
        s@ == spec_roman_lower(token_views(ts@)),
{
    let mut s = String::new();
    let mut i: usize = 0;
    let ghost all = token_views(ts@);
    while i < ts.len()
        invariant
            i <= ts@.len(),
            all == token_views(ts@),
            forall|j: int| 0 <= j < all.len() ==> token_roman_representable(#[trigger] all[j]),
            s@ == spec_roman_lower(all.take(i as int)),
        decreases ts@.len() - i,
    {
        let ghost before = s@;
        proof {
            assert(all.take(i + 1).drop_last() =~= all.take(i as int));
            assert(all.take(i + 1).last() == ts@[i as int]@);
            assert(token_roman_representable(all[i as int]));
        }
        match &ts[i] {
            NumericToken::Num(n) => {
                push_roman(&mut s, *n);
            },
            NumericToken::Affixed(a) => {
                s.append(a.as_str());
            },
            NumericToken::Comma => {
                proof {
                    reveal_strlit(", ");
                }
                s.append(", ");
                assert(s@ =~= before + seq![',', ' ']);
            },
            NumericToken::Hyphen => {
                proof {
                    reveal_strlit("-");
                }
                s.append("-");
                assert(s@ =~= before + seq!['-']);
            },
            NumericToken::Ampersand => {
                proof {
                    reveal_strlit(" & ");
                }
                s.append(" & ");
                assert(s@ =~= before + seq![' ', '&', ' ']);
            },
        }
        i = i + 1;
    }
    assert(all.take(i as int) =~= all);
    s
}

/// The decimal digits of `n`, with zeros in front up to [`SORT_WIDTH`] digits.
pub open spec fn padded(n: nat) -> Seq<char> {
    let digits = decimal(n);
    if digits.len() < SORT_WIDTH {
        Seq::new((SORT_WIDTH - digits.len()) as nat, |i: int| '0') + digits
    } else {
        digits
    }
}

/// The sort key of a run of tokens.
///
/// Each number is padded, so that keys compare as text the way the numbers
/// compare. A comma goes before every token but the first of the key, also
/// before a token that adds nothing to it.
pub open spec fn spec_sort_string(ts: Seq<Token>) -> Seq<char>
    decreases ts.len(),
{
    if ts.len() == 0 {
        Seq::empty()
    } else {
        let before = spec_sort_string(ts.drop_last());
        let joined = if before.len() > 0 {
            before.push(',')
        } else {
            before
        };
        match ts.last() {
            Token::Num(n) => joined + padded(n as nat),
            _ => joined,
        }
    }
}

fn decimal_len(n: u32) -> (len: usize)
    ensures
        len == decimal(n as nat).len(),
        1 <= len <= 10,
    decreases n,
{
    if n < 10 {
        1
    } else {
        let rest = decimal_len(n / 10);
        proof {
            lemma_decimal_len_bound(n as nat);
        }
        rest + 1
    }
}

proof fn lemma_decimal_len_bound(n: nat)
    requires
        n <= u32::MAX,
    ensures
        decimal(n).len() <= 10,
{
    reveal_with_fuel(decimal, 11);
}

fn push_padded(out: &mut String, n: u32)
    ensures
        final(out)@ == old(out)@ + padded(n as nat),
{
    let len = decimal_len(n);
    let ghost zeros = 0nat;
    if len < SORT_WIDTH {
        let mut k: usize = 0;
        assert(out@ =~= old(out)@ + Seq::new(0, |i: int| '0'));
        while k < SORT_WIDTH - len
            invariant
                len < SORT_WIDTH,
                k <= SORT_WIDTH - len,
                out@ == old(out)@ + Seq::new(k as nat, |i: int| '0'),
            decreases SORT_WIDTH - len - k,
        {
            proof {
                reveal_strlit("0");
            }
            out.append("0");
            k = k + 1;
            assert(out@ =~= old(out)@ + Seq::new(k as nat, |i: int| '0'));
        }
    }
    push_decimal(out, n);
    assert(out@ =~= old(out)@ + padded(n as nat));
}

pub fn sort_string(ts: &Vec<NumericToken>) -> (s: String)
    ensures
        s@ == spec_sort_string(token_views(ts@)),
{
    let mut s = String::new();
    let mut i: usize = 0;
    let ghost all = token_views(ts@);
    while i < ts.len()
        invariant
            i <= ts@.len(),
            all == token_views(ts@),
            s@ == spec_sort_string(all.take(i as int)),
        decreases ts@.len() - i,
    {
        let ghost before = s@;
        proof {
            assert(all.take(i + 1).drop_last() =~= all.take(i as int));
            assert(all.take(i + 1).last() == ts@[i as int]@);
        }
        if !s.as_str().is_empty() {
            proof {
                reveal_strlit(",");
            }
            s.append(",");
            assert(s@ =~= before.push(','));
        }
        match &ts[i] {
            NumericToken::Num(n) => {
                push_padded(&mut s, *n);
            },
            _ => {},
        }
        i = i + 1;
    }
    assert(all.take(i as int) =~= all);
    s
}

} // verus!
