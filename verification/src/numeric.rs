//! Numeric values as they occur in locators and number variables.
//!
//! A value such as `"2-4, 5"` or `"2nd & 4th"` is a run of number-like words
//! joined by commas, hyphens and ampersands. [`NumericValue::from`] reads such
//! a string into tokens; anything else is kept verbatim as an opaque string.
//!
//! The grammar is stated once, as the specification function [`parse_tokens`],
//! and the executable reader is proved to compute exactly that function.

use vstd::prelude::*;
use vstd::std_specs::iter::IteratorSpec;
use vstd::string::StringExecFns;

verus! {

/// One token of a numeric value.
#[derive(Debug, PartialEq, Eq)]
pub enum NumericToken {
    /// A plain unsigned number.
    Num(u32),
    /// A word that holds digits and other characters, such as `2nd` or `[3]`.
    Affixed(String),
    Comma,
    Hyphen,
    Ampersand,
}

/// Either the tokens of a numeric string, or the raw string where it is not numeric.
#[derive(Debug, PartialEq, Eq)]
pub enum NumericValue {
    Tokens(Vec<NumericToken>),
    /// For values that could not be parsed.
    Str(String),
}

/// The mathematical value of a [`NumericToken`].
pub enum Token {
    Num(u32),
    Affixed(Seq<char>),
    Comma,
    Hyphen,
    Ampersand,
}

/// The mathematical value of a [`NumericValue`].
pub enum NumericModel {
    Tokens(Seq<Token>),
    Str(Seq<char>),
}

impl View for NumericToken {
    type V = Token;

    open spec fn view(&self) -> Token {
        match self {
            NumericToken::Num(n) => Token::Num(*n),
            NumericToken::Affixed(a) => Token::Affixed(a@),
            NumericToken::Comma => Token::Comma,
            NumericToken::Hyphen => Token::Hyphen,
            NumericToken::Ampersand => Token::Ampersand,
        }
    }
}

impl View for NumericValue {
    type V = NumericModel;

    open spec fn view(&self) -> NumericModel {
        match self {
            NumericValue::Tokens(ts) => NumericModel::Tokens(token_views(ts@)),
            NumericValue::Str(s) => NumericModel::Str(s@),
        }
    }
}

/// The values of a run of tokens, one for one.
pub open spec fn token_views(ts: Seq<NumericToken>) -> Seq<Token> {
    Seq::new(ts.len(), |i: int| ts[i]@)
}

// ---------------------------------------------------------------------------
// The grammar
// ---------------------------------------------------------------------------

pub open spec fn is_digit(c: char) -> bool {
    '0' <= c <= '9'
}

/// The three characters that separate the words of a numeric value.
pub open spec fn is_separator(c: char) -> bool {
    c == ',' || c == '-' || c == '&'
}

/// Whatever is neither a space nor a separator belongs to a word.
pub open spec fn is_word_char(c: char) -> bool {
    c != ' ' && !is_separator(c)
}

/// The length of the longest prefix of `s` made of word characters.
pub open spec fn word_len(s: Seq<char>) -> nat
    decreases s.len(),
{
    if s.len() > 0 && is_word_char(s[0]) {
        1 + word_len(s.skip(1))
    } else {
        0
    }
}

/// The number of spaces that `s` starts with.
pub open spec fn spaces_len(s: Seq<char>) -> nat
    decreases s.len(),
{
    if s.len() > 0 && s[0] == ' ' {
        1 + spaces_len(s.skip(1))
    } else {
        0
    }
}

pub proof fn lemma_word_len_bound(s: Seq<char>)
    ensures
        word_len(s) <= s.len(),
    decreases s.len(),
{
    if s.len() > 0 && is_word_char(s[0]) {
        lemma_word_len_bound(s.skip(1));
    }
}

pub proof fn lemma_spaces_len_bound(s: Seq<char>)
    ensures
        spaces_len(s) <= s.len(),
    decreases s.len(),
{
    if s.len() > 0 && s[0] == ' ' {
        lemma_spaces_len_bound(s.skip(1));
    }
}

pub open spec fn has_digit(w: Seq<char>) -> bool {
    exists|i: int| 0 <= i < w.len() && is_digit(#[trigger] w[i])
}

pub open spec fn all_digits(w: Seq<char>) -> bool {
    forall|i: int| 0 <= i < w.len() ==> is_digit(#[trigger] w[i])
}

pub open spec fn all_word_chars(w: Seq<char>) -> bool {
    forall|i: int| 0 <= i < w.len() ==> is_word_char(#[trigger] w[i])
}

pub open spec fn digit_value(c: char) -> nat {
    (c as u32 - '0' as u32) as nat
}

/// The number that a run of decimal digits denotes.
pub open spec fn digits_value(w: Seq<char>) -> nat
    decreases w.len(),
{
    if w.len() == 0 {
        0
    } else {
        digits_value(w.drop_last()) * 10 + digit_value(w.last())
    }
}

/// The token that one word stands for, if it is number-like.
///
/// A word of digits alone is a number, provided it fits in 32 bits. A word
/// that mixes digits with anything else is an affixed token. A word without a
/// digit is no token at all.
pub open spec fn word_token(w: Seq<char>) -> Option<Token> {
    if !has_digit(w) {
        None
    } else if all_digits(w) {
        if digits_value(w) <= u32::MAX {
            Some(Token::Num(digits_value(w) as u32))
        } else {
            None
        }
    } else {
        Some(Token::Affixed(w))
    }
}

pub open spec fn separator_token(c: char) -> Token {
    if c == ',' {
        Token::Comma
    } else if c == '-' {
        Token::Hyphen
    } else {
        Token::Ampersand
    }
}

/// Reads `(separator word)*` up to the end of `s`.
///
/// `None` where anything is left over that is not a separator, padded by
/// spaces or not, followed by a number-like word.
pub open spec fn parse_rest(s: Seq<char>) -> Option<Seq<Token>>
    decreases s.len(),
{
    if s.len() == 0 {
        Some(Seq::empty())
    } else {
        let a = s.skip(spaces_len(s) as int);
        if a.len() == 0 || !is_separator(a[0]) {
            None
        } else {
            let b = a.skip(1 + spaces_len(a.skip(1)) as int);
            let n = word_len(b) as int;
            match word_token(b.take(n)) {
                None => None,
                Some(t) => {
                    proof {
                        lemma_spaces_len_bound(s);
                        lemma_spaces_len_bound(a.skip(1));
                        lemma_word_len_bound(b);
                    }
                    match parse_rest(b.skip(n)) {
                        None => None,
                        Some(ts) => Some(seq![separator_token(a[0]), t] + ts),
                    }
                },
            }
        }
    }
}

/// The tokens of `s`, where the whole of `s` is `word (separator word)*`.
pub open spec fn parse_tokens(s: Seq<char>) -> Option<Seq<Token>> {
    let n = word_len(s) as int;
    match word_token(s.take(n)) {
        None => None,
        Some(t) => match parse_rest(s.skip(n)) {
            None => None,
            Some(ts) => Some(seq![t] + ts),
        },
    }
}

/// What a string is read as: its tokens, or else the string itself.
pub open spec fn parse(s: Seq<char>) -> NumericModel {
    match parse_tokens(s) {
        Some(ts) => NumericModel::Tokens(ts),
        None => NumericModel::Str(s),
    }
}

/// The tokens of the longest run of `(separator word)*` that `s` starts
/// with, and the number of characters of that run.
pub open spec fn many_rest(s: Seq<char>) -> (Seq<Token>, nat)
    decreases s.len(),
{
    let a = s.skip(spaces_len(s) as int);
    if s.len() == 0 || a.len() == 0 || !is_separator(a[0]) {
        (Seq::empty(), 0)
    } else {
        let b = a.skip(1 + spaces_len(a.skip(1)) as int);
        let n = word_len(b) as int;
        match word_token(b.take(n)) {
            None => (Seq::empty(), 0),
            Some(t) => {
                proof {
                    lemma_spaces_len_bound(s);
                    lemma_spaces_len_bound(a.skip(1));
                    lemma_word_len_bound(b);
                }
                let (ts, m) = many_rest(b.skip(n));
                (seq![separator_token(a[0]), t] + ts, (s.len() - b.len() + n + m) as nat)
            },
        }
    }
}

/// The tokens of the longest run of `word (separator word)*` that `s`
/// starts with, and the number of characters of that run; `None` where `s`
/// does not start with a number-like word.
pub open spec fn spec_num_tokens(s: Seq<char>) -> Option<(Seq<Token>, nat)> {
    let n = word_len(s);
    match word_token(s.take(n as int)) {
        None => None,
        Some(t) => {
            let (ts, m) = many_rest(s.skip(n as int));
            Some((seq![t] + ts, n + m))
        },
    }
}

/// The token that `s` starts with, and the number of its characters.
pub open spec fn spec_num_ish(s: Seq<char>) -> Option<(Token, nat)> {
    let n = word_len(s);
    match word_token(s.take(n as int)) {
        None => None,
        Some(t) => Some((t, n)),
    }
}

/// The separator that `s` starts with, spaces on either side included, and
/// the number of characters of all that.
pub open spec fn spec_sep(s: Seq<char>) -> Option<(Token, nat)> {
    let a = s.skip(spaces_len(s) as int);
    if a.len() == 0 || !is_separator(a[0]) {
        None
    } else {
        Some((separator_token(a[0]), spaces_len(s) + 1 + spaces_len(a.skip(1))))
    }
}

/// A run of `(separator word)*` is the whole of a string exactly where the
/// longest such run reaches its end.
pub proof fn lemma_parse_rest_is_many(s: Seq<char>)
    ensures
        many_rest(s).1 <= s.len(),
        parse_rest(s) == (if many_rest(s).1 == s.len() {
            Some(many_rest(s).0)
        } else {
            None
        }),
    decreases s.len(),
{
    if s.len() > 0 {
        let a = s.skip(spaces_len(s) as int);
        if a.len() > 0 && is_separator(a[0]) {
            let b = a.skip(1 + spaces_len(a.skip(1)) as int);
            let n = word_len(b) as int;
            lemma_spaces_len_bound(s);
            lemma_spaces_len_bound(a.skip(1));
            lemma_word_len_bound(b);
            if word_token(b.take(n)) is Some {
                lemma_parse_rest_is_many(b.skip(n));
            }
        }
    }
}

/// A string is numeric exactly where the longest run of tokens that it
/// starts with is the whole of it.
pub proof fn lemma_parse_is_prefix(s: Seq<char>)
    ensures
        parse_tokens(s) == (match spec_num_tokens(s) {
            Some((ts, consumed)) => if consumed == s.len() {
                Some(ts)
            } else {
                None
            },
            None => None,
        }),
        match spec_num_tokens(s) {
            Some((ts, consumed)) => consumed <= s.len(),
            None => true,
        },
{
    let n = word_len(s) as int;
    lemma_word_len_bound(s);
    lemma_parse_rest_is_many(s.skip(n));
}

// ---------------------------------------------------------------------------
// Rendering
// ---------------------------------------------------------------------------

pub open spec fn digit_char(d: nat) -> char
    recommends
        d < 10,
{
    if d == 0 {
        '0'
    } else if d == 1 {
        '1'
    } else if d == 2 {
        '2'
    } else if d == 3 {
        '3'
    } else if d == 4 {
        '4'
    } else if d == 5 {
        '5'
    } else if d == 6 {
        '6'
    } else if d == 7 {
        '7'
    } else if d == 8 {
        '8'
    } else {
        '9'
    }
}

/// The decimal digits of `n`, without leading zeros.
pub open spec fn decimal(n: nat) -> Seq<char>
    decreases n,
{
    if n < 10 {
        seq![digit_char(n)]
    } else {
        decimal(n / 10).push(digit_char(n % 10))
    }
}

/// The text that one token is written as.
pub open spec fn token_text(t: Token) -> Seq<char> {
    match t {
        Token::Num(n) => decimal(n as nat),
        Token::Affixed(a) => a,
        Token::Comma => seq![',', ' '],
        Token::Hyphen => seq!['-'],
        Token::Ampersand => seq![' ', '&', ' '],
    }
}

/// The text of a run of tokens: the texts of its tokens, one after another.
pub open spec fn render(ts: Seq<Token>) -> Seq<char>
    decreases ts.len(),
{
    if ts.len() == 0 {
        Seq::empty()
    } else {
        render(ts.drop_last()) + token_text(ts.last())
    }
}

impl NumericModel {
    pub open spec fn is_numeric(self) -> bool {
        self is Tokens
    }

    pub open spec fn is_multiple(self) -> bool {
        match self {
            NumericModel::Tokens(ts) => ts.len() > 1,
            NumericModel::Str(_) => false,
        }
    }

    /// The number that the value starts with, if it starts with one.
    pub open spec fn first_num(self) -> Option<u32> {
        match self {
            NumericModel::Tokens(ts) => if ts.len() > 0 && ts[0] is Num {
                Some(ts[0]->Num_0)
            } else {
                None
            },
            NumericModel::Str(_) => None,
        }
    }

    pub open spec fn page_first(self) -> Option<NumericModel> {
        match self.first_num() {
            Some(n) => Some(NumericModel::Tokens(seq![Token::Num(n)])),
            None => None,
        }
    }

    pub open spec fn text(self) -> Seq<char> {
        match self {
            NumericModel::Tokens(ts) => render(ts),
            NumericModel::Str(s) => s,
        }
    }

    /// What every value read from a string satisfies: tokens are never empty,
    /// words and separators alternate, and an affixed word is a word of the
    /// grammar.
    pub open spec fn well_formed(self) -> bool {
        match self {
            NumericModel::Tokens(ts) => well_formed_tokens(ts),
            NumericModel::Str(_) => true,
        }
    }
}

pub open spec fn is_word_token(t: Token) -> bool {
    match t {
        Token::Num(_) => true,
        Token::Affixed(w) => all_word_chars(w) && has_digit(w) && !all_digits(w),
        _ => false,
    }
}

pub open spec fn is_separator_token(t: Token) -> bool {
    t is Comma || t is Hyphen || t is Ampersand
}

/// A word, then any number of separator and word.
pub open spec fn well_formed_tokens(ts: Seq<Token>) -> bool {
    &&& ts.len() % 2 == 1
    &&& forall|i: int| 0 <= i < ts.len() && i % 2 == 0 ==> is_word_token(#[trigger] ts[i])
    &&& forall|i: int| 0 <= i < ts.len() && i % 2 == 1 ==> is_separator_token(#[trigger] ts[i])
}


// ---------------------------------------------------------------------------
// Reading
// ---------------------------------------------------------------------------

/// The characters of `s`, in order.
pub fn chars_of(s: &str) -> (v: Vec<char>)
    ensures
        v@ == s@,
{
    broadcast use vstd::string::group_string_axioms;

    let mut v: Vec<char> = Vec::new();
    let mut it = s.chars();
    loop
        invariant
            it.obeys_prophetic_iter_laws(),
            it.decrease() is Some,
            v@ + it.remaining() == s@,
        decreases it.decrease()->0,
    {
        let ghost before = it.remaining();
        match it.next() {
            Some(c) => {
                v.push(c);
                assert(v@ + it.remaining() =~= s@) by {
                    assert(before =~= seq![before[0]] + before.drop_first());
                }
            },
            None => {
                assert(v@ + it.remaining() =~= v@);
                return v;
            },
        }
    }
}

fn is_word_character(c: char) -> (b: bool)
    ensures
        b == is_word_char(c),
{
    c != ' ' && c != ',' && c != '-' && c != '&'
}

/// The end of the word that starts at `from`.
fn scan_word(chars: &Vec<char>, from: usize) -> (end: usize)
    requires
        from <= chars@.len(),
    ensures
        from <= end <= chars@.len(),
        end - from == word_len(chars@.skip(from as int)),
        all_word_chars(chars@.subrange(from as int, end as int)),
{
    let mut end = from;
    while end < chars.len() && is_word_character(chars[end])
        invariant
            from <= end <= chars@.len(),
            word_len(chars@.skip(from as int)) == (end - from) + word_len(chars@.skip(end as int)),
            all_word_chars(chars@.subrange(from as int, end as int)),
        decreases chars@.len() - end,
    {
        assert(chars@.skip(end as int).skip(1) =~= chars@.skip(end as int + 1));
        end = end + 1;
    }
    end
}

/// The end of the spaces that start at `from`.
fn scan_spaces(chars: &Vec<char>, from: usize) -> (end: usize)
    requires
        from <= chars@.len(),
    ensures
        from <= end <= chars@.len(),
        end - from == spaces_len(chars@.skip(from as int)),
{
    let mut end = from;
    while end < chars.len() && chars[end] == ' '
        invariant
            from <= end <= chars@.len(),
            spaces_len(chars@.skip(from as int)) == (end - from) + spaces_len(chars@.skip(end as int)),
        decreases chars@.len() - end,
    {
        assert(chars@.skip(end as int).skip(1) =~= chars@.skip(end as int + 1));
        end = end + 1;
    }
    end
}

/// The token that the word `chars[from..end]` of `input` stands for.
fn read_word(input: &str, chars: &Vec<char>, from: usize, end: usize) -> (r: Option<NumericToken>)
    requires
        chars@ == input@,
        from <= end <= chars@.len(),
    ensures
        match r {
            Some(t) => word_token(chars@.subrange(from as int, end as int)) == Some(t@),
            None => word_token(chars@.subrange(from as int, end as int)) is None,
        },
{
    let ghost w = chars@.subrange(from as int, end as int);
    let mut seen_digit = false;
    let mut seen_other = false;
    let mut value: u64 = 0;
    let mut too_large = false;
    let mut i = from;
    while i < end
        invariant
            from <= i <= end <= chars@.len(),
            w == chars@.subrange(from as int, end as int),
            seen_digit == has_digit(w.take(i - from)),
            seen_other == !all_digits(w.take(i - from)),
            !seen_other && !too_large ==> value == digits_value(w.take(i - from)) && value <= u32::MAX,
            !seen_other && too_large ==> digits_value(w.take(i - from)) > u32::MAX,
        decreases end - i,
    {
        let c = chars[i];
        let ghost before = w.take(i - from);
        let ghost after = w.take(i - from + 1);
        proof {
            assert(after.drop_last() =~= before);
            assert(after.last() == c);
            assert(forall|j: int| 0 <= j < before.len() ==> before[j] == after[j]);
        }
        if c >= '0' && c <= '9' {
            proof {
                assert(is_digit(after[i - from]));
                if all_digits(before) {
                    assert forall|j: int| 0 <= j < after.len() implies is_digit(#[trigger] after[j]) by {
                        if j < before.len() {
                            assert(is_digit(before[j]));
                        }
                    }
                } else {
                    let j = choose|j: int| 0 <= j < before.len() && !is_digit(#[trigger] before[j]);
                    assert(!is_digit(after[j]));
                }
            }
            seen_digit = true;
            if !seen_other && !too_large {
                let d: u64 = (c as u32 - '0' as u32) as u64;
                value = value * 10 + d;
                if value > 0xffff_ffff {
                    too_large = true;
                }
            }
        } else {
            proof {
                assert(!is_digit(after[i - from]));
                if has_digit(before) {
                    let j = choose|j: int| 0 <= j < before.len() && is_digit(#[trigger] before[j]);
                    assert(is_digit(after[j]));
                } else {
                    assert forall|j: int| 0 <= j < after.len() implies !is_digit(#[trigger] after[j]) by {
                        if j < before.len() {
                            assert(!is_digit(before[j]));
                        }
                    }
                }
            }
            seen_other = true;
        }
        i = i + 1;
    }
    assert(w.take(end - from) =~= w);
    if !seen_digit {
        None
    } else if seen_other {
        let word = String::from_str(input.substring_char(from, end));
        Some(NumericToken::Affixed(word))
    } else if too_large {
        None
    } else {
        Some(NumericToken::Num(value as u32))
    }
}

/// The longest run of tokens that `input` starts with, and where it ends.
fn read_prefix(input: &str, chars: &Vec<char>) -> (r: Option<(Vec<NumericToken>, usize)>)
    requires
        chars@ == input@,
    ensures
        match r {
            Some((ts, consumed)) => spec_num_tokens(input@) == Some(
                (token_views(ts@), consumed as nat),
            ) && consumed <= input@.len(),
            None => spec_num_tokens(input@) is None,
        },
{
    let ghost s = chars@;
    let n = chars.len();
    let first_end = scan_word(chars, 0);
    proof {
        assert(s.skip(0) =~= s);
        assert(s.take(first_end as int) =~= s.subrange(0, first_end as int));
    }
    let first = match read_word(input, chars, 0, first_end) {
        Some(t) => t,
        None => {
            return None;
        },
    };
    let mut tokens: Vec<NumericToken> = Vec::new();
    tokens.push(first);
    assert(token_views(tokens@) =~= seq![first@]);
    let mut pos = first_end;
    let mut done = false;
    while !done
        invariant
            s == chars@,
            s == input@,
            n == s.len(),
            pos <= n,
            tokens@.len() > 0,
            !done ==> spec_num_tokens(s) == Some(
                (
                    token_views(tokens@) + many_rest(s.skip(pos as int)).0,
                    (pos + many_rest(s.skip(pos as int)).1) as nat,
                ),
            ),
            done ==> spec_num_tokens(s) == Some((token_views(tokens@), pos as nat)),
        decreases n - pos, (if done { 0nat } else { 1nat }),
    {
        let ghost rest = s.skip(pos as int);
        let ghost before = token_views(tokens@);
        proof {
            assert(before + Seq::<Token>::empty() =~= before);
        }
        if pos >= n {
            assert(rest.len() == 0);
            done = true;
        } else {
            let sep_at = scan_spaces(chars, pos);
            let ghost a = rest.skip(spaces_len(rest) as int);
            assert(a =~= s.skip(sep_at as int));
            let separator = if sep_at >= n {
                None
            } else {
                let c = chars[sep_at];
                assert(a[0] == c);
                if c == ',' {
                    Some(NumericToken::Comma)
                } else if c == '-' {
                    Some(NumericToken::Hyphen)
                } else if c == '&' {
                    Some(NumericToken::Ampersand)
                } else {
                    None
                }
            };
            match separator {
                None => {
                    done = true;
                },
                Some(separator) => {
                    assert(separator@ == separator_token(a[0]));
                    let word_at = scan_spaces(chars, sep_at + 1);
                    let word_end = scan_word(chars, word_at);
                    let ghost b = a.skip(1 + spaces_len(a.skip(1)) as int);
                    proof {
                        assert(a.skip(1) =~= s.skip(sep_at as int + 1));
                        assert(b =~= s.skip(word_at as int));
                        assert(b.take(word_len(b) as int) =~= s.subrange(
                            word_at as int,
                            word_end as int,
                        ));
                        assert(b.skip(word_len(b) as int) =~= s.skip(word_end as int));
                    }
                    match read_word(input, chars, word_at, word_end) {
                        None => {
                            done = true;
                        },
                        Some(t) => {
                            tokens.push(separator);
                            tokens.push(t);
                            proof {
                                assert(token_views(tokens@) =~= before + seq![separator@, t@]);
                                let (ts, m) = many_rest(s.skip(word_end as int));
                                assert(before + (seq![separator@, t@] + ts) =~= (before + seq![
                                    separator@,
                                    t@,
                                ]) + ts);
                            }
                            pos = word_end;
                        },
                    }
                },
            }
        }
    }
    Some((tokens, pos))
}

/// The tokens of `input`, where it is numeric.
fn read_tokens(input: &str) -> (r: Option<Vec<NumericToken>>)
    ensures
        match r {
            Some(ts) => parse_tokens(input@) == Some(token_views(ts@)),
            None => parse_tokens(input@) is None,
        },
{
    let chars = chars_of(input);
    proof {
        lemma_parse_is_prefix(input@);
    }
    match read_prefix(input, &chars) {
        Some((ts, consumed)) => {
            if consumed == chars.len() {
                Some(ts)
            } else {
                None
            }
        },
        None => None,
    }
}

/// Reads as many tokens as `input` starts with.
///
/// Gives what is left of `input`, and the tokens. `None` where `input` does
/// not start with a number-like word.
pub fn num_tokens(input: &str) -> (r: Option<(String, Vec<NumericToken>)>)
    ensures
        match r {
            Some((rest, ts)) => match spec_num_tokens(input@) {
                Some((tokens, consumed)) => token_views(ts@) == tokens && rest@ == input@.skip(
                    consumed as int,
                ),
                None => false,
            },
            None => spec_num_tokens(input@) is None,
        },
{
    let chars = chars_of(input);
    match read_prefix(input, &chars) {
        Some((ts, consumed)) => {
            let rest = String::from_str(input.substring_char(consumed, chars.len()));
            assert(rest@ =~= input@.skip(consumed as int));
            Some((rest, ts))
        },
        None => None,
    }
}

/// Reads the number-like word that `input` starts with: what is left of
/// `input`, and the token of the word.
pub fn num_ish(input: &str) -> (r: Option<(String, NumericToken)>)
    ensures
        match r {
            Some((rest, t)) => match spec_num_ish(input@) {
                Some((token, consumed)) => t@ == token && rest@ == input@.skip(consumed as int),
                None => false,
            },
            None => spec_num_ish(input@) is None,
        },
{
    let chars = chars_of(input);
    let end = scan_word(&chars, 0);
    proof {
        assert(chars@.skip(0) =~= chars@);
        assert(chars@.take(end as int) =~= chars@.subrange(0, end as int));
    }
    match read_word(input, &chars, 0, end) {
        Some(t) => {
            let rest = String::from_str(input.substring_char(end, chars.len()));
            assert(rest@ =~= input@.skip(end as int));
            Some((rest, t))
        },
        None => None,
    }
}

/// Reads the separator that `input` starts with, with the spaces on either
/// side of it: what is left of `input`, and the token of the separator.
pub fn sep(input: &str) -> (r: Option<(String, NumericToken)>)
    ensures
        match r {
            Some((rest, t)) => match spec_sep(input@) {
                Some((token, consumed)) => t@ == token && rest@ == input@.skip(consumed as int),
                None => false,
            },
            None => spec_sep(input@) is None,
        },
{
    let chars = chars_of(input);
    let n = chars.len();
    let ghost s = chars@;
    assert(s.skip(0) =~= s);
    let sep_at = scan_spaces(&chars, 0);
    let ghost a = s.skip(spaces_len(s) as int);
    if sep_at >= n {
        return None;
    }
    let c = chars[sep_at];
    assert(a[0] == c);
    let token = if c == ',' {
        NumericToken::Comma
    } else if c == '-' {
        NumericToken::Hyphen
    } else if c == '&' {
        NumericToken::Ampersand
    } else {
        return None;
    };
    let end = scan_spaces(&chars, sep_at + 1);
    assert(a.skip(1) =~= s.skip(sep_at as int + 1));
    let rest = String::from_str(input.substring_char(end, n));
    assert(rest@ =~= input@.skip(end as int));
    Some((rest, token))
}

// ---------------------------------------------------------------------------
// Writing
// ---------------------------------------------------------------------------

fn digit_str(d: u32) -> (s: &'static str)
    requires
        d < 10,
    ensures
        s@ == seq![digit_char(d as nat)],
{
    let s = if d == 0 {
        "0"
    } else if d == 1 {
        "1"
    } else if d == 2 {
        "2"
    } else if d == 3 {
        "3"
    } else if d == 4 {
        "4"
    } else if d == 5 {
        "5"
    } else if d == 6 {
        "6"
    } else if d == 7 {
        "7"
    } else if d == 8 {
        "8"
    } else {
        "9"
    };
    proof {
        reveal_strlit("0");
        reveal_strlit("1");
        reveal_strlit("2");
        reveal_strlit("3");
        reveal_strlit("4");
        reveal_strlit("5");
        reveal_strlit("6");
        reveal_strlit("7");
        reveal_strlit("8");
        reveal_strlit("9");
        assert(s@ =~= seq![digit_char(d as nat)]);
    }
    s
}

/// Appends the decimal digits of `n` to `out`.
pub fn push_decimal(out: &mut String, n: u32)
    ensures
        final(out)@ == old(out)@ + decimal(n as nat),
    decreases n,
{
    if n >= 10 {
        push_decimal(out, n / 10);
    }
    out.append(digit_str(n % 10));
    proof {
        if n >= 10 {
            assert(final(out)@ =~= old(out)@ + decimal(n as nat));
        } else {
            assert(final(out)@ =~= old(out)@ + decimal(n as nat));
        }
    }
}

fn tokens_to_string(ts: &Vec<NumericToken>) -> (s: String)
    ensures
        s@ == render(token_views(ts@)),
{
    let mut s = String::new();
    let mut i: usize = 0;
    let ghost all = token_views(ts@);
    while i < ts.len()
        invariant
            i <= ts@.len(),
            all == token_views(ts@),
            s@ == render(all.take(i as int)),
        decreases ts@.len() - i,
    {
        let ghost before = s@;
        proof {
            assert(all.take(i + 1).drop_last() =~= all.take(i as int));
            assert(all.take(i + 1).last() == ts@[i as int]@);
        }
        match &ts[i] {
            NumericToken::Num(n) => {
                push_decimal(&mut s, *n);
            },
            NumericToken::Affixed(a) => {
                s.append(a.as_str());
            },
            NumericToken::Comma => {
                proof {
                    reveal_strlit(", ");
                }
                s.append(", ");
                assert(s@ =~= before + seq![',', ' ']);
            },
            NumericToken::Hyphen => {
                proof {
                    reveal_strlit("-");
                }
                s.append("-");
                assert(s@ =~= before + seq!['-']);
            },
            NumericToken::Ampersand => {
                proof {
                    reveal_strlit(" & ");
                }
                s.append(" & ");
                assert(s@ =~= before + seq![' ', '&', ' ']);
            },
        }
        i = i + 1;
    }
    assert(all.take(i as int) =~= all);
    s
}

impl Clone for NumericToken {
    fn clone(&self) -> (r: Self)
        ensures
            r@ == self@,
    {
        match self {
            NumericToken::Num(n) => NumericToken::Num(*n),
            NumericToken::Affixed(a) => NumericToken::Affixed(a.clone()),
            NumericToken::Comma => NumericToken::Comma,
            NumericToken::Hyphen => NumericToken::Hyphen,
            NumericToken::Ampersand => NumericToken::Ampersand,
        }
    }
}

impl Clone for NumericValue {
    fn clone(&self) -> (r: Self)
        ensures
            r@ == self@,
    {
        match self {
            NumericValue::Tokens(ts) => {
                let mut copy: Vec<NumericToken> = Vec::new();
                let mut i: usize = 0;
                while i < ts.len()
                    invariant
                        i <= ts@.len(),
                        copy@.len() == i,
                        forall|j: int| 0 <= j < i ==> (#[trigger] copy@[j])@ == ts@[j]@,
                    decreases ts@.len() - i,
                {
                    copy.push(ts[i].clone());
                    i = i + 1;
                }
                assert(token_views(copy@) =~= token_views(ts@));
                NumericValue::Tokens(copy)
            },
            NumericValue::Str(s) => NumericValue::Str(s.clone()),
        }
    }
}

impl NumericToken {
    fn get_num(&self) -> (r: Option<u32>)
        ensures
            r == (if self@ is Num {
                Some(self@->Num_0)
            } else {
                None
            }),
    {
        match self {
            NumericToken::Num(u) => Some(*u),
            _ => None,
        }
    }
}

impl NumericValue {
    /// The value of one plain number.
    pub fn num(i: u32) -> (v: NumericValue)
        ensures
            v@ == NumericModel::Tokens(seq![Token::Num(i)]),
            v@.well_formed(),
    {
        let mut ts: Vec<NumericToken> = Vec::new();
        ts.push(NumericToken::Num(i));
        assert(token_views(ts@) =~= seq![Token::Num(i)]);
        NumericValue::Tokens(ts)
    }

    /// Reads a string: its tokens where the whole string is numeric, the
    /// string itself where it is not.
    pub fn from(input: &str) -> (v: NumericValue)
        ensures
            v@ == parse(input@),
            v@.well_formed(),
    {
        proof {
            lemma_parse_well_formed(input@);
        }
        match read_tokens(input) {
            Some(ts) => NumericValue::Tokens(ts),
            None => NumericValue::Str(String::from_str(input)),
        }
    }

    /// The first number of a page range, as a value of its own.
    pub fn page_first(&self) -> (r: Option<NumericValue>)
        ensures
            match r {
                Some(v) => self@.page_first() == Some(v@),
                None => self@.page_first() is None,
            },
    {
        match self.first_num() {
            Some(n) => Some(NumericValue::num(n)),
            None => None,
        }
    }

    fn first_num(&self) -> (r: Option<u32>)
        ensures
            r == self@.first_num(),
    {
        match self {
            NumericValue::Tokens(ts) => {
                if ts.len() > 0 {
                    ts[0].get_num()
                } else {
                    None
                }
            },
            NumericValue::Str(_) => None,
        }
    }

    /// Whether the string that this value was read from is numeric.
    pub fn is_numeric(&self) -> (b: bool)
        ensures
            b == self@.is_numeric(),
    {
        match self {
            NumericValue::Tokens(_) => true,
            NumericValue::Str(_) => false,
        }
    }

    /// Whether the value holds more than one token.
    ///
    /// A string that is not numeric never counts as multiple, whatever it holds.
    pub fn is_multiple(&self) -> (b: bool)
        ensures
            b == self@.is_multiple(),
    {
        match self {
            NumericValue::Tokens(ts) => ts.len() > 1,
            NumericValue::Str(_) => false,
        }
    }

    /// The text of the value: numbers in decimal, separators as `", "`, `"-"`
    /// and `" & "`; a string that is not numeric as it is.
    pub fn to_string(&self) -> (s: String)
        ensures
            s@ == self@.text(),
    {
        match self {
            NumericValue::Tokens(ts) => tokens_to_string(ts),
            NumericValue::Str(s) => s.clone(),
        }
    }
}

// ---------------------------------------------------------------------------
// Laws
// ---------------------------------------------------------------------------

/// The longest word that a string starts with is made of word characters.
pub proof fn lemma_word_prefix(s: Seq<char>)
    ensures
        word_len(s) <= s.len(),
        all_word_chars(s.take(word_len(s) as int)),
        word_len(s) < s.len() ==> !is_word_char(s[word_len(s) as int]),
    decreases s.len(),
{
    if s.len() > 0 && is_word_char(s[0]) {
        lemma_word_prefix(s.skip(1));
        let n = word_len(s) as int;
        let w = s.take(n);
        assert forall|i: int| 0 <= i < w.len() implies is_word_char(#[trigger] w[i]) by {
            if i > 0 {
                assert(w[i] == s.skip(1).take(n - 1)[i - 1]);
            }
        }
    }
}

/// A word of word characters, followed by none, is read whole.
pub proof fn lemma_word_len_exact(w: Seq<char>, r: Seq<char>)
    requires
        all_word_chars(w),
        r.len() == 0 || !is_word_char(r[0]),
    ensures
        word_len(w + r) == w.len(),
    decreases w.len(),
{
    if w.len() == 0 {
        assert(w + r =~= r);
    } else {
        assert(is_word_char(w[0]));
        assert((w + r).skip(1) =~= w.skip(1) + r);
        assert forall|i: int| 0 <= i < w.skip(1).len() implies is_word_char(
            #[trigger] w.skip(1)[i],
        ) by {
            assert(w.skip(1)[i] == w[i + 1]);
        }
        lemma_word_len_exact(w.skip(1), r);
    }
}

/// A number-like word of word characters gives a word token.
pub proof fn lemma_word_token_well_formed(w: Seq<char>)
    requires
        all_word_chars(w),
    ensures
        match word_token(w) {
            Some(t) => is_word_token(t),
            None => true,
        },
{
}

proof fn lemma_parse_rest_well_formed(s: Seq<char>)
    ensures
        match parse_rest(s) {
            Some(ts) => {
                &&& ts.len() % 2 == 0
                &&& forall|i: int| 0 <= i < ts.len() && i % 2 == 1 ==> is_word_token(#[trigger] ts[i])
                &&& forall|i: int|
                    0 <= i < ts.len() && i % 2 == 0 ==> is_separator_token(#[trigger] ts[i])
            },
            None => true,
        },
    decreases s.len(),
{
    if s.len() > 0 {
        let a = s.skip(spaces_len(s) as int);
        if a.len() > 0 && is_separator(a[0]) {
            let b = a.skip(1 + spaces_len(a.skip(1)) as int);
            let n = word_len(b) as int;
            lemma_spaces_len_bound(s);
            lemma_spaces_len_bound(a.skip(1));
            lemma_word_prefix(b);
            lemma_word_token_well_formed(b.take(n));
            lemma_parse_rest_well_formed(b.skip(n));
        }
    }
}

/// Whatever is read from a string is well formed.
pub proof fn lemma_parse_well_formed(s: Seq<char>)
    ensures
        parse(s).well_formed(),
{
    let n = word_len(s) as int;
    lemma_word_prefix(s);
    lemma_word_token_well_formed(s.take(n));
    lemma_parse_rest_well_formed(s.skip(n));
}

proof fn lemma_digit_char(d: nat)
    requires
        d < 10,
    ensures
        is_digit(digit_char(d)),
        digit_value(digit_char(d)) == d,
{
}

/// The decimal digits of a number are digits, and denote that number.
pub proof fn lemma_decimal(n: nat)
    ensures
        decimal(n).len() >= 1,
        all_digits(decimal(n)),
        digits_value(decimal(n)) == n,
    decreases n,
{
    if n < 10 {
        lemma_digit_char(n);
        let w = decimal(n);
        assert(w.drop_last() =~= Seq::<char>::empty());
        assert(digits_value(w.drop_last()) == 0);
    } else {
        lemma_decimal(n / 10);
        lemma_digit_char(n % 10);
        let w = decimal(n);
        assert(w.drop_last() =~= decimal(n / 10));
        assert forall|i: int| 0 <= i < w.len() implies is_digit(#[trigger] w[i]) by {
            if i < w.len() - 1 {
                assert(w[i] == decimal(n / 10)[i]);
            }
        }
    }
}

/// The text of a run of tokens, taken from the front.
pub proof fn lemma_render_front(t: Token, ts: Seq<Token>)
    ensures
        render(seq![t] + ts) == token_text(t) + render(ts),
    decreases ts.len(),
{
    let all = seq![t] + ts;
    if ts.len() == 0 {
        assert(all.drop_last() =~= Seq::<Token>::empty());
        assert(all.last() == t);
        assert(render(all.drop_last()) =~= Seq::<char>::empty());
        assert(render(ts) =~= Seq::<char>::empty());
        assert(render(all) =~= token_text(t) + render(ts));
    } else {
        assert(all.drop_last() =~= seq![t] + ts.drop_last());
        assert(all.last() == ts.last());
        lemma_render_front(t, ts.drop_last());
        assert(render(all) =~= token_text(t) + render(ts));
    }
}

/// The text of a word token is a word of the grammar that reads as that token.
proof fn lemma_word_text(t: Token)
    requires
        is_word_token(t),
    ensures
        token_text(t).len() >= 1,
        all_word_chars(token_text(t)),
        word_token(token_text(t)) == Some(t),
{
    match t {
        Token::Num(n) => {
            lemma_decimal(n as nat);
            let w = decimal(n as nat);
            assert(is_digit(w[0]));
            assert forall|i: int| 0 <= i < w.len() implies is_word_char(#[trigger] w[i]) by {
                assert(is_digit(w[i]));
            }
        },
        Token::Affixed(w) => {},
        _ => {},
    }
}

/// What follows a word in a text never continues the word.
proof fn lemma_render_tail_start(ts: Seq<Token>)
    requires
        ts.len() % 2 == 0,
        forall|i: int| 0 <= i < ts.len() && i % 2 == 0 ==> is_separator_token(#[trigger] ts[i]),
    ensures
        render(ts).len() == 0 || !is_word_char(render(ts)[0]),
{
    if ts.len() > 0 {
        let rest = ts.skip(1);
        assert(ts =~= seq![ts[0]] + rest);
        lemma_render_front(ts[0], rest);
        assert(is_separator_token(ts[0]));
    }
}

/// A separator as it is written, before a word, is read as that separator,
/// and what follows it and its spaces is the word.
proof fn lemma_separator_read(sep: Token, b: Seq<char>)
    requires
        is_separator_token(sep),
        b.len() > 0,
        is_word_char(b[0]),
    ensures
        ({
            let s = token_text(sep) + b;
            let a = s.skip(spaces_len(s) as int);
            &&& s.len() > 0
            &&& a.len() > 0
            &&& is_separator(a[0])
            &&& separator_token(a[0]) == sep
            &&& a.skip(1 + spaces_len(a.skip(1)) as int) == b
        }),
{
    let s = token_text(sep) + b;
    assert(spaces_len(b) == 0);
    match sep {
        Token::Comma => {
            assert(s[0] == ',');
            assert(spaces_len(s) == 0);
            assert(s.skip(0) =~= s);
            let a = s;
            assert(a.skip(1) =~= seq![' '] + b);
            assert(a.skip(1).skip(1) =~= b);
            assert(spaces_len(a.skip(1)) == 1);
            assert(a.skip(2) =~= b);
        },
        Token::Hyphen => {
            assert(s[0] == '-');
            assert(spaces_len(s) == 0);
            assert(s.skip(0) =~= s);
            let a = s;
            assert(a.skip(1) =~= b);
            assert(spaces_len(a.skip(1)) == 0);
        },
        Token::Ampersand => {
            assert(s[0] == ' ');
            assert(s.skip(1) =~= seq!['&', ' '] + b);
            assert(s.skip(1)[0] == '&');
            assert(spaces_len(s.skip(1)) == 0);
            assert(spaces_len(s) == 1);
            let a = s.skip(1);
            assert(a.skip(1) =~= seq![' '] + b);
            assert(a.skip(1).skip(1) =~= b);
            assert(spaces_len(a.skip(1)) == 1);
            assert(a.skip(2) =~= b);
        },
        _ => {},
    }
}

/// The tail of a well-formed run of tokens is itself a run of separator and word.
proof fn lemma_tail_alternates(ts: Seq<Token>, k: int)
    requires
        k == 1 || k == 2,
        ts.len() >= k,
        forall|i: int| 0 <= i < ts.len() && i % 2 == k % 2 ==> is_separator_token(#[trigger] ts[i]),
        forall|i: int| 0 <= i < ts.len() && i % 2 != k % 2 ==> is_word_token(#[trigger] ts[i]),
    ensures
        forall|i: int|
            0 <= i < ts.skip(k).len() && i % 2 == 1 ==> is_word_token(#[trigger] ts.skip(k)[i]),
        forall|i: int|
            0 <= i < ts.skip(k).len() && i % 2 == 0 ==> is_separator_token(
                #[trigger] ts.skip(k)[i],
            ),
{
    let tail = ts.skip(k);
    assert forall|i: int| 0 <= i < tail.len() && i % 2 == 1 implies is_word_token(
        #[trigger] tail[i],
    ) by {
        assert(tail[i] == ts[i + k]);
    }
    assert forall|i: int| 0 <= i < tail.len() && i % 2 == 0 implies is_separator_token(
        #[trigger] tail[i],
    ) by {
        assert(tail[i] == ts[i + k]);
    }
}

proof fn lemma_round_trip_rest(ts: Seq<Token>)
    requires
        ts.len() % 2 == 0,
        forall|i: int| 0 <= i < ts.len() && i % 2 == 1 ==> is_word_token(#[trigger] ts[i]),
        forall|i: int| 0 <= i < ts.len() && i % 2 == 0 ==> is_separator_token(#[trigger] ts[i]),
    ensures
        parse_rest(render(ts)) == Some(ts),
    decreases ts.len(),
{
    if ts.len() == 0 {
        assert(render(ts) =~= Seq::<char>::empty());
        assert(ts =~= Seq::<Token>::empty());
    } else {
        let sep = ts[0];
        let word = ts[1];
        let tail = ts.skip(2);
        let word_text = token_text(word);
        let tail_text = render(tail);
        let s = render(ts);
        assert(is_separator_token(sep));
        assert(is_word_token(word));
        assert(ts =~= seq![sep] + (seq![word] + tail));
        lemma_render_front(sep, seq![word] + tail);
        lemma_render_front(word, tail);
        let b = word_text + tail_text;
        assert(s == token_text(sep) + b);
        lemma_word_text(word);
        lemma_tail_alternates(ts, 2);
        lemma_render_tail_start(tail);
        lemma_round_trip_rest(tail);
        lemma_word_len_exact(word_text, tail_text);
        assert(b.take(word_text.len() as int) =~= word_text);
        assert(b.skip(word_text.len() as int) =~= tail_text);
        assert(b[0] == word_text[0]);
        assert(is_word_char(word_text[0]));
        lemma_separator_read(sep, b);
        assert(seq![sep, word] + tail =~= ts);
    }
}

/// Writing tokens and reading them back gives the same tokens.
///
/// For every well-formed run of tokens, the text that [`NumericValue::to_string`]
/// gives is read by [`NumericValue::from`] as those tokens again.
pub proof fn law_write_then_read(ts: Seq<Token>)
    requires
        well_formed_tokens(ts),
    ensures
        parse(render(ts)) == NumericModel::Tokens(ts),
{
    let word = ts[0];
    let tail = ts.skip(1);
    assert(is_word_token(word));
    assert(ts =~= seq![word] + tail);
    lemma_render_front(word, tail);
    lemma_word_text(word);
    assert forall|i: int| 0 <= i < tail.len() && i % 2 == 1 implies is_word_token(
        #[trigger] tail[i],
    ) by {
        assert(tail[i] == ts[i + 1]);
    }
    assert forall|i: int| 0 <= i < tail.len() && i % 2 == 0 implies is_separator_token(
        #[trigger] tail[i],
    ) by {
        assert(tail[i] == ts[i + 1]);
    }
    lemma_render_tail_start(tail);
    lemma_round_trip_rest(tail);
    let s = render(ts);
    let word_text = token_text(word);
    lemma_word_len_exact(word_text, render(tail));
    assert(s.take(word_text.len() as int) =~= word_text);
    assert(s.skip(word_text.len() as int) =~= render(tail));
}

/// Reading a numeric string, writing the value and reading that again gives
/// the same tokens: the written form is the normal form of the input.
pub proof fn law_read_write_read(s: Seq<char>)
    requires
        parse(s).is_numeric(),
    ensures
        parse(parse(s).text()) == parse(s),
{
    lemma_parse_well_formed(s);
    law_write_then_read(parse(s)->Tokens_0);
}

} // verus!
