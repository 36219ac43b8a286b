//! Splitting source text into tokens.
//!
//! Tokens are separated by ASCII whitespace (space, tab, line feed, carriage
//! return). The keywords are spelled:
//!
//! | token       | spelling |
//! |-------------|----------|
//! | assignment  | `AWOO`   |
//! | add         | `WOOF`   |
//! | subtract    | `BARK`   |
//! | multiply    | `ARF`    |
//! | less than   | `YIP`    |
//! | greater than| `YAP`    |
//! | if          | `RUF?`   |
//! | else        | `ROWH`   |
//! | end of if   | `ARRUF`  |
//! | while       | `GRRR`   |
//! | end of while| `BORF`   |
//!
//! An integer literal is a non-empty run of decimal digits whose value fits in
//! an `i64`. An identifier starts with an ASCII letter or `_`, goes on with
//! ASCII letters, digits and `_`, and is not a keyword. Any other word is an
//! invalid word.
use crate::state::Int;
use vstd::prelude::*;
use vstd::string::StringSliceAdditionalSpecFns;

verus! {

/// The kind of a token, with its payload.
pub enum TokenKind {
    Assign,
    Add,
    Subtract,
    Multiply,
    LessThan,
    GreaterThan,
    If,
    Else,
    EndIf,
    While,
    EndWhile,
    Identifier(String),
    Integer(Int),
}

/// A token and the byte offset in the source where it starts.
pub struct Token {
    pub kind: TokenKind,
    pub offset: usize,
}

/// The abstract value of a [`TokenKind`].
pub ghost enum KindModel {
    Assign,
    Add,
    Subtract,
    Multiply,
    LessThan,
    GreaterThan,
    If,
    Else,
    EndIf,
    While,
    EndWhile,
    Identifier(Seq<char>),
    Integer(Int),
}

/// The abstract value of a [`Token`].
pub ghost struct TokenModel {
    pub kind: KindModel,
    pub offset: nat,
}

impl View for TokenKind {
    type V = KindModel;

    open spec fn view(&self) -> KindModel {
        match self {
            TokenKind::Assign => KindModel::Assign,
            TokenKind::Add => KindModel::Add,
            TokenKind::Subtract => KindModel::Subtract,
            TokenKind::Multiply => KindModel::Multiply,
            TokenKind::LessThan => KindModel::LessThan,
            TokenKind::GreaterThan => KindModel::GreaterThan,
            TokenKind::If => KindModel::If,
            TokenKind::Else => KindModel::Else,
            TokenKind::EndIf => KindModel::EndIf,
            TokenKind::While => KindModel::While,
            TokenKind::EndWhile => KindModel::EndWhile,
            TokenKind::Identifier(n) => KindModel::Identifier(n@),
            TokenKind::Integer(v) => KindModel::Integer(*v),
        }
    }
}

impl View for Token {
    type V = TokenModel;

    open spec fn view(&self) -> TokenModel {
        TokenModel { kind: self.kind@, offset: self.offset as nat }
    }
}

/// Why source text is not a program.
#[derive(PartialEq, Eq, Structural, Clone, Copy, Debug)]
pub enum ParseError {
    /// The word starting at this byte offset is no token.
    InvalidWord { offset: usize },
    /// The token starting at this byte offset does not fit the grammar here.
    UnexpectedToken { offset: usize },
    /// The text ended where the grammar asks for more.
    UnexpectedEnd,
}

pub open spec fn is_space(c: u8) -> bool {
    c == 32 || c == 9 || c == 10 || c == 13
}

pub open spec fn is_digit(c: u8) -> bool {
    48 <= c <= 57
}

pub open spec fn is_ident_start(c: u8) -> bool {
    (65 <= c <= 90) || (97 <= c <= 122) || c == 95
}

pub open spec fn is_ident_char(c: u8) -> bool {
    is_ident_start(c) || is_digit(c)
}

/// The value of a run of decimal digits.
pub open spec fn digits_value(w: Seq<u8>) -> int
    decreases w.len(),
{
    if w.len() == 0 {
        0
    } else {
        10 * digits_value(w.drop_last()) + (w.last() - 48)
    }
}

/// The keyword spelled by `w`, if any.
pub open spec fn keyword(w: Seq<u8>) -> Option<KindModel> {
    if w == seq![65u8, 87, 79, 79] {
        Some(KindModel::Assign)
    } else if w == seq![87u8, 79, 79, 70] {
        Some(KindModel::Add)
    } else if w == seq![66u8, 65, 82, 75] {
        Some(KindModel::Subtract)
    } else if w == seq![65u8, 82, 70] {
        Some(KindModel::Multiply)
    } else if w == seq![89u8, 73, 80] {
        Some(KindModel::LessThan)
    } else if w == seq![89u8, 65, 80] {
        Some(KindModel::GreaterThan)
    } else if w == seq![82u8, 85, 70, 63] {
        Some(KindModel::If)
    } else if w == seq![82u8, 79, 87, 72] {
        Some(KindModel::Else)
    } else if w == seq![65u8, 82, 82, 85, 70] {
        Some(KindModel::EndIf)
    } else if w == seq![71u8, 82, 82, 82] {
        Some(KindModel::While)
    } else if w == seq![66u8, 79, 82, 70] {
        Some(KindModel::EndWhile)
    } else {
        None
    }
}

/// The token that the word `w` is, if any.
pub open spec fn classify(w: Seq<u8>) -> Option<KindModel> {
    match keyword(w) {
        Some(k) => Some(k),
        None => if w.len() > 0 && forall|k: int| 0 <= k < w.len() ==> is_digit(#[trigger] w[k]) {
            if digits_value(w) <= i64::MAX {
                Some(KindModel::Integer(digits_value(w) as Int))
            } else {
                None
            }
        } else if w.len() > 0 && is_ident_start(w[0]) && forall|k: int|
            0 <= k < w.len() ==> is_ident_char(#[trigger] w[k]) {
            Some(KindModel::Identifier(w.map_values(|c: u8| c as char)))
        } else {
            None
        },
    }
}

/// Where the word that starts at `i` ends: the first whitespace byte from `i`
/// on, or the end of the text.
pub open spec fn word_end(b: Seq<u8>, i: nat) -> nat
    decreases b.len() - i,
{
    if i >= b.len() || is_space(b[i as int]) {
        i
    } else {
        word_end(b, i + 1)
    }
}

/// The tokens of the text `b` from byte `i` on.
pub open spec fn lex_from(b: Seq<u8>, i: nat) -> Result<Seq<TokenModel>, ParseError>
    decreases b.len() - i,
{
    if i >= b.len() {
        Ok(Seq::empty())
    } else if is_space(b[i as int]) {
        lex_from(b, i + 1)
    } else {
        let j = word_end(b, i);
        match classify(b.subrange(i as int, j as int)) {
            None => Err(ParseError::InvalidWord { offset: i as usize }),
            Some(k) => if j <= i || j > b.len() {
                Err(ParseError::InvalidWord { offset: i as usize })
            } else {
                match lex_from(b, j) {
                    Ok(ts) => Ok(seq![TokenModel { kind: k, offset: i }] + ts),
                    Err(e) => Err(e),
                }
            },
        }
    }
}

/// The abstract value of a token sequence.
pub open spec fn tokens_model(v: Seq<Token>) -> Seq<TokenModel> {
    v.map_values(|t: Token| t@)
}

/// Relies on `String::push`: appends the one character to the string.
#[verifier::external_body]
fn push_char(s: &mut String, c: char)
    ensures
        final(s)@ == old(s)@.push(c),
{
    s.push(c)
}

fn is_space_byte(c: u8) -> (r: bool)
    ensures
        r == is_space(c),
{
    c == 32 || c == 9 || c == 10 || c == 13
}

/// Whether the bytes of `b` from `start` to `end` spell `word`.
fn spells(b: &[u8], start: usize, end: usize, word: &[u8]) -> (r: bool)
    requires
        start <= end <= b@.len(),
    ensures
        r == (b@.subrange(start as int, end as int) == word@),
{
    if end - start != word.len() {
        return false;
    }
    let mut k: usize = 0;
    while k < word.len()
        invariant
            start <= end <= b@.len(),
            end - start == word@.len(),
            k <= word@.len(),
            forall|m: int| 0 <= m < k ==> b@[start + m] == word@[m],
        decreases word.len() - k,
    {
        if b[start + k] != word[k] {
            assert(b@.subrange(start as int, end as int)[k as int] != word@[k as int]);
            return false;
        }
        k = k + 1;
    }
    assert(b@.subrange(start as int, end as int) =~= word@);
    true
}

/// The keyword spelled by the bytes of `b` from `start` to `end`, if any.
fn keyword_at(b: &[u8], start: usize, end: usize) -> (r: Option<TokenKind>)
    requires
        start <= end <= b@.len(),
    ensures
        match r {
            Some(k) => keyword(b@.subrange(start as int, end as int)) == Some(k@),
            None => keyword(b@.subrange(start as int, end as int)) is None,
        },
{
    if spells(b, start, end, &[65, 87, 79, 79]) {
        Some(TokenKind::Assign)
    } else if spells(b, start, end, &[87, 79, 79, 70]) {
        Some(TokenKind::Add)
    } else if spells(b, start, end, &[66, 65, 82, 75]) {
        Some(TokenKind::Subtract)
    } else if spells(b, start, end, &[65, 82, 70]) {
        Some(TokenKind::Multiply)
    } else if spells(b, start, end, &[89, 73, 80]) {
        Some(TokenKind::LessThan)
    } else if spells(b, start, end, &[89, 65, 80]) {
        Some(TokenKind::GreaterThan)
    } else if spells(b, start, end, &[82, 85, 70, 63]) {
        Some(TokenKind::If)
    } else if spells(b, start, end, &[82, 79, 87, 72]) {
        Some(TokenKind::Else)
    } else if spells(b, start, end, &[65, 82, 82, 85, 70]) {
        Some(TokenKind::EndIf)
    } else if spells(b, start, end, &[71, 82, 82, 82]) {
        Some(TokenKind::While)
    } else if spells(b, start, end, &[66, 79, 82, 70]) {
        Some(TokenKind::EndWhile)
    } else {
        None
    }
}

proof fn lemma_digits_nonneg(w: Seq<u8>)
    requires
        forall|m: int| 0 <= m < w.len() ==> is_digit(#[trigger] w[m]),
    ensures
        digits_value(w) >= 0,
    decreases w.len(),
{
    if w.len() > 0 {
        lemma_digits_nonneg(w.drop_last());
    }
}

/// A run of digits is worth at least as much as any of its prefixes.
proof fn lemma_digits_prefix_grows(w: Seq<u8>, k: int)
    requires
        0 <= k <= w.len(),
        forall|m: int| 0 <= m < w.len() ==> is_digit(#[trigger] w[m]),
    ensures
        digits_value(w.subrange(0, k)) <= digits_value(w),
    decreases w.len() - k,
{
    if k < w.len() {
        lemma_digits_prefix_grows(w, k + 1);
        assert(w.subrange(0, k + 1).drop_last() =~= w.subrange(0, k));
        lemma_digits_nonneg(w.subrange(0, k));
    } else {
        assert(w.subrange(0, k) =~= w);
    }
}

/// The value of the digits of `b` from `start` to `end`, or `None` where it
/// does not fit in an `i64`.
fn integer_at(b: &[u8], start: usize, end: usize) -> (r: Option<Int>)
    requires
        start < end <= b@.len(),
        forall|m: int| start <= m < end ==> is_digit(#[trigger] b@[m]),
    ensures
        ({
            let w = b@.subrange(start as int, end as int);
            r == if digits_value(w) <= i64::MAX {
                Some(digits_value(w) as Int)
            } else {
                None::<Int>
            }
        }),
{
    let ghost w = b@.subrange(start as int, end as int);
    let mut v: i64 = 0;
    let mut k: usize = start;
    while k < end
        invariant
            start <= k <= end <= b@.len(),
            w == b@.subrange(start as int, end as int),
            forall|m: int| start <= m < end ==> is_digit(#[trigger] b@[m]),
            v as int == digits_value(w.subrange(0, k - start)),
            0 <= v,
        decreases end - k,
    {
        assert(w.subrange(0, k - start + 1).drop_last() =~= w.subrange(0, k - start));
        assert(is_digit(b@[k as int]));
        let d: i128 = (b[k] - 48) as i128;
        let next: i128 = v as i128 * 10 + d;
        if next > i64::MAX as i128 {
            proof {
                lemma_digits_prefix_grows(w, k - start + 1);
            }
            return None;
        }
        v = next as i64;
        k = k + 1;
    }
    assert(w.subrange(0, end - start) =~= w);
    Some(v)
}

/// The identifier spelled by the bytes of `b` from `start` to `end`, if they
/// spell one.
fn identifier_at(b: &[u8], start: usize, end: usize) -> (r: Option<String>)
    requires
        start < end <= b@.len(),
    ensures
        ({
            let w = b@.subrange(start as int, end as int);
            let ok = is_ident_start(w[0]) && forall|k: int|
                0 <= k < w.len() ==> is_ident_char(#[trigger] w[k]);
            match r {
                Some(s) => ok && s@ == w.map_values(|c: u8| c as char),
                None => !ok,
            }
        }),
{
    let ghost w = b@.subrange(start as int, end as int);
    if !((65 <= b[start] && b[start] <= 90) || (97 <= b[start] && b[start] <= 122) || b[start]
        == 95) {
        return None;
    }
    let mut s = String::new();
    let mut k: usize = start;
    while k < end
        invariant
            start <= k <= end <= b@.len(),
            w == b@.subrange(start as int, end as int),
            forall|m: int| 0 <= m < k - start ==> is_ident_char(#[trigger] w[m]),
            s@ == w.subrange(0, k - start).map_values(|c: u8| c as char),
        decreases end - k,
    {
        let c = b[k];
        if !((65 <= c && c <= 90) || (97 <= c && c <= 122) || c == 95 || (48 <= c && c <= 57)) {
            assert(!is_ident_char(w[k - start]));
            return None;
        }
        push_char(&mut s, c as char);
        assert(w.subrange(0, k - start + 1).map_values(|c: u8| c as char) =~= w.subrange(
            0,
            k - start,
        ).map_values(|c: u8| c as char).push(c as char));
        k = k + 1;
    }
    assert(w.subrange(0, end - start) =~= w);
    Some(s)
}

/// The token that the bytes of `b` from `start` to `end` spell, if any.
fn classify_at(b: &[u8], start: usize, end: usize) -> (r: Option<TokenKind>)
    requires
        start < end <= b@.len(),
    ensures
        match r {
            Some(k) => classify(b@.subrange(start as int, end as int)) == Some(k@),
            None => classify(b@.subrange(start as int, end as int)) is None,
        },
{
    let ghost w = b@.subrange(start as int, end as int);
    match keyword_at(b, start, end) {
        Some(k) => {
            return Some(k);
        },
        None => {},
    }
    let mut all_digits = true;
    let mut k: usize = start;
    while k < end
        invariant
            start <= k <= end <= b@.len(),
            w == b@.subrange(start as int, end as int),
            all_digits == forall|m: int| start <= m < k ==> is_digit(#[trigger] b@[m]),
        decreases end - k,
    {
        if !(48 <= b[k] && b[k] <= 57) {
            all_digits = false;
        }
        k = k + 1;
    }
    if all_digits {
        assert forall|m: int| 0 <= m < w.len() implies is_digit(#[trigger] w[m]) by {
            assert(w[m] == b@[start + m]);
        }
        match integer_at(b, start, end) {
            Some(v) => Some(TokenKind::Integer(v)),
            None => None,
        }
    } else {
        assert(!(forall|m: int| 0 <= m < w.len() ==> is_digit(#[trigger] w[m]))) by {
            let m = choose|m: int| start <= m < end && !is_digit(#[trigger] b@[m]);
            assert(w[m - start] == b@[m]);
        }
        match identifier_at(b, start, end) {
            Some(s) => Some(TokenKind::Identifier(s)),
            None => None,
        }
    }
}

/// Splits `src` into tokens, or reports the first word that is no token.
pub fn tokenize(src: &str) -> (r: Result<Vec<Token>, ParseError>)
    ensures
        match r {
            Ok(v) => lex_from(src.spec_bytes(), 0) == Ok::<_, ParseError>(tokens_model(v@)),
            Err(e) => lex_from(src.spec_bytes(), 0) == Err::<Seq<TokenModel>, _>(e),
        },
{
    let b = src.as_bytes();
    let ghost bs = b@;
    let mut toks: Vec<Token> = Vec::new();
    let mut i: usize = 0;
    while i < b.len()
        invariant
            bs == b@,
            bs == src.spec_bytes(),
            i <= bs.len(),
            lex_from(bs, 0) == match lex_from(bs, i as nat) {
                Ok(ts) => Ok(tokens_model(toks@) + ts),
                Err(e) => Err(e),
            },
        decreases b.len() - i,
    {
        if is_space_byte(b[i]) {
            i = i + 1;
        } else {
            let mut j: usize = i + 1;
            while j < b.len() && !is_space_byte(b[j])
                invariant
                    i < j <= bs.len(),
                    bs == b@,
                    !is_space(bs[i as int]),
                    word_end(bs, i as nat) == word_end(bs, j as nat),
                decreases b.len() - j,
            {
                j = j + 1;
            }
            assert(word_end(bs, i as nat) == j);
            match classify_at(b, i, j) {
                None => {
                    return Err(ParseError::InvalidWord { offset: i });
                },
                Some(kind) => {
                    let t = Token { kind, offset: i };
                    proof {
                        let tm = TokenModel { kind: kind@, offset: i as nat };
                        assert(tokens_model(toks@.push(t)) =~= tokens_model(toks@).push(tm));
                        match lex_from(bs, j as nat) {
                            Ok(ts) => {
                                assert(tokens_model(toks@) + (seq![tm] + ts) =~= tokens_model(
                                    toks@,
                                ).push(tm) + ts);
                            },
                            Err(_) => {},
                        }
                    }
                    toks.push(t);
                    i = j;
                },
            }
        }
    }
    proof {
        assert(tokens_model(toks@) + Seq::<TokenModel>::empty() =~= tokens_model(toks@));
    }
    Ok(toks)
}

} // verus!
