//! Textual expressions: tokens, the parsed symbolic form, and the parser.
//!
//! The grammar covers sums, differences, products, quotients, powers, unary
//! minus, parentheses, decimal literals and identifiers, with implicit
//! multiplication when a value is directly followed by an identifier or an
//! opening parenthesis (so `7y` reads as `7 * y`).  A source text is parsed
//! into a whole `PExpr` value, or rejected with a message; a stored parse
//! result is always replaced wholesale, never edited in place.

use vstd::prelude::*;

use crate::fixed::Fx;
use crate::fixed::SCALE;

verus! {

/// One lexical token of an expression text.
#[derive(Debug)]
pub enum Token {
    Num(Fx),
    Ident(Vec<u8>),
    Plus,
    Minus,
    Star,
    Slash,
    Caret,
    LParen,
    RParen,
}

/// The parsed symbolic form of one expression.
#[derive(Debug)]
pub enum PExpr {
    Num(Fx),
    Var(Vec<u8>),
    Add(Box<PExpr>, Box<PExpr>),
    Sub(Box<PExpr>, Box<PExpr>),
    Mul(Box<PExpr>, Box<PExpr>),
    Div(Box<PExpr>, Box<PExpr>),
    Pow(Box<PExpr>, Box<PExpr>),
    Neg(Box<PExpr>),
}


/// The ghost image of one token: identifier names as byte sequences.
pub enum SToken {
    Num(Fx),
    Ident(Seq<u8>),
    Plus,
    Minus,
    Star,
    Slash,
    Caret,
    LParen,
    RParen,
}

/// The ghost image of a token.
pub open spec fn token_view(t: Token) -> SToken {
    match t {
        Token::Num(f) => SToken::Num(f),
        Token::Ident(n) => SToken::Ident(n@),
        Token::Plus => SToken::Plus,
        Token::Minus => SToken::Minus,
        Token::Star => SToken::Star,
        Token::Slash => SToken::Slash,
        Token::Caret => SToken::Caret,
        Token::LParen => SToken::LParen,
        Token::RParen => SToken::RParen,
    }
}

/// The ghost image of a token sequence.
pub open spec fn tokens_view(ts: Seq<Token>) -> Seq<SToken> {
    Seq::new(ts.len(), |k: int| token_view(ts[k]))
}

/// The ghost image of a parsed expression: variable names as byte
/// sequences.
pub enum SExpr {
    Num(Fx),
    Var(Seq<u8>),
    Add(Box<SExpr>, Box<SExpr>),
    Sub(Box<SExpr>, Box<SExpr>),
    Mul(Box<SExpr>, Box<SExpr>),
    Div(Box<SExpr>, Box<SExpr>),
    Pow(Box<SExpr>, Box<SExpr>),
    Neg(Box<SExpr>),
}

/// The ghost image of a parsed expression.
pub open spec fn expr_view(e: PExpr) -> SExpr
    decreases e,
{
    match e {
        PExpr::Num(c) => SExpr::Num(c),
        PExpr::Var(n) => SExpr::Var(n@),
        PExpr::Add(a, b) => SExpr::Add(Box::new(expr_view(*a)), Box::new(expr_view(*b))),
        PExpr::Sub(a, b) => SExpr::Sub(Box::new(expr_view(*a)), Box::new(expr_view(*b))),
        PExpr::Mul(a, b) => SExpr::Mul(Box::new(expr_view(*a)), Box::new(expr_view(*b))),
        PExpr::Div(a, b) => SExpr::Div(Box::new(expr_view(*a)), Box::new(expr_view(*b))),
        PExpr::Pow(a, b) => SExpr::Pow(Box::new(expr_view(*a)), Box::new(expr_view(*b))),
        PExpr::Neg(a) => SExpr::Neg(Box::new(expr_view(*a))),
    }
}

/// A digit stands at `i`.
pub open spec fn digit_at(s: Seq<u8>, i: int) -> bool {
    0 <= i < s.len() && 48 <= s[i] <= 57
}

/// An identifier byte stands at `i`.
pub open spec fn alpha_char_at(s: Seq<u8>, i: int) -> bool {
    0 <= i < s.len() && ((65 <= s[i] <= 90) || (97 <= s[i] <= 122) || s[i] == 95)
}

/// Scan a run of digits from `i`, accumulating the whole part with the
/// same saturation rule as the lexer: the value and the end position.
pub open spec fn scan_whole(s: Seq<u8>, i: int, acc: int) -> (int, int)
    decreases s.len() - i,
        when 0 <= i <= s.len()
{
    if digit_at(s, i) {
        let acc2 = if acc <= u64::MAX as int {
            acc * 10 + (s[i] - 48)
        } else {
            acc
        };
        scan_whole(s, i + 1, acc2)
    } else {
        (acc, i)
    }
}

/// Scan a run of digits from `i` as a fraction: the first six digits land
/// at decreasing places, the rest are ignored.
pub open spec fn scan_frac(s: Seq<u8>, i: int, frac: int, place: int) -> (int, int)
    decreases s.len() - i,
        when 0 <= i <= s.len()
{
    if digit_at(s, i) {
        if place > 0 {
            scan_frac(s, i + 1, frac + (s[i] - 48) * place, place / 10)
        } else {
            scan_frac(s, i + 1, frac, place)
        }
    } else {
        (frac, i)
    }
}

/// The end of the identifier run starting at `i`.
pub open spec fn scan_ident(s: Seq<u8>, i: int) -> int
    decreases s.len() - i,
        when 0 <= i <= s.len()
{
    if alpha_char_at(s, i) {
        scan_ident(s, i + 1)
    } else {
        i
    }
}

/// The decimal literal starting at `i`: its value (saturated at the
/// largest representable magnitude) and the position after it.
pub open spec fn number_token(s: Seq<u8>, i: int) -> (Fx, int) {
    let wj = scan_whole(s, i, 0);
    let fr = if wj.1 < s.len() && s[wj.1] == 46 {
        scan_frac(s, wj.1 + 1, 0, 100000)
    } else {
        (0int, wj.1)
    };
    let w64 = if wj.0 > u64::MAX as int {
        u64::MAX as int
    } else {
        wj.0
    };
    let m = w64 * (SCALE as int) + fr.0;
    let mag = if m > u64::MAX as int {
        u64::MAX as int
    } else {
        m
    };
    (Fx::of(mag), fr.1)
}

/// Prepend a token to a tokenization outcome.
pub open spec fn opt_cons(t: SToken, rest: Option<Seq<SToken>>) -> Option<Seq<SToken>> {
    match rest {
        Some(s) => Some(seq![t] + s),
        None => None,
    }
}

/// The tokens of the text from position `i` on, or `None` at the first
/// unexpected character.
pub open spec fn tokenize_spec(s: Seq<u8>, i: int) -> Option<Seq<SToken>>
    decreases s.len() - i,
        when 0 <= i <= s.len()
{
    if i >= s.len() {
        Some(Seq::empty())
    } else {
        let c = s[i];
        if c == 32 || c == 9 {
            tokenize_spec(s, i + 1)
        } else if c == 43 {
            opt_cons(SToken::Plus, tokenize_spec(s, i + 1))
        } else if c == 45 {
            opt_cons(SToken::Minus, tokenize_spec(s, i + 1))
        } else if c == 42 {
            opt_cons(SToken::Star, tokenize_spec(s, i + 1))
        } else if c == 47 {
            opt_cons(SToken::Slash, tokenize_spec(s, i + 1))
        } else if c == 94 {
            opt_cons(SToken::Caret, tokenize_spec(s, i + 1))
        } else if c == 40 {
            opt_cons(SToken::LParen, tokenize_spec(s, i + 1))
        } else if c == 41 {
            opt_cons(SToken::RParen, tokenize_spec(s, i + 1))
        } else if 48 <= c <= 57 {
            let nt = number_token(s, i);
            if i < nt.1 <= s.len() {
                opt_cons(SToken::Num(nt.0), tokenize_spec(s, nt.1))
            } else {
                None
            }
        } else if (65 <= c && c <= 90) || (97 <= c && c <= 122) || c == 95 {
            let j = scan_ident(s, i);
            if i < j <= s.len() {
                opt_cons(SToken::Ident(s.subrange(i, j)), tokenize_spec(s, j))
            } else {
                None
            }
        } else {
            None
        }
    }
}

/// Append a token to a tokenization outcome's prefix.
pub open spec fn opt_concat(pre: Seq<SToken>, rest: Option<Seq<SToken>>) -> Option<Seq<SToken>> {
    match rest {
        Some(s) => Some(pre + s),
        None => None,
    }
}

/// A tokenization outcome with an empty prefix is itself.
proof fn lemma_opt_concat_empty(o: Option<Seq<SToken>>)
    ensures
        opt_concat(Seq::empty(), o) == o,
{
    match o {
        Some(s2) => {
            assert(Seq::<SToken>::empty() + s2 =~= s2);
        },
        None => {},
    }
}

/// Shifting one token from the remainder to the prefix keeps the whole.
proof fn lemma_opt_step(pre: Seq<SToken>, t: SToken, rest: Option<Seq<SToken>>)
    ensures
        opt_concat(pre.push(t), rest) == opt_concat(pre, opt_cons(t, rest)),
{
    match rest {
        Some(s) => {
            assert((pre.push(t) + s) =~= (pre + (seq![t] + s)));
        },
        None => {},
    }
}

/// The image of a pushed token sequence.
proof fn lemma_view_push(ts: Seq<Token>, t: Token)
    ensures
        tokens_view(ts.push(t)) =~= tokens_view(ts).push(token_view(t)),
{
}

/// The image of a token has the same kind as the token.
proof fn lemma_token_view_kinds(t: Token)
    ensures
        (token_view(t) is Num) == (t is Num),
        (token_view(t) is Ident) == (t is Ident),
        (token_view(t) is Plus) == (t is Plus),
        (token_view(t) is Minus) == (t is Minus),
        (token_view(t) is Star) == (t is Star),
        (token_view(t) is Slash) == (t is Slash),
        (token_view(t) is Caret) == (t is Caret),
        (token_view(t) is LParen) == (t is LParen),
        (token_view(t) is RParen) == (t is RParen),
{
    match t {
        Token::Num(f) => {},
        Token::Ident(n) => {},
        Token::Plus => {},
        Token::Minus => {},
        Token::Star => {},
        Token::Slash => {},
        Token::Caret => {},
        Token::LParen => {},
        Token::RParen => {},
    }
}


/// A literal, a variable, or a parenthesised sum.
pub open spec fn parse_atom_spec(ts: Seq<SToken>, pos: int) -> Option<(SExpr, int)>
    decreases ts.len() - pos, 0int,
        when 0 <= pos <= ts.len()
{
    if pos >= ts.len() {
        None
    } else {
        match ts[pos] {
            SToken::Num(f) => Some((SExpr::Num(f), pos + 1)),
            SToken::Ident(n) => Some((SExpr::Var(n), pos + 1)),
            SToken::LParen => match parse_sum_spec(ts, pos + 1) {
                Some(p) => if p.1 < ts.len() && ts[p.1] is RParen {
                    Some((p.0, p.1 + 1))
                } else {
                    None
                },
                None => None,
            },
            _ => None,
        }
    }
}

/// An atom optionally raised to a factor.
pub open spec fn parse_power_spec(ts: Seq<SToken>, pos: int) -> Option<(SExpr, int)>
    decreases ts.len() - pos, 1int,
        when 0 <= pos <= ts.len()
{
    match parse_atom_spec(ts, pos) {
        Some(b) => if b.1 < ts.len() && ts[b.1] is Caret {
            if pos <= b.1 {
                match parse_factor_spec(ts, b.1 + 1) {
                    Some(x) => Some((SExpr::Pow(Box::new(b.0), Box::new(x.0)), x.1)),
                    None => None,
                }
            } else {
                None
            }
        } else {
            Some(b)
        },
        None => None,
    }
}

/// Any number of leading minus signs applied to a power.
pub open spec fn parse_factor_spec(ts: Seq<SToken>, pos: int) -> Option<(SExpr, int)>
    decreases ts.len() - pos, 2int,
        when 0 <= pos <= ts.len()
{
    if pos < ts.len() && ts[pos] is Minus {
        match parse_factor_spec(ts, pos + 1) {
            Some(p) => Some((SExpr::Neg(Box::new(p.0)), p.1)),
            None => None,
        }
    } else {
        parse_power_spec(ts, pos)
    }
}

/// The continuation of a product after its first factor.
pub open spec fn parse_term_rest(ts: Seq<SToken>, e: SExpr, i: int) -> Option<(SExpr, int)>
    decreases ts.len() - i, 3int,
        when 0 <= i <= ts.len()
{
    if i < ts.len() && (ts[i] is Star || ts[i] is Slash || ts[i] is Ident || ts[i] is LParen) {
        let np = if ts[i] is Star || ts[i] is Slash {
            i + 1
        } else {
            i
        };
        match parse_factor_spec(ts, np) {
            Some(p) => if i < p.1 <= ts.len() {
                let comb = if ts[i] is Slash {
                    SExpr::Div(Box::new(e), Box::new(p.0))
                } else {
                    SExpr::Mul(Box::new(e), Box::new(p.0))
                };
                parse_term_rest(ts, comb, p.1)
            } else {
                None
            },
            None => None,
        }
    } else {
        Some((e, i))
    }
}

/// A product of factors, with implicit multiplication before an
/// identifier or an opening parenthesis.
pub open spec fn parse_term_spec(ts: Seq<SToken>, pos: int) -> Option<(SExpr, int)>
    decreases ts.len() - pos, 4int,
        when 0 <= pos <= ts.len()
{
    match parse_factor_spec(ts, pos) {
        Some(p) => if pos <= p.1 <= ts.len() {
            parse_term_rest(ts, p.0, p.1)
        } else {
            None
        },
        None => None,
    }
}

/// The continuation of a sum after its first term.
pub open spec fn parse_sum_rest(ts: Seq<SToken>, e: SExpr, i: int) -> Option<(SExpr, int)>
    decreases ts.len() - i, 5int,
        when 0 <= i <= ts.len()
{
    if i < ts.len() && (ts[i] is Plus || ts[i] is Minus) {
        match parse_term_spec(ts, i + 1) {
            Some(p) => if i < p.1 <= ts.len() {
                let comb = if ts[i] is Minus {
                    SExpr::Sub(Box::new(e), Box::new(p.0))
                } else {
                    SExpr::Add(Box::new(e), Box::new(p.0))
                };
                parse_sum_rest(ts, comb, p.1)
            } else {
                None
            },
            None => None,
        }
    } else {
        Some((e, i))
    }
}

/// A sum of terms.
pub open spec fn parse_sum_spec(ts: Seq<SToken>, pos: int) -> Option<(SExpr, int)>
    decreases ts.len() - pos, 6int,
        when 0 <= pos <= ts.len()
{
    match parse_term_spec(ts, pos) {
        Some(p) => if pos <= p.1 <= ts.len() {
            parse_sum_rest(ts, p.0, p.1)
        } else {
            None
        },
        None => None,
    }
}

/// The whole parse of an expression text: its tokens, then a sum consuming
/// every token; an empty text is refused.
pub open spec fn parse_spec(s: Seq<u8>) -> Option<SExpr> {
    match tokenize_spec(s, 0) {
        Some(ts) => if ts.len() == 0 {
            None
        } else {
            match parse_sum_spec(ts, 0) {
                Some(p) => if p.1 == ts.len() {
                    Some(p.0)
                } else {
                    None
                },
                None => None,
            }
        },
        None => None,
    }
}

/// Copy a byte vector.
fn copy_bytes(v: &Vec<u8>) -> (r: Vec<u8>)
    ensures
        r@ == v@,
{
    let mut out: Vec<u8> = Vec::new();
    let mut i: usize = 0;
    while i < v.len()
        invariant
            i <= v.len(),
            out@ == v@.subrange(0, i as int),
        decreases v.len() - i,
    {
        out.push(v[i]);
        i = i + 1;
    }
    proof {
        assert(out@ =~= v@);
    }
    out
}

fn is_digit(c: u8) -> (r: bool)
    ensures
        r == (48 <= c && c <= 57),
{
    48 <= c && c <= 57
}

fn is_alpha(c: u8) -> (r: bool)
    ensures
        r == ((65 <= c && c <= 90) || (97 <= c && c <= 122) || c == 95),
{
    (65 <= c && c <= 90) || (97 <= c && c <= 122) || c == 95
}

fn alpha_at(input: &Vec<u8>, j: usize) -> (r: bool)
    requires
        j < input.len(),
    ensures
        r == ((65 <= input[j as int] && input[j as int] <= 90) || (97 <= input[j as int]
            && input[j as int] <= 122) || input[j as int] == 95),
{
    is_alpha(input[j])
}

/// Read a decimal literal starting at `i`; returns the value (saturated at
/// the largest representable magnitude) and the position after the literal.
fn lex_number(input: &Vec<u8>, start: usize) -> (r: (Fx, usize))
    requires
        start < input.len(),
        48 <= input[start as int] && input[start as int] <= 57,
    ensures
        start < r.1 <= input.len(),
        r.0.fin,
        r.0 == number_token(input@, start as int).0,
        r.1 == number_token(input@, start as int).1,
{
    let mut i: usize = start;
    let mut whole: u128 = 0;
    while i < input.len() && 48 <= input[i] && input[i] <= 57
        invariant
            start <= i <= input.len(),
            whole <= 0xFFFF_FFFF_FFFF_FFFFu128 * 10 + 9,
            scan_whole(input@, start as int, 0) == scan_whole(input@, i as int, whole as int),
        decreases input.len() - i,
    {
        let d: u8 = input[i] - 48;
        proof {
            assert(digit_at(input@, i as int));
        }
        if whole <= u64::MAX as u128 {
            whole = whole * 10 + (d as u128);
        }
        i = i + 1;
    }
    proof {
        assert(!digit_at(input@, i as int));
        assert(scan_whole(input@, start as int, 0) == (whole as int, i as int));
    }
    let ghost wend = i as int;
    let mut frac: u64 = 0;
    let mut place: u64 = 100000;
    if i < input.len() && input[i] == 46 {
        i = i + 1;
        let ghost fstart = i as int;
        while i < input.len() && 48 <= input[i] && input[i] <= 57
            invariant
                fstart <= i <= input.len(),
                10 * place <= 1000000,
                frac <= 1000000 - 10 * place,
                scan_frac(input@, fstart, 0, 100000) == scan_frac(
                    input@,
                    i as int,
                    frac as int,
                    place as int,
                ),
            decreases input.len() - i,
        {
            let d: u8 = input[i] - 48;
            proof {
                assert(digit_at(input@, i as int));
                assert((d as int) * (place as int) <= 9 * (place as int)) by (nonlinear_arith)
                    requires
                        d <= 9,
                        place >= 0,
                ;
            }
            if place > 0 {
                frac = frac + (d as u64) * place;
                place = place / 10;
            }
            i = i + 1;
        }
        proof {
            assert(!digit_at(input@, i as int));
            assert(scan_frac(input@, fstart, 0, 100000) == (frac as int, i as int));
        }
    }
    let w64: u64 = if whole > u64::MAX as u128 {
        u64::MAX
    } else {
        whole as u64
    };
    let m: u128 = (w64 as u128) * (SCALE as u128) + (frac as u128);
    let mag: u64 = if m > u64::MAX as u128 {
        u64::MAX
    } else {
        m as u64
    };
    proof {
        assert(number_token(input@, start as int).1 == i as int);
        assert(number_token(input@, start as int).0 == Fx::of(mag as int));
    }
    (Fx::from_units(false, mag), i)
}

/// Split an expression text into tokens, or report the first unexpected
/// character.  Succeeds exactly when `tokenize_spec` does, and then
/// produces exactly its tokens.
fn tokenize(input: &Vec<u8>) -> (r: Result<Vec<Token>, String>)
    ensures
        (r is Ok) == (tokenize_spec(input@, 0) is Some),
        r matches Ok(ts) ==> tokenize_spec(input@, 0) == Some(tokens_view(ts@)),
{
    let mut toks: Vec<Token> = Vec::new();
    let mut i: usize = 0;
    proof {
        lemma_opt_concat_empty(tokenize_spec(input@, 0));
        assert(tokens_view(toks@) =~= Seq::<SToken>::empty());
    }
    while i < input.len()
        invariant
            i <= input.len(),
            tokenize_spec(input@, 0) == opt_concat(
                tokens_view(toks@),
                tokenize_spec(input@, i as int),
            ),
        decreases input.len() - i,
    {
        let c: u8 = input[i];
        if c == 32 || c == 9 {
            i = i + 1;
        } else {
            let ghost pre = toks@;
            let ghost i0 = i as int;
            let tok: Token;
            let ni: usize;
            if c == 43 {
                tok = Token::Plus;
                ni = i + 1;
            } else if c == 45 {
                tok = Token::Minus;
                ni = i + 1;
            } else if c == 42 {
                tok = Token::Star;
                ni = i + 1;
            } else if c == 47 {
                tok = Token::Slash;
                ni = i + 1;
            } else if c == 94 {
                tok = Token::Caret;
                ni = i + 1;
            } else if c == 40 {
                tok = Token::LParen;
                ni = i + 1;
            } else if c == 41 {
                tok = Token::RParen;
                ni = i + 1;
            } else if is_digit(c) {
                let (value, j) = lex_number(input, i);
                tok = Token::Num(value);
                ni = j;
            } else if is_alpha(c) {
                let mut name: Vec<u8> = Vec::new();
                let mut j: usize = i;
                while j < input.len() && alpha_at(input, j)
                    invariant
                        0 <= i0 <= j <= input.len(),
                        scan_ident(input@, i0) == scan_ident(input@, j as int),
                        name@ == input@.subrange(i0, j as int),
                    decreases input.len() - j,
                {
                    proof {
                        assert(alpha_char_at(input@, j as int));
                        assert(name@.push(input@[j as int]) =~= input@.subrange(i0, j as int + 1));
                    }
                    name.push(input[j]);
                    j = j + 1;
                }
                proof {
                    assert(!alpha_char_at(input@, j as int));
                    assert(scan_ident(input@, i0) == j as int);
                    assert(alpha_char_at(input@, i0));
                    assert(j as int != i0);
                }
                tok = Token::Ident(name);
                ni = j;
            } else {
                proof {
                    assert(tokenize_spec(input@, i0) is None);
                }
                return Err("unexpected character in expression".to_string());
            }
            proof {
                assert(tokenize_spec(input@, i0) == opt_cons(
                    token_view(tok),
                    tokenize_spec(input@, ni as int),
                ));
                lemma_opt_step(tokens_view(pre), token_view(tok), tokenize_spec(input@, ni as int));
            }
            toks.push(tok);
            proof {
                assert(tokens_view(toks@) =~= tokens_view(pre).push(token_view(tok)));
            }
            i = ni;
        }
    }
    proof {
        assert(tokenize_spec(input@, i as int) == Some(Seq::<SToken>::empty()));
        assert(tokens_view(toks@) + Seq::<SToken>::empty() =~= tokens_view(toks@));
    }
    Ok(toks)
}

/// Parse a sum of terms.
fn parse_sum(toks: &Vec<Token>, pos: usize) -> (r: Result<(PExpr, usize), String>)
    requires
        pos <= toks.len(),
    ensures
        r is Ok ==> pos < r->Ok_0.1 <= toks.len(),
        (r is Ok) == (parse_sum_spec(tokens_view(toks@), pos as int) is Some),
        r matches Ok(p) ==> parse_sum_spec(tokens_view(toks@), pos as int) == Some(
            (expr_view(p.0), p.1 as int),
        ),
    decreases toks.len() - pos, 4int,
{
    let first = parse_term(toks, pos);
    let (mut e, mut i) = match first {
        Ok(p) => p,
        Err(m) => {
            return Err(m);
        },
    };
    while i < toks.len() && (matches!(toks[i], Token::Plus) || matches!(toks[i], Token::Minus))
        invariant
            pos < i <= toks.len(),
            parse_sum_spec(tokens_view(toks@), pos as int) == parse_sum_rest(
                tokens_view(toks@),
                expr_view(e),
                i as int,
            ),
        decreases toks.len() - i,
    {
        proof {
            assert(tokens_view(toks@)[i as int] == token_view(toks@[i as int]));
            lemma_token_view_kinds(toks@[i as int]);
        }
        let minus = matches!(toks[i], Token::Minus);
        let next = parse_term(toks, i + 1);
        let (rhs, j) = match next {
            Ok(p) => p,
            Err(m) => {
                return Err(m);
            },
        };
        e = if minus {
            PExpr::Sub(Box::new(e), Box::new(rhs))
        } else {
            PExpr::Add(Box::new(e), Box::new(rhs))
        };
        i = j;
    }
    proof {
        if i < toks.len() {
            assert(tokens_view(toks@)[i as int] == token_view(toks@[i as int]));
            lemma_token_view_kinds(toks@[i as int]);
        }
    }
    Ok((e, i))
}

/// Parse a product of factors, including implicit multiplication before an
/// identifier or an opening parenthesis.
fn parse_term(toks: &Vec<Token>, pos: usize) -> (r: Result<(PExpr, usize), String>)
    requires
        pos <= toks.len(),
    ensures
        r is Ok ==> pos < r->Ok_0.1 <= toks.len(),
        (r is Ok) == (parse_term_spec(tokens_view(toks@), pos as int) is Some),
        r matches Ok(p) ==> parse_term_spec(tokens_view(toks@), pos as int) == Some(
            (expr_view(p.0), p.1 as int),
        ),
    decreases toks.len() - pos, 3int,
{
    let first = parse_factor(toks, pos);
    let (mut e, mut i) = match first {
        Ok(p) => p,
        Err(m) => {
            return Err(m);
        },
    };
    while i < toks.len() && (matches!(toks[i], Token::Star) || matches!(toks[i], Token::Slash)
        || matches!(toks[i], Token::Ident(_)) || matches!(toks[i], Token::LParen))
        invariant
            pos < i <= toks.len(),
            parse_term_spec(tokens_view(toks@), pos as int) == parse_term_rest(
                tokens_view(toks@),
                expr_view(e),
                i as int,
            ),
        decreases toks.len() - i,
    {
        proof {
            assert(tokens_view(toks@)[i as int] == token_view(toks@[i as int]));
            lemma_token_view_kinds(toks@[i as int]);
        }
        let explicit = matches!(toks[i], Token::Star) || matches!(toks[i], Token::Slash);
        let divide = matches!(toks[i], Token::Slash);
        let next_pos = if explicit {
            i + 1
        } else {
            i
        };
        let next = parse_factor(toks, next_pos);
        let (rhs, j) = match next {
            Ok(p) => p,
            Err(m) => {
                return Err(m);
            },
        };
        e = if divide {
            PExpr::Div(Box::new(e), Box::new(rhs))
        } else {
            PExpr::Mul(Box::new(e), Box::new(rhs))
        };
        i = j;
    }
    proof {
        if i < toks.len() {
            assert(tokens_view(toks@)[i as int] == token_view(toks@[i as int]));
            lemma_token_view_kinds(toks@[i as int]);
        }
    }
    Ok((e, i))
}

/// Parse a factor: any number of leading minus signs applied to a power.
fn parse_factor(toks: &Vec<Token>, pos: usize) -> (r: Result<(PExpr, usize), String>)
    requires
        pos <= toks.len(),
    ensures
        r is Ok ==> pos < r->Ok_0.1 <= toks.len(),
        (r is Ok) == (parse_factor_spec(tokens_view(toks@), pos as int) is Some),
        r matches Ok(p) ==> parse_factor_spec(tokens_view(toks@), pos as int) == Some(
            (expr_view(p.0), p.1 as int),
        ),
    decreases toks.len() - pos, 2int,
{
    proof {
        if pos < toks.len() {
            assert(tokens_view(toks@)[pos as int] == token_view(toks@[pos as int]));
            lemma_token_view_kinds(toks@[pos as int]);
        }
    }
    if pos < toks.len() && matches!(toks[pos], Token::Minus) {
        let inner = parse_factor(toks, pos + 1);
        match inner {
            Ok((e, j)) => Ok((PExpr::Neg(Box::new(e)), j)),
            Err(m) => Err(m),
        }
    } else {
        parse_power(toks, pos)
    }
}

/// Parse an atom optionally raised to a factor (`^` is right-associative).
fn parse_power(toks: &Vec<Token>, pos: usize) -> (r: Result<(PExpr, usize), String>)
    requires
        pos <= toks.len(),
    ensures
        r is Ok ==> pos < r->Ok_0.1 <= toks.len(),
        (r is Ok) == (parse_power_spec(tokens_view(toks@), pos as int) is Some),
        r matches Ok(p) ==> parse_power_spec(tokens_view(toks@), pos as int) == Some(
            (expr_view(p.0), p.1 as int),
        ),
    decreases toks.len() - pos, 1int,
{
    let first = parse_atom(toks, pos);
    let (base, i) = match first {
        Ok(p) => p,
        Err(m) => {
            return Err(m);
        },
    };
    proof {
        if i < toks.len() {
            assert(tokens_view(toks@)[i as int] == token_view(toks@[i as int]));
            lemma_token_view_kinds(toks@[i as int]);
        }
    }
    if i < toks.len() && matches!(toks[i], Token::Caret) {
        let next = parse_factor(toks, i + 1);
        match next {
            Ok((ex, j)) => Ok((PExpr::Pow(Box::new(base), Box::new(ex)), j)),
            Err(m) => Err(m),
        }
    } else {
        Ok((base, i))
    }
}

/// Parse a literal, an identifier, or a parenthesised subexpression.
fn parse_atom(toks: &Vec<Token>, pos: usize) -> (r: Result<(PExpr, usize), String>)
    requires
        pos <= toks.len(),
    ensures
        r is Ok ==> pos < r->Ok_0.1 <= toks.len(),
        (r is Ok) == (parse_atom_spec(tokens_view(toks@), pos as int) is Some),
        r matches Ok(p) ==> parse_atom_spec(tokens_view(toks@), pos as int) == Some(
            (expr_view(p.0), p.1 as int),
        ),
    decreases toks.len() - pos, 0int,
{
    if pos >= toks.len() {
        return Err("unexpected end of expression".to_string());
    }
    proof {
        assert(tokens_view(toks@)[pos as int] == token_view(toks@[pos as int]));
        lemma_token_view_kinds(toks@[pos as int]);
    }
    match &toks[pos] {
        Token::Num(f) => Ok((PExpr::Num(*f), pos + 1)),
        Token::Ident(name) => Ok((PExpr::Var(copy_bytes(name)), pos + 1)),
        Token::LParen => {
            let inner = parse_sum(toks, pos + 1);
            let (e, i) = match inner {
                Ok(p) => p,
                Err(m) => {
                    return Err(m);
                },
            };
            proof {
                if i < toks.len() {
                    assert(tokens_view(toks@)[i as int] == token_view(toks@[i as int]));
                    lemma_token_view_kinds(toks@[i as int]);
                }
            }
            if i < toks.len() && matches!(toks[i], Token::RParen) {
                Ok((e, i + 1))
            } else {
                Err("expected a closing parenthesis".to_string())
            }
        },
        _ => Err("unexpected token in expression".to_string()),
    }
}

/// Parse one expression text into its symbolic form, requiring the whole
/// input to be consumed.  The result replaces any previously parsed value
/// wholesale; nothing is mutated in place.  Parsing is a pure function of
/// the text: it succeeds exactly when `parse_spec` does, and then the
/// result's ghost image is exactly `parse_spec`'s.
pub fn parse(input: &Vec<u8>) -> (r: Result<PExpr, String>)
    ensures
        (r is Ok) == (parse_spec(input@) is Some),
        r matches Ok(e) ==> parse_spec(input@) == Some(expr_view(e)),
{
    let toks = match tokenize(input) {
        Ok(t) => t,
        Err(m) => {
            return Err(m);
        },
    };
    if toks.len() == 0 {
        return Err("empty expression".to_string());
    }
    match parse_sum(&toks, 0) {
        Ok((e, i)) => {
            if i == toks.len() {
                Ok(e)
            } else {
                Err("unexpected trailing input in expression".to_string())
            }
        },
        Err(m) => Err(m),
    }
}

} // verus!
