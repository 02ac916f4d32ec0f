//! Rewriting an expression typed in some radix as an expression in decimal
//! notation: literals are converted, implicit multiplication is written out,
//! and a minus sign where an operand is expected joins the literal after it.

use vstd::prelude::*;
use crate::radix::{is_digit_in_radix, is_radix_char};
use crate::text::{ascii_lower, chars_of, is_alpha, is_alpha_char, is_dec_digit, is_space, is_space_char, string_of};
use crate::token::{literal_chars, literal_spec, NormalizeError};

verus! {

/// What the last token written out was.
#[derive(Debug, Clone, Copy, PartialEq, Eq, Structural)]
pub enum TokenKind {
    Start,
    Number,
    Ident,
    LParen,
    RParen,
    Op,
    Comma,
}

/// `c` continues a numeric literal of `radix`: a digit, `_`, or in radix 10 a point.
pub open spec fn is_number_char(c: char, radix: u32) -> bool {
    is_radix_char(c, radix) || (radix == 10 && c == '.')
}

/// `c` continues an identifier.
pub open spec fn is_ident_char(c: char) -> bool {
    is_alpha(c) || is_dec_digit(c) || c == '_'
}

/// One of the binary operators `+ - * / % ^`.
pub open spec fn is_operator(c: char) -> bool {
    c == '+' || c == '-' || c == '*' || c == '/' || c == '%' || c == '^'
}

/// The end of the run of literal characters that starts at `i`.
pub open spec fn run_end(s: Seq<char>, i: int, radix: u32) -> int
    decreases s.len() - i,
{
    if 0 <= i < s.len() && is_number_char(s[i], radix) {
        run_end(s, i + 1, radix)
    } else {
        i
    }
}

/// The end of the run of identifier characters that starts at `i`.
pub open spec fn ident_end(s: Seq<char>, i: int) -> int
    decreases s.len() - i,
{
    if 0 <= i < s.len() && is_ident_char(s[i]) {
        ident_end(s, i + 1)
    } else {
        i
    }
}

/// The names that take an argument list, so that no `*` goes between the
/// name and its `(`.
pub open spec fn function_names() -> Seq<Seq<char>> {
    seq![
        seq!['s', 'i', 'n'],
        seq!['c', 'o', 's'],
        seq!['t', 'a', 'n'],
        seq!['a', 's', 'i', 'n'],
        seq!['a', 'c', 'o', 's'],
        seq!['a', 't', 'a', 'n'],
        seq!['s', 'i', 'n', 'h'],
        seq!['c', 'o', 's', 'h'],
        seq!['t', 'a', 'n', 'h'],
        seq!['l', 'o', 'g'],
        seq!['l', 'n'],
        seq!['s', 'q', 'r', 't'],
        seq!['a', 'b', 's'],
        seq!['f', 'l', 'o', 'o', 'r'],
        seq!['c', 'e', 'i', 'l'],
        seq!['c', 'e', 'i', 'l', 'i', 'n', 'g'],
        seq!['r', 'o', 'u', 'n', 'd'],
        seq!['e', 'x', 'p'],
        seq!['p', 'o', 'w'],
        seq!['m', 'i', 'n'],
        seq!['m', 'a', 'x'],
    ]
}

/// `s` with its ASCII letters in lower case.
pub open spec fn lower_seq(s: Seq<char>) -> Seq<char> {
    s.map_values(|c: char| ascii_lower(c))
}

/// `name`, ignoring ASCII case, is one of `function_names`.
pub open spec fn is_function_name(name: Seq<char>) -> bool {
    function_names().contains(lower_seq(name))
}

/// The constants the evaluator knows.
pub open spec fn constant_names() -> Seq<Seq<char>> {
    seq![seq!['p', 'i'], seq!['e']]
}

/// `name`, ignoring ASCII case, names a function or a constant. Above radix
/// 10 any other letter run is a numeral whose first letter lies beyond the
/// radix.
pub open spec fn is_known_name(name: Seq<char>) -> bool {
    is_function_name(name) || constant_names().contains(lower_seq(name))
}

/// A unary minus may stand after this token.
pub open spec fn operand_expected(k: TokenKind) -> bool {
    k == TokenKind::Start || k == TokenKind::LParen || k == TokenKind::Op || k == TokenKind::Comma
}

/// An operand after this token is multiplied with what precedes it.
pub open spec fn operand_ended(k: TokenKind) -> bool {
    k == TokenKind::Number || k == TokenKind::RParen || k == TokenKind::Ident
}

/// A `*` goes before an opening parenthesis after this token; `fn_like`
/// says whether the last identifier names a function.
pub open spec fn star_before_paren(k: TokenKind, fn_like: bool) -> bool {
    k == TokenKind::Number || k == TokenKind::RParen || (k == TokenKind::Ident && !fn_like)
}

/// `*` when `b` holds, else nothing.
pub open spec fn star(b: bool) -> Seq<char> {
    if b { seq!['*'] } else { seq![] }
}

/// `p` written before the output `r`, or the error of `r`.
pub open spec fn prepend(p: Seq<char>, r: Result<Seq<char>, NormalizeError>) -> Result<Seq<char>, NormalizeError> {
    match r {
        Ok(t) => Ok(p + t),
        Err(e) => Err(e),
    }
}

/// The decimal form of `s` from position `i` on, after a token of kind
/// `kind`; `fn_like` says whether the last identifier names a function.
pub open spec fn normalize_from(s: Seq<char>, radix: u32, i: int, kind: TokenKind, fn_like: bool) -> Result<Seq<char>, NormalizeError>
    decreases s.len() - i
    via normalize_from_decreases
{
    if i < 0 || i >= s.len() {
        Ok(seq![])
    } else if is_space(s[i]) {
        normalize_from(s, radix, i + 1, kind, fn_like)
    } else if s[i] == '-' && operand_expected(kind) {
        let j = run_end(s, i + 1, radix);
        if j == i + 1 {
            Err(NormalizeError::UnaryMinusMissingDigits)
        } else {
            match literal_spec(s.subrange(i, j), radix) {
                Ok(t) => prepend(t, normalize_from(s, radix, j, TokenKind::Number, fn_like)),
                Err(e) => Err(e),
            }
        }
    } else if is_number_char(s[i], radix) {
        let j = run_end(s, i + 1, radix);
        match literal_spec(s.subrange(i, j), radix) {
            Ok(t) => prepend(star(operand_ended(kind)) + t, normalize_from(s, radix, j, TokenKind::Number, fn_like)),
            Err(e) => Err(e),
        }
    } else if s[i] == '(' {
        prepend(star(star_before_paren(kind, fn_like)) + seq!['('], normalize_from(s, radix, i + 1, TokenKind::LParen, fn_like))
    } else if s[i] == ')' {
        prepend(seq![')'], normalize_from(s, radix, i + 1, TokenKind::RParen, fn_like))
    } else if s[i] == ',' {
        prepend(seq![','], normalize_from(s, radix, i + 1, TokenKind::Comma, fn_like))
    } else if is_operator(s[i]) {
        prepend(seq![s[i]], normalize_from(s, radix, i + 1, TokenKind::Op, fn_like))
    } else if is_alpha(s[i]) || s[i] == '_' {
        let j = ident_end(s, i + 1);
        let name = s.subrange(i, j);
        if radix > 10 && !is_known_name(name) {
            Err(NormalizeError::DigitOutOfRadix { radix })
        } else {
            prepend(star(operand_ended(kind)) + name, normalize_from(s, radix, j, TokenKind::Ident, is_function_name(name)))
        }
    } else {
        Err(NormalizeError::UnsupportedCharacter { c: s[i] })
    }
}

proof fn lemma_run_end(s: Seq<char>, i: int, radix: u32)
    requires
        0 <= i <= s.len(),
    ensures
        i <= run_end(s, i, radix) <= s.len(),
        forall|m: int| i <= m < run_end(s, i, radix) ==> is_number_char(#[trigger] s[m], radix),
    decreases s.len() - i,
{
    if i < s.len() && is_number_char(s[i], radix) {
        lemma_run_end(s, i + 1, radix);
    }
}

proof fn lemma_ident_end(s: Seq<char>, i: int)
    requires
        0 <= i <= s.len(),
    ensures
        i <= ident_end(s, i) <= s.len(),
    decreases s.len() - i,
{
    if i < s.len() && is_ident_char(s[i]) {
        lemma_ident_end(s, i + 1);
    }
}

#[via_fn]
proof fn normalize_from_decreases(s: Seq<char>, radix: u32, i: int, kind: TokenKind, fn_like: bool) {
    if 0 <= i < s.len() {
        lemma_run_end(s, i + 1, radix);
        lemma_ident_end(s, i + 1);
    }
}

proof fn lemma_prepend_assoc(a: Seq<char>, b: Seq<char>, r: Result<Seq<char>, NormalizeError>)
    ensures
        prepend(a, prepend(b, r)) == prepend(a + b, r),
{
    if let Ok(t) = r {
        assert(a + (b + t) =~= (a + b) + t);
    }
}

fn name_at(k: usize) -> (r: Vec<char>)
    requires
        k < 21,
    ensures
        r@ == function_names()[k as int],
{
    match k {
        0 => vec!['s', 'i', 'n'],
        1 => vec!['c', 'o', 's'],
        2 => vec!['t', 'a', 'n'],
        3 => vec!['a', 's', 'i', 'n'],
        4 => vec!['a', 'c', 'o', 's'],
        5 => vec!['a', 't', 'a', 'n'],
        6 => vec!['s', 'i', 'n', 'h'],
        7 => vec!['c', 'o', 's', 'h'],
        8 => vec!['t', 'a', 'n', 'h'],
        9 => vec!['l', 'o', 'g'],
        10 => vec!['l', 'n'],
        11 => vec!['s', 'q', 'r', 't'],
        12 => vec!['a', 'b', 's'],
        13 => vec!['f', 'l', 'o', 'o', 'r'],
        14 => vec!['c', 'e', 'i', 'l'],
        15 => vec!['c', 'e', 'i', 'l', 'i', 'n', 'g'],
        16 => vec!['r', 'o', 'u', 'n', 'd'],
        17 => vec!['e', 'x', 'p'],
        18 => vec!['p', 'o', 'w'],
        19 => vec!['m', 'i', 'n'],
        _ => vec!['m', 'a', 'x'],
    }
}

/// Whether two character vectors hold the same characters.
pub fn same_chars(a: &Vec<char>, b: &Vec<char>) -> (r: bool)
    ensures
        r == (a@ == b@),
{
    if a.len() != b.len() {
        return false;
    }
    let mut k: usize = 0;
    while k < a.len()
        invariant
            a@.len() == b@.len(),
            k <= a@.len(),
            forall|m: int| 0 <= m < k ==> a@[m] == b@[m],
        decreases a@.len() - k,
    {
        if a[k] != b[k] {
            return false;
        }
        k += 1;
    }
    assert(a@ =~= b@);
    true
}

/// Whether `name`, ignoring ASCII case, names a function whose argument
/// list follows it directly.
pub fn is_function_like(name: &Vec<char>) -> (r: bool)
    ensures
        r == is_function_name(name@),
{
    let mut low: Vec<char> = Vec::new();
    let mut k: usize = 0;
    while k < name.len()
        invariant
            k <= name@.len(),
            low@ == lower_seq(name@.subrange(0, k as int)),
        decreases name@.len() - k,
    {
        let c = name[k];
        let l = if 'A' <= c && c <= 'Z' { ((c as u32) + 32) as u8 as char } else { c };
        low.push(l);
        k += 1;
        assert(low@ =~= lower_seq(name@.subrange(0, k as int)));
    }
    assert(name@.subrange(0, name@.len() as int) =~= name@);
    let ghost lowered = lower_seq(name@);
    let mut j: usize = 0;
    while j < 21
        invariant
            j <= 21,
            low@ == lowered,
            lowered == lower_seq(name@),
            function_names().len() == 21,
            forall|m: int| 0 <= m < j ==> function_names()[m] != lowered,
        decreases 21 - j,
    {
        let candidate = name_at(j);
        if same_chars(&low, &candidate) {
            assert(function_names()[j as int] == lowered);
            assert(function_names().contains(lowered));
            return true;
        }
        j += 1;
    }
    assert(!function_names().contains(lowered));
    false
}

/// Whether `name`, ignoring ASCII case, names a constant the evaluator knows.
pub fn is_constant_like(name: &Vec<char>) -> (r: bool)
    ensures
        r == constant_names().contains(lower_seq(name@)),
{
    let mut low: Vec<char> = Vec::new();
    let mut k: usize = 0;
    while k < name.len()
        invariant
            k <= name@.len(),
            low@ == lower_seq(name@.subrange(0, k as int)),
        decreases name@.len() - k,
    {
        let c = name[k];
        let l = if 'A' <= c && c <= 'Z' { ((c as u32) + 32) as u8 as char } else { c };
        low.push(l);
        k += 1;
        assert(low@ =~= lower_seq(name@.subrange(0, k as int)));
    }
    assert(name@.subrange(0, name@.len() as int) =~= name@);
    let pi = vec!['p', 'i'];
    let e = vec!['e'];
    let r = same_chars(&low, &pi) || same_chars(&low, &e);
    proof {
        let l = lower_seq(name@);
        if r {
            if l == seq!['p', 'i'] {
                assert(constant_names()[0] == l);
            } else {
                assert(constant_names()[1] == l);
            }
        } else {
            assert(low@ == l);
            assert(pi@ == seq!['p', 'i']);
            assert(e@ == seq!['e']);
            assert forall|m: int| 0 <= m < constant_names().len() implies constant_names()[m] != l by {
                if m == 0 {
                    assert(constant_names()[0] == seq!['p', 'i']);
                } else {
                    assert(constant_names()[1] == seq!['e']);
                }
            }
        }
    }
    r
}

fn is_number_char_exec(c: char, radix: u32) -> (r: bool)
    ensures
        r == is_number_char(c, radix),
{
    is_digit_in_radix(c, radix) || (radix == 10 && c == '.')
}

fn copy_range(s: &Vec<char>, from: usize, to: usize) -> (r: Vec<char>)
    requires
        from <= to <= s@.len(),
    ensures
        r@ == s@.subrange(from as int, to as int),
{
    let mut out: Vec<char> = Vec::new();
    let mut k: usize = from;
    while k < to
        invariant
            from <= k <= to,
            to <= s@.len(),
            out@ == s@.subrange(from as int, k as int),
        decreases to - k,
    {
        out.push(s[k]);
        k += 1;
        assert(out@ =~= s@.subrange(from as int, k as int));
    }
    out
}

fn append_all(out: &mut Vec<char>, t: &Vec<char>)
    ensures
        final(out)@ == old(out)@ + t@,
{
    let mut k: usize = 0;
    while k < t.len()
        invariant
            k <= t@.len(),
            out@ == old(out)@ + t@.subrange(0, k as int),
        decreases t@.len() - k,
    {
        out.push(t[k]);
        k += 1;
        assert(out@ =~= old(out)@ + t@.subrange(0, k as int));
    }
    assert(t@.subrange(0, t@.len() as int) =~= t@);
}

fn operand_expected_exec(k: TokenKind) -> (r: bool)
    ensures
        r == operand_expected(k),
{
    match k {
        TokenKind::Start | TokenKind::LParen | TokenKind::Op | TokenKind::Comma => true,
        _ => false,
    }
}

fn operand_ended_exec(k: TokenKind) -> (r: bool)
    ensures
        r == operand_ended(k),
{
    match k {
        TokenKind::Number | TokenKind::RParen | TokenKind::Ident => true,
        _ => false,
    }
}

fn literal_run_end(s: &Vec<char>, from: usize, radix: u32) -> (j: usize)
    requires
        from <= s@.len(),
    ensures
        j == run_end(s@, from as int, radix),
        from <= j <= s@.len(),
{
    let mut j = from;
    while j < s.len() && is_number_char_exec(s[j], radix)
        invariant
            from <= j <= s@.len(),
            run_end(s@, from as int, radix) == run_end(s@, j as int, radix),
        decreases s@.len() - j,
    {
        j += 1;
    }
    j
}

fn ident_run_end(s: &Vec<char>, from: usize) -> (j: usize)
    requires
        from <= s@.len(),
    ensures
        j == ident_end(s@, from as int),
        from <= j <= s@.len(),
{
    let mut j = from;
    while j < s.len() && (is_alpha_char(s[j]) || ('0' <= s[j] && s[j] <= '9') || s[j] == '_')
        invariant
            from <= j <= s@.len(),
            ident_end(s@, from as int) == ident_end(s@, j as int),
        decreases s@.len() - j,
    {
        j += 1;
    }
    j
}

/// Rewrites `expr`, written with the digits of `radix` (2 to 36), as an
/// expression in decimal notation. Numeric literals become decimal numerals
/// (a decimal literal with a point keeps its digits); a `-` where an operand
/// is expected joins the literal after it; a `*` is written between an
/// operand and a following operand or `(`, except between a function name
/// and its argument list; whitespace is dropped; operators, parentheses,
/// commas and identifiers are kept. Above radix 10 a letter run that names
/// no function or constant is a numeral with a digit beyond the radix.
pub fn convert_expr_from_base(expr: &str, radix: u32) -> (r: Result<String, NormalizeError>)
    requires
        2 <= radix <= 36,
    ensures
        match r {
            Ok(v) => normalize_from(expr@, radix, 0, TokenKind::Start, false) == Ok::<Seq<char>, NormalizeError>(v@),
            Err(e) => normalize_from(expr@, radix, 0, TokenKind::Start, false) == Err::<Seq<char>, NormalizeError>(e),
        },
{
    let s = chars_of(expr);
    let mut out: Vec<char> = Vec::new();
    let mut i: usize = 0;
    let mut kind = TokenKind::Start;
    let mut fn_like = false;
    assert(out@ + seq![] =~= out@);
    while i < s.len()
        invariant
            i <= s@.len(),
            s@ == expr@,
            2 <= radix <= 36,
            normalize_from(s@, radix, 0, TokenKind::Start, false) == prepend(out@, normalize_from(s@, radix, i as int, kind, fn_like)),
        decreases s@.len() - i,
    {
        let c = s[i];
        let ghost old_out = out@;
        if is_space_char(c) {
            i += 1;
        } else if c == '-' && operand_expected_exec(kind) {
            let j = literal_run_end(&s, i + 1, radix);
            if j == i + 1 {
                return Err(NormalizeError::UnaryMinusMissingDigits);
            }
            let tok = copy_range(&s, i, j);
            match literal_chars(&tok, radix) {
                Ok(t) => {
                    append_all(&mut out, &t);
                    proof {
                        lemma_prepend_assoc(old_out, t@, normalize_from(s@, radix, j as int, TokenKind::Number, fn_like));
                    }
                    kind = TokenKind::Number;
                    i = j;
                },
                Err(e) => {
                    return Err(e);
                },
            }
        } else if is_number_char_exec(c, radix) {
            let j = literal_run_end(&s, i + 1, radix);
            let tok = copy_range(&s, i, j);
            match literal_chars(&tok, radix) {
                Ok(t) => {
                    let ended = operand_ended_exec(kind);
                    if ended {
                        out.push('*');
                    }
                    append_all(&mut out, &t);
                    proof {
                        assert(out@ =~= old_out + (star(ended) + t@));
                        lemma_prepend_assoc(old_out, star(ended) + t@, normalize_from(s@, radix, j as int, TokenKind::Number, fn_like));
                    }
                    kind = TokenKind::Number;
                    i = j;
                },
                Err(e) => {
                    return Err(e);
                },
            }
        } else if c == '(' {
            let insert = match kind {
                TokenKind::Number | TokenKind::RParen => true,
                TokenKind::Ident => !fn_like,
                _ => false,
            };
            if insert {
                out.push('*');
            }
            out.push('(');
            proof {
                assert(out@ =~= old_out + (star(insert) + seq!['(']));
                lemma_prepend_assoc(old_out, star(insert) + seq!['('], normalize_from(s@, radix, i + 1, TokenKind::LParen, fn_like));
            }
            kind = TokenKind::LParen;
            i += 1;
        } else if c == ')' || c == ',' || c == '+' || c == '-' || c == '*' || c == '/' || c == '%' || c == '^' {
            out.push(c);
            let next = if c == ')' {
                TokenKind::RParen
            } else if c == ',' {
                TokenKind::Comma
            } else {
                TokenKind::Op
            };
            proof {
                assert(out@ =~= old_out + seq![c]);
                lemma_prepend_assoc(old_out, seq![c], normalize_from(s@, radix, i + 1, next, fn_like));
            }
            kind = next;
            i += 1;
        } else if is_alpha_char(c) || c == '_' {
            let j = ident_run_end(&s, i + 1);
            let name = copy_range(&s, i, j);
            let f = is_function_like(&name);
            if radix > 10 && !f && !is_constant_like(&name) {
                return Err(NormalizeError::DigitOutOfRadix { radix });
            }
            let ended = operand_ended_exec(kind);
            if ended {
                out.push('*');
            }
            append_all(&mut out, &name);
            proof {
                assert(out@ =~= old_out + (star(ended) + name@));
                lemma_prepend_assoc(old_out, star(ended) + name@, normalize_from(s@, radix, j as int, TokenKind::Ident, f));
            }
            kind = TokenKind::Ident;
            fn_like = f;
            i = j;
        } else {
            return Err(NormalizeError::UnsupportedCharacter { c });
        }
    }
    assert(out@ + seq![] =~= out@);
    Ok(string_of(&out))
}

/// `c` may stand in an expression of `radix`: whitespace, a digit of the
/// radix, an operator, a parenthesis, a comma, a point, `_`, or a letter.
pub open spec fn is_input_char(c: char, radix: u32) -> bool {
    is_space(c) || is_radix_char(c, radix) || is_operator(c) || c == '(' || c == ')' || c == ',' || c == '.'
        || c == '_' || is_alpha(c)
}

/// Whether `c` may stand in an expression of `radix`; input is highlighted
/// where it may not.
pub fn is_valid_input_char(c: char, radix: u32) -> (r: bool)
    ensures
        r == is_input_char(c, radix),
{
    if is_space_char(c) {
        return true;
    }
    if is_digit_in_radix(c, radix) {
        return true;
    }
    c == '+' || c == '-' || c == '*' || c == '/' || c == '%' || c == '(' || c == ')' || c == '^' || c == ','
        || c == '.' || c == '_' || is_alpha_char(c)
}

} // verus!
