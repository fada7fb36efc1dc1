//! The executable recursive-descent parser.
//!
//! Each function is proved to return exactly what the corresponding rule
//! of [`crate::grammar`] defines.

use vstd::prelude::*;
use vstd::string::StrSliceExecFns;

use crate::ast::EGLAst;
use crate::error::Expected;
use crate::error::ParseError;
use crate::grammar::all_ws;
use crate::grammar::is_whitespace_char;
use crate::grammar::lemma_ws_end_point;
use crate::grammar::sp_block;
use crate::grammar::sp_expr;
use crate::grammar::ws_end;

verus! {

/// Whether `c` is a whitespace character (the Unicode `White_Space` set).
pub fn is_whitespace(c: char) -> (r: bool)
    ensures
        r == is_whitespace_char(c),
{
    let u = c as u32;
    (0x09 <= u && u <= 0x0d) || u == 0x20 || u == 0x85 || u == 0xa0 || u == 0x1680 || (0x2000 <= u
        && u <= 0x200a) || u == 0x2028 || u == 0x2029 || u == 0x202f || u == 0x205f || u == 0x3000
}

/// Consumes the maximal run of whitespace starting at `i` and returns the
/// position just past it; never fails.
pub fn skip_ws(s: &str, i: usize) -> (j: usize)
    requires
        i <= s@.len(),
    ensures
        i <= j <= s@.len(),
        j == ws_end(s@, i as int),
{
    let n = s.unicode_len();
    let mut j = i;
    while j < n && is_whitespace(s.get_char(j))
        invariant
            i <= j <= n,
            n == s@.len(),
            all_ws(s@, i as int, j as int),
        decreases n - j,
    {
        j = j + 1;
    }
    proof {
        lemma_ws_end_point(s@, i as int, j as int);
    }
    j
}

/// The result of a token-level rule with machine-sized positions, as the
/// mathematical rules of [`crate::grammar`] state it.
pub open spec fn lift_result(res: Result<(EGLAst, usize), (usize, Expected)>) -> Result<
    (EGLAst, int),
    (int, Expected),
> {
    match res {
        Ok((t, p)) => Ok((t, p as int)),
        Err((p, e)) => Err((p as int, e)),
    }
}

/// Parses one expression starting at position `i`: the start keyword,
/// then either the end marker or a block followed by the end marker,
/// each token with its surrounding whitespace.  Returns the tree and the
/// position past the consumed region, exactly as `sp_expr` states.
pub fn parse_expr(s: &str, i: usize) -> (res: Result<(EGLAst, usize), (usize, Expected)>)
    requires
        i <= s@.len(),
    ensures
        lift_result(res) == sp_expr(s@, i as int),
        (res matches Ok((t, p)) ==> i <= p <= s@.len()),
    decreases s@.len() - i, 1int,
{
    let n = s.unicode_len();
    let i1 = skip_ws(s, i);
    if n - i1 >= 2 && s.get_char(i1) == 'H' && s.get_char(i1 + 1) == 'I' {
        let i2 = skip_ws(s, i1 + 2);
        if i2 < n && s.get_char(i2) == '!' {
            let p = skip_ws(s, i2 + 1);
            Ok((EGLAst::ExprStart(Box::new(EGLAst::ExprEnd)), p))
        } else {
            match parse_block(s, i2) {
                Ok((b, i3)) => {
                    if i3 < n && s.get_char(i3) == '!' {
                        let p = skip_ws(s, i3 + 1);
                        Ok((EGLAst::ExprStart(Box::new(b)), p))
                    } else {
                        Err((i3, Expected::EndMarker))
                    }
                },
                Err(e) => Err(e),
            }
        }
    } else {
        Err((i1, Expected::StartKeyword))
    }
}

/// Parses one block starting at position `j`: the open delimiter, then a
/// nested expression or whitespace-only content, then the close
/// delimiter, each with its surrounding whitespace.  Returns the
/// `ExprBlock` tree and the position past the consumed region, exactly
/// as `sp_block` states.
pub fn parse_block(s: &str, j: usize) -> (res: Result<(EGLAst, usize), (usize, Expected)>)
    requires
        j <= s@.len(),
    ensures
        lift_result(res) == sp_block(s@, j as int),
        (res matches Ok((t, p)) ==> j <= p <= s@.len()),
    decreases s@.len() - j, 0int,
{
    let n = s.unicode_len();
    let j1 = skip_ws(s, j);
    if j1 < n && s.get_char(j1) == '{' {
        let k = skip_ws(s, j1 + 1);
        if k < n && s.get_char(k) == '}' {
            let p = skip_ws(s, k + 1);
            Ok((EGLAst::ExprBlock(Box::new(EGLAst::Blank)), p))
        } else {
            match parse_expr(s, k) {
                Ok((e, m)) => {
                    if m < n && s.get_char(m) == '}' {
                        let p = skip_ws(s, m + 1);
                        Ok((EGLAst::ExprBlock(Box::new(e)), p))
                    } else {
                        Err((m, Expected::CloseDelimiter))
                    }
                },
                Err(err) => Err(err),
            }
        }
    } else {
        Err((j1, Expected::OpenDelimiter))
    }
}

/// Parses a whole EGL program.
///
/// Succeeds exactly when the expression rule matches at position 0 and
/// consumes the entire input (trailing whitespace after the final end
/// marker is part of the match).  On a partial match the error carries
/// the unconsumed remainder; on a grammar failure it carries the offset
/// and the token expected there.
pub fn parse_egl(input: &str) -> (res: Result<EGLAst, ParseError>)
    ensures
        match sp_expr(input@, 0) {
            Ok((t, p)) => if p == input@.len() {
                res == Ok::<EGLAst, ParseError>(t)
            } else {
                res matches Err(ParseError::TrailingInput { remainder }) && remainder@
                    == input@.subrange(p, input@.len() as int)
            },
            Err((p, e)) => res matches Err(ParseError::GrammarFailure { offset, expected })
                && offset == p && expected == e,
        },
{
    let n = input.unicode_len();
    match parse_expr(input, 0) {
        Ok((t, p)) => {
            if p == n {
                Ok(t)
            } else {
                let rem = input.substring_char(p, n).to_owned();
                Err(ParseError::TrailingInput { remainder: rem })
            }
        },
        Err((p, e)) => Err(ParseError::GrammarFailure { offset: p, expected: e }),
    }
}

} // verus!
