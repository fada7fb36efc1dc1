//! The mathematical model of the EGL grammar.
//!
//! `sp_expr` and `sp_block` define, over a `Seq<char>` and a character
//! position, exactly what the executable parser returns: the tree and the
//! position one past the consumed region (trailing whitespace included),
//! or the offset and token of the first failure.  Every token-level rule
//! first skips the maximal whitespace run, so the rules are insensitive
//! to whitespace between tokens.

use vstd::prelude::*;

use crate::ast::EGLAst;
use crate::error::Expected;

verus! {

/// A character with the Unicode `White_Space` property, the set that the
/// standard library's whitespace test for `char` recognizes.
pub open spec fn is_whitespace_char(c: char) -> bool {
    let u = c as u32;
    (0x09 <= u && u <= 0x0d) || u == 0x20 || u == 0x85 || u == 0xa0 || u == 0x1680 || (0x2000 <= u
        && u <= 0x200a) || u == 0x2028 || u == 0x2029 || u == 0x202f || u == 0x205f || u == 0x3000
}

/// The length of the maximal whitespace run starting at position `i`.
pub open spec fn ws_run(s: Seq<char>, i: int) -> nat
    decreases s.len() - i,
{
    if 0 <= i && i < s.len() && is_whitespace_char(s[i]) {
        1 + ws_run(s, i + 1)
    } else {
        0
    }
}

/// The first position at or after `i` that holds no whitespace (or the
/// end of the input).
pub open spec fn ws_end(s: Seq<char>, i: int) -> int {
    i + ws_run(s, i)
}

/// Every character in the half-open range `[i, j)` is whitespace.
pub open spec fn all_ws(s: Seq<char>, i: int, j: int) -> bool {
    forall|k: int| i <= k < j ==> is_whitespace_char(s[k])
}

/// A whitespace run that is followed by a non-whitespace character (or by
/// the end of the input) ends exactly there.
pub proof fn lemma_ws_end_point(s: Seq<char>, i: int, j: int)
    requires
        0 <= i <= j <= s.len(),
        all_ws(s, i, j),
        j == s.len() || !is_whitespace_char(s[j]),
    ensures
        ws_end(s, i) == j,
    decreases j - i,
{
    if i < j {
        assert(is_whitespace_char(s[i]));
        lemma_ws_end_point(s, i + 1, j);
    }
}

/// For a position within the input, the whitespace run stays within the
/// input.
pub proof fn lemma_ws_end_le(s: Seq<char>, i: int)
    ensures
        ws_run(s, i) == 0 || i + ws_run(s, i) <= s.len(),
    decreases s.len() - i,
{
    if 0 <= i && i < s.len() && is_whitespace_char(s[i]) {
        lemma_ws_end_le(s, i + 1);
    }
}

/// Skipping whitespace stays within the input and stops at the end of
/// the input or at a non-whitespace character.
pub proof fn lemma_ws_end_nonws(s: Seq<char>, i: int)
    requires
        0 <= i <= s.len(),
    ensures
        i <= ws_end(s, i) <= s.len(),
        ws_end(s, i) == s.len() || !is_whitespace_char(s[ws_end(s, i)]),
    decreases s.len() - i,
{
    if i < s.len() && is_whitespace_char(s[i]) {
        lemma_ws_end_nonws(s, i + 1);
    }
}

/// Every character that skipping whitespace steps over is whitespace.
pub proof fn lemma_ws_end_all_ws(s: Seq<char>, i: int)
    requires
        0 <= i <= s.len(),
    ensures
        all_ws(s, i, ws_end(s, i)),
    decreases s.len() - i,
{
    if i < s.len() && is_whitespace_char(s[i]) {
        lemma_ws_end_all_ws(s, i + 1);
    }
}

/// The expression rule: optional whitespace, the start keyword `HI`,
/// optional whitespace, then either the end marker `!` or a block
/// followed by the end marker; the end marker's trailing whitespace is
/// consumed too.  On success, the result is the `ExprStart` tree and the
/// position one past the consumed region; on failure, the offset at which
/// a token was missing and which token it was.
pub open spec fn sp_expr(s: Seq<char>, i: int) -> Result<(EGLAst, int), (int, Expected)>
    decreases s.len() - i, 1int,
    via sp_expr_dec
{
    let i1 = ws_end(s, i);
    if i1 + 2 <= s.len() && s[i1] == 'H' && s[i1 + 1] == 'I' {
        let i2 = ws_end(s, i1 + 2);
        if i2 < s.len() && s[i2] == '!' {
            Ok((EGLAst::ExprStart(Box::new(EGLAst::ExprEnd)), ws_end(s, i2 + 1)))
        } else {
            match sp_block(s, i2) {
                Ok((b, i3)) => if i3 < s.len() && s[i3] == '!' {
                    Ok((EGLAst::ExprStart(Box::new(b)), ws_end(s, i3 + 1)))
                } else {
                    Err((i3, Expected::EndMarker))
                },
                Err(e) => Err(e),
            }
        }
    } else {
        Err((i1, Expected::StartKeyword))
    }
}

/// The block rule: optional whitespace, `{`, then either whitespace-only
/// content (a `Blank`) or a nested expression, then `}`, whose trailing
/// whitespace is consumed too.  A nested expression is attempted exactly
/// when the first character after the open delimiter's whitespace is not
/// `}`; this agrees with trying the expression alternative first, since
/// an expression can never begin with `}`.
pub open spec fn sp_block(s: Seq<char>, j: int) -> Result<(EGLAst, int), (int, Expected)>
    decreases s.len() - j, 0int,
    via sp_block_dec
{
    let j1 = ws_end(s, j);
    if j1 < s.len() && s[j1] == '{' {
        let k = ws_end(s, j1 + 1);
        if k < s.len() && s[k] == '}' {
            Ok((EGLAst::ExprBlock(Box::new(EGLAst::Blank)), ws_end(s, k + 1)))
        } else {
            match sp_expr(s, k) {
                Ok((e, m)) => if m < s.len() && s[m] == '}' {
                    Ok((EGLAst::ExprBlock(Box::new(e)), ws_end(s, m + 1)))
                } else {
                    Err((m, Expected::CloseDelimiter))
                },
                Err(err) => Err(err),
            }
        }
    } else {
        Err((j1, Expected::OpenDelimiter))
    }
}

/// The expression rule itself begins by skipping whitespace, so starting
/// it before or after a whitespace run makes no difference.
pub proof fn lemma_sp_expr_at_ws_end(s: Seq<char>, i: int)
    requires
        0 <= i <= s.len(),
    ensures
        sp_expr(s, ws_end(s, i)) == sp_expr(s, i),
{
    lemma_ws_end_nonws(s, i);
    let w = ws_end(s, i);
    lemma_ws_end_point(s, w, w);
    assert(ws_end(s, w) == w);
}

#[via_fn]
proof fn sp_expr_dec(s: Seq<char>, i: int) {
    let i1 = ws_end(s, i);
    if i1 + 2 <= s.len() && s[i1] == 'H' && s[i1 + 1] == 'I' {
        lemma_ws_end_le(s, i1 + 2);
    }
}

#[via_fn]
proof fn sp_block_dec(s: Seq<char>, j: int) {
    let j1 = ws_end(s, j);
    if j1 < s.len() && s[j1] == '{' {
        lemma_ws_end_le(s, j1 + 1);
    }
}

} // verus!
