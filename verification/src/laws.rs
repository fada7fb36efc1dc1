//! The grammar as a generative definition, and the laws that tie it to
//! the parser.
//!
//! `gen_expr` states, independently of the parsing rules, that a string
//! region is one of the programs the grammar derives for a given tree:
//! the token positions are quantified existentially, with arbitrary
//! whitespace runs between tokens.  The laws prove that every such
//! program parses successfully to exactly its generating tree — so the
//! grammar is unambiguous, and inserting whitespace between the tokens
//! of a valid program never changes the parse result; that the tree's
//! depth is the program's delimiter-nesting depth; that, conversely,
//! whatever the parser accepts the grammar derives; and that every tree
//! a successful parse returns is well-formed.

use vstd::prelude::*;

use crate::ast::EGLAst;
use crate::ast::depth;
use crate::ast::wf_expr;
use crate::ast::wf_start_child;
use crate::error::Expected;
use crate::grammar::all_ws;
use crate::grammar::is_whitespace_char;
use crate::grammar::lemma_sp_expr_at_ws_end;
use crate::grammar::lemma_ws_end_all_ws;
use crate::grammar::lemma_ws_end_nonws;
use crate::grammar::lemma_ws_end_point;
use crate::grammar::sp_block;
use crate::grammar::sp_expr;
use crate::grammar::ws_end;

verus! {

/// The grammar derives the region `[i, j)` of `s` as a full expression
/// with tree `t`: arbitrary whitespace, the start keyword, then the rest
/// of the expression, ending exactly at the end marker.
pub open spec fn gen_expr(t: EGLAst, s: Seq<char>, i: int, j: int) -> bool
    decreases t, 2int,
{
    t matches EGLAst::ExprStart(c) && exists|i1: int|
        #![trigger all_ws(s, i, i1)]
        i <= i1 && i1 + 2 <= j <= s.len() && all_ws(s, i, i1) && s[i1] == 'H' && s[i1 + 1] == 'I'
            && gen_tail(*c, s, i1 + 2, j)
}

/// The grammar derives the region `[p, j)` as what follows the start
/// keyword: either whitespace and the end marker, or whitespace, a
/// block, whitespace and the end marker.
pub open spec fn gen_tail(c: EGLAst, s: Seq<char>, p: int, j: int) -> bool
    decreases c, 1int,
{
    match c {
        EGLAst::ExprEnd => p < j && all_ws(s, p, j - 1) && s[j - 1] == '!',
        EGLAst::ExprBlock(_) => exists|a: int, b: int|
            #![trigger gen_block(c, s, a, b)]
            #![trigger all_ws(s, p, a), all_ws(s, b, j - 1)]
            p <= a && a < b && b <= j - 1 && all_ws(s, p, a) && gen_block(c, s, a, b) && all_ws(
                s,
                b,
                j - 1,
            ) && s[j - 1] == '!',
        _ => false,
    }
}

/// The grammar derives the region `[lo, hi)` as a block: the open
/// delimiter, either a nested expression (with surrounding whitespace)
/// or whitespace only, and the close delimiter.
pub open spec fn gen_block(blk: EGLAst, s: Seq<char>, lo: int, hi: int) -> bool
    decreases blk, 0int,
{
    blk matches EGLAst::ExprBlock(inner) && lo + 2 <= hi <= s.len() && s[lo] == '{' && s[hi - 1]
        == '}' && match *inner {
        EGLAst::Blank => all_ws(s, lo + 1, hi - 1),
        EGLAst::ExprStart(_) => exists|d: int|
            #![trigger gen_expr(*inner, s, lo + 1, d)]
            #![trigger all_ws(s, d, hi - 1)]
            lo + 1 <= d <= hi - 1 && gen_expr(*inner, s, lo + 1, d) && all_ws(s, d, hi - 1),
        _ => false,
    }
}

/// None of the grammar's literal tokens is a whitespace character.
proof fn lemma_tokens_not_ws()
    ensures
        !is_whitespace_char('H'),
        !is_whitespace_char('I'),
        !is_whitespace_char('!'),
        !is_whitespace_char('{'),
        !is_whitespace_char('}'),
{
}

/// A region the grammar derives as an expression parses to exactly its
/// generating tree, consuming the region and the whitespace after it.
pub proof fn lemma_gen_expr_parses(t: EGLAst, s: Seq<char>, i: int, j: int)
    requires
        0 <= i,
        gen_expr(t, s, i, j),
    ensures
        sp_expr(s, i) == Ok::<(EGLAst, int), (int, Expected)>((t, ws_end(s, j))),
    decreases t,
{
    lemma_tokens_not_ws();
    match t {
        EGLAst::ExprStart(cb) => {
            let i1 = choose|i1: int|
                #![trigger all_ws(s, i, i1)]
                i <= i1 && i1 + 2 <= j <= s.len() && all_ws(s, i, i1) && s[i1] == 'H' && s[i1 + 1]
                    == 'I' && gen_tail(*cb, s, i1 + 2, j);
            lemma_ws_end_point(s, i, i1);
            let p = i1 + 2;
            match *cb {
                EGLAst::ExprEnd => {
                    lemma_ws_end_point(s, p, j - 1);
                },
                EGLAst::ExprBlock(_) => {
                    let (a, b) = choose|a: int, b: int|
                        #![trigger all_ws(s, p, a), all_ws(s, b, j - 1)]
                        p <= a && a < b && b <= j - 1 && all_ws(s, p, a) && gen_block(
                            *cb,
                            s,
                            a,
                            b,
                        ) && all_ws(s, b, j - 1) && s[j - 1] == '!';
                    lemma_ws_end_point(s, p, a);
                    lemma_gen_block_parses(*cb, s, a, b);
                    lemma_ws_end_point(s, b, j - 1);
                },
                _ => {
                    assert(false);
                },
            }
        },
        _ => {
            assert(false);
        },
    }
}

/// A region the grammar derives as a block parses to exactly its
/// generating tree, consuming the region and the whitespace after it.
pub proof fn lemma_gen_block_parses(blk: EGLAst, s: Seq<char>, lo: int, hi: int)
    requires
        0 <= lo,
        gen_block(blk, s, lo, hi),
    ensures
        sp_block(s, lo) == Ok::<(EGLAst, int), (int, Expected)>((blk, ws_end(s, hi))),
    decreases blk,
{
    lemma_tokens_not_ws();
    match blk {
        EGLAst::ExprBlock(inner) => {
            lemma_ws_end_point(s, lo, lo);
            match *inner {
                EGLAst::Blank => {
                    lemma_ws_end_point(s, lo + 1, hi - 1);
                },
                EGLAst::ExprStart(_) => {
                    let d = choose|d: int|
                        #![trigger all_ws(s, d, hi - 1)]
                        lo + 1 <= d <= hi - 1 && gen_expr(*inner, s, lo + 1, d) && all_ws(
                            s,
                            d,
                            hi - 1,
                        );
                    lemma_gen_expr_parses(*inner, s, lo + 1, d);
                    lemma_sp_expr_at_ws_end(s, lo + 1);
                    let k = ws_end(s, lo + 1);
                    lemma_ws_end_nonws(s, lo + 1);
                    lemma_ws_end_point(s, k, k);
                    // sp_expr(s, k) == sp_expr(s, lo + 1), which succeeded, so the
                    // character at k is the keyword's first, not the close delimiter
                    assert(!(k < s.len() && s[k] == '}'));
                    lemma_ws_end_point(s, d, hi - 1);
                },
                _ => {
                    assert(false);
                },
            }
        },
        _ => {
            assert(false);
        },
    }
}

/// Every program the grammar generates parses successfully, and the
/// parse returns exactly the generating tree — in particular, a tree
/// whose [`crate::ast::depth`] is the program's delimiter-nesting depth,
/// since the generation wraps one `ExprBlock` around the nested tree for
/// each delimiter pair.
pub proof fn lemma_valid_program_parses(t: EGLAst, s: Seq<char>)
    requires
        gen_expr(t, s, 0, s.len() as int),
    ensures
        sp_expr(s, 0) == Ok::<(EGLAst, int), (int, Expected)>((t, s.len() as int)),
{
    lemma_gen_expr_parses(t, s, 0, s.len() as int);
    lemma_ws_end_point(s, s.len() as int, s.len() as int);
}

/// The grammar is unambiguous: a program determines its tree.
pub proof fn lemma_grammar_unambiguous(t1: EGLAst, t2: EGLAst, s: Seq<char>)
    requires
        gen_expr(t1, s, 0, s.len() as int),
        gen_expr(t2, s, 0, s.len() as int),
    ensures
        t1 == t2,
{
    lemma_valid_program_parses(t1, s);
    lemma_valid_program_parses(t2, s);
}

/// Whitespace between tokens is irrelevant: two programs the grammar
/// generates with the same tree — for instance, one obtained from the
/// other by inserting extra whitespace between its tokens — both parse
/// successfully, to that same tree.
pub proof fn lemma_whitespace_insensitive(t: EGLAst, s1: Seq<char>, s2: Seq<char>)
    requires
        gen_expr(t, s1, 0, s1.len() as int),
        gen_expr(t, s2, 0, s2.len() as int),
    ensures
        sp_expr(s1, 0) == Ok::<(EGLAst, int), (int, Expected)>((t, s1.len() as int)),
        sp_expr(s2, 0) == Ok::<(EGLAst, int), (int, Expected)>((t, s2.len() as int)),
{
    lemma_valid_program_parses(t, s1);
    lemma_valid_program_parses(t, s2);
}

/// The number of open delimiters in the region `[i, j)`.  Blocks nest
/// strictly — the grammar derives at most one block per expression — so
/// this is the delimiter-nesting depth of a generated program.
pub open spec fn count_open(s: Seq<char>, i: int, j: int) -> nat
    decreases j - i,
{
    if i < j {
        (if s[i] == '{' {
            1nat
        } else {
            0nat
        }) + count_open(s, i + 1, j)
    } else {
        0
    }
}

/// Counting open delimiters splits over adjacent regions.
proof fn lemma_count_open_split(s: Seq<char>, i: int, k: int, j: int)
    requires
        i <= k <= j,
    ensures
        count_open(s, i, j) == count_open(s, i, k) + count_open(s, k, j),
    decreases k - i,
{
    if i < k {
        lemma_count_open_split(s, i + 1, k, j);
    }
}

/// A region without open delimiters counts none.
proof fn lemma_count_open_zero(s: Seq<char>, i: int, j: int)
    requires
        forall|k: int| i <= k < j ==> s[k] != '{',
    ensures
        count_open(s, i, j) == 0,
    decreases j - i,
{
    if i < j {
        assert(s[i] != '{');
        lemma_count_open_zero(s, i + 1, j);
    }
}

/// A whitespace run holds no open delimiter.
proof fn lemma_count_open_ws(s: Seq<char>, i: int, j: int)
    requires
        all_ws(s, i, j),
    ensures
        count_open(s, i, j) == 0,
{
    lemma_tokens_not_ws();
    assert forall|k: int| i <= k < j implies s[k] != '{' by {
        assert(is_whitespace_char(s[k]));
    }
    lemma_count_open_zero(s, i, j);
}

/// The depth of the tree a derivation generates for an expression equals
/// the number of open delimiters in the derived region.
pub proof fn lemma_gen_expr_depth(t: EGLAst, s: Seq<char>, i: int, j: int)
    requires
        gen_expr(t, s, i, j),
    ensures
        depth(t) == count_open(s, i, j),
    decreases t,
{
    match t {
        EGLAst::ExprStart(cb) => {
            let i1 = choose|i1: int|
                #![trigger all_ws(s, i, i1)]
                i <= i1 && i1 + 2 <= j <= s.len() && all_ws(s, i, i1) && s[i1] == 'H' && s[i1 + 1]
                    == 'I' && gen_tail(*cb, s, i1 + 2, j);
            let p = i1 + 2;
            lemma_count_open_split(s, i, i1, j);
            lemma_count_open_ws(s, i, i1);
            lemma_count_open_split(s, i1, p, j);
            lemma_count_open_zero(s, i1, p);
            match *cb {
                EGLAst::ExprEnd => {
                    lemma_count_open_split(s, p, j - 1, j);
                    lemma_count_open_ws(s, p, j - 1);
                    lemma_count_open_zero(s, j - 1, j);
                    assert(depth(*cb) == 0);
                },
                EGLAst::ExprBlock(_) => {
                    let (a, b) = choose|a: int, b: int|
                        #![trigger all_ws(s, p, a), all_ws(s, b, j - 1)]
                        p <= a && a < b && b <= j - 1 && all_ws(s, p, a) && gen_block(
                            *cb,
                            s,
                            a,
                            b,
                        ) && all_ws(s, b, j - 1) && s[j - 1] == '!';
                    lemma_count_open_split(s, p, a, j);
                    lemma_count_open_ws(s, p, a);
                    lemma_count_open_split(s, a, b, j);
                    lemma_gen_block_depth(*cb, s, a, b);
                    lemma_count_open_split(s, b, j - 1, j);
                    lemma_count_open_ws(s, b, j - 1);
                    lemma_count_open_zero(s, j - 1, j);
                },
                _ => {
                    assert(false);
                },
            }
        },
        _ => {
            assert(false);
        },
    }
}

/// The depth of the tree a derivation generates for a block equals the
/// number of open delimiters in the derived region.
pub proof fn lemma_gen_block_depth(blk: EGLAst, s: Seq<char>, lo: int, hi: int)
    requires
        gen_block(blk, s, lo, hi),
    ensures
        depth(blk) == count_open(s, lo, hi),
    decreases blk,
{
    lemma_tokens_not_ws();
    match blk {
        EGLAst::ExprBlock(inner) => {
            lemma_count_open_split(s, lo, lo + 1, hi);
            assert(count_open(s, lo, lo + 1) == 1);
            match *inner {
                EGLAst::Blank => {
                    lemma_count_open_split(s, lo + 1, hi - 1, hi);
                    lemma_count_open_ws(s, lo + 1, hi - 1);
                    lemma_count_open_zero(s, hi - 1, hi);
                    assert(depth(*inner) == 0);
                },
                EGLAst::ExprStart(_) => {
                    let d = choose|d: int|
                        #![trigger all_ws(s, d, hi - 1)]
                        lo + 1 <= d <= hi - 1 && gen_expr(*inner, s, lo + 1, d) && all_ws(
                            s,
                            d,
                            hi - 1,
                        );
                    lemma_count_open_split(s, lo + 1, d, hi);
                    lemma_gen_expr_depth(*inner, s, lo + 1, d);
                    lemma_count_open_split(s, d, hi - 1, hi);
                    lemma_count_open_ws(s, d, hi - 1);
                    lemma_count_open_zero(s, hi - 1, hi);
                },
                _ => {
                    assert(false);
                },
            }
        },
        _ => {
            assert(false);
        },
    }
}

/// Every program the grammar generates parses successfully to a tree
/// whose depth is the program's delimiter-nesting depth.
pub proof fn lemma_parse_depth(t: EGLAst, s: Seq<char>)
    requires
        gen_expr(t, s, 0, s.len() as int),
    ensures
        sp_expr(s, 0) == Ok::<(EGLAst, int), (int, Expected)>((t, s.len() as int)),
        depth(t) == count_open(s, 0, s.len() as int),
{
    lemma_valid_program_parses(t, s);
    lemma_gen_expr_depth(t, s, 0, s.len() as int);
}

/// A derivation that begins after a whitespace run also begins before
/// it: the run joins the derivation's own leading whitespace.
proof fn lemma_gen_expr_widen_ws(t: EGLAst, s: Seq<char>, x: int, y: int, j: int)
    requires
        x <= y,
        all_ws(s, x, y),
        gen_expr(t, s, y, j),
    ensures
        gen_expr(t, s, x, j),
{
    match t {
        EGLAst::ExprStart(cb) => {
            let i1 = choose|i1: int|
                #![trigger all_ws(s, y, i1)]
                y <= i1 && i1 + 2 <= j <= s.len() && all_ws(s, y, i1) && s[i1] == 'H' && s[i1 + 1]
                    == 'I' && gen_tail(*cb, s, i1 + 2, j);
            assert(all_ws(s, x, i1));
        },
        _ => {
            assert(false);
        },
    }
}

/// Whatever the expression rule accepts, the grammar derives: the
/// accepted region, cut at the end marker, is a generated expression for
/// exactly the returned tree, and the rule consumed only whitespace
/// beyond it.
pub proof fn lemma_sp_expr_sound(s: Seq<char>, i: int)
    requires
        0 <= i <= s.len(),
    ensures
        sp_expr(s, i) matches Ok((t, p)) ==> exists|j: int|
            #![trigger gen_expr(t, s, i, j)]
            gen_expr(t, s, i, j) && i < j <= s.len() && p == ws_end(s, j),
    decreases s.len() - i, 1int,
{
    lemma_tokens_not_ws();
    let i1 = ws_end(s, i);
    lemma_ws_end_nonws(s, i);
    lemma_ws_end_all_ws(s, i);
    if i1 + 2 <= s.len() && s[i1] == 'H' && s[i1 + 1] == 'I' {
        lemma_ws_end_nonws(s, i1 + 2);
        lemma_ws_end_all_ws(s, i1 + 2);
        let i2 = ws_end(s, i1 + 2);
        if i2 < s.len() && s[i2] == '!' {
            let j = i2 + 1;
            assert(gen_tail(EGLAst::ExprEnd, s, i1 + 2, j));
            assert(gen_expr(EGLAst::ExprStart(Box::new(EGLAst::ExprEnd)), s, i, j));
        } else {
            lemma_sp_block_sound(s, i2);
            match sp_block(s, i2) {
                Ok((b, i3)) => {
                    if i3 < s.len() && s[i3] == '!' {
                        let hi = choose|hi: int|
                            #![trigger gen_block(b, s, ws_end(s, i2), hi)]
                            gen_block(b, s, ws_end(s, i2), hi) && ws_end(s, i2) < hi <= s.len()
                                && i3 == ws_end(s, hi);
                        lemma_ws_end_point(s, i2, i2);
                        lemma_ws_end_nonws(s, hi);
                        lemma_ws_end_all_ws(s, hi);
                        let j = i3 + 1;
                        assert(gen_block(b, s, i2, hi));
                        assert(all_ws(s, hi, j - 1));
                        assert(gen_tail(b, s, i1 + 2, j));
                        assert(gen_expr(EGLAst::ExprStart(Box::new(b)), s, i, j));
                    }
                },
                Err(_) => {},
            }
        }
    }
}

/// Whatever the block rule accepts, the grammar derives: the accepted
/// region, cut at the close delimiter, is a generated block for exactly
/// the returned tree, starting at the open delimiter.
pub proof fn lemma_sp_block_sound(s: Seq<char>, j: int)
    requires
        0 <= j <= s.len(),
    ensures
        sp_block(s, j) matches Ok((b, p)) ==> exists|hi: int|
            #![trigger gen_block(b, s, ws_end(s, j), hi)]
            gen_block(b, s, ws_end(s, j), hi) && ws_end(s, j) < hi <= s.len() && p == ws_end(
                s,
                hi,
            ),
    decreases s.len() - j, 0int,
{
    lemma_tokens_not_ws();
    let j1 = ws_end(s, j);
    lemma_ws_end_nonws(s, j);
    if j1 < s.len() && s[j1] == '{' {
        lemma_ws_end_nonws(s, j1 + 1);
        lemma_ws_end_all_ws(s, j1 + 1);
        let k = ws_end(s, j1 + 1);
        if k < s.len() && s[k] == '}' {
            let hi = k + 1;
            assert(gen_block(EGLAst::ExprBlock(Box::new(EGLAst::Blank)), s, j1, hi));
        } else {
            lemma_sp_expr_sound(s, k);
            match sp_expr(s, k) {
                Ok((e, m)) => {
                    if m < s.len() && s[m] == '}' {
                        let d = choose|d: int|
                            #![trigger gen_expr(e, s, k, d)]
                            gen_expr(e, s, k, d) && k < d <= s.len() && m == ws_end(s, d);
                        lemma_gen_expr_widen_ws(e, s, j1 + 1, k, d);
                        lemma_ws_end_nonws(s, d);
                        lemma_ws_end_all_ws(s, d);
                        let hi = m + 1;
                        assert(gen_block(EGLAst::ExprBlock(Box::new(e)), s, j1, hi));
                    }
                },
                Err(_) => {},
            }
        }
    }
}

/// Together with [`lemma_valid_program_parses`], an exact
/// characterization of acceptance: a whole input parses successfully
/// exactly when it is a program the grammar generates followed by
/// whitespace, and the tree returned is that program's.
pub proof fn lemma_parse_sound(s: Seq<char>)
    ensures
        sp_expr(s, 0) matches Ok((t, p)) ==> (p == s.len() ==> exists|j: int|
            #![trigger gen_expr(t, s, 0, j)]
            gen_expr(t, s, 0, j) && 0 < j <= s.len() && all_ws(s, j, s.len() as int)),
{
    lemma_sp_expr_sound(s, 0);
    match sp_expr(s, 0) {
        Ok((t, p)) => {
            if p == s.len() {
                let j = choose|j: int|
                    #![trigger gen_expr(t, s, 0, j)]
                    gen_expr(t, s, 0, j) && 0 < j <= s.len() && p == ws_end(s, j);
                lemma_ws_end_all_ws(s, j);
            }
        },
        Err(_) => {},
    }
}

/// Every tree a successful parse of an expression returns is
/// well-formed: partial shapes never escape the parser.
pub proof fn lemma_sp_expr_wf(s: Seq<char>, i: int)
    requires
        0 <= i <= s.len(),
    ensures
        sp_expr(s, i) matches Ok((t, p)) ==> wf_expr(t),
    decreases s.len() - i, 1int,
{
    let i1 = ws_end(s, i);
    lemma_ws_end_nonws(s, i);
    if i1 + 2 <= s.len() && s[i1] == 'H' && s[i1 + 1] == 'I' {
        lemma_ws_end_nonws(s, i1 + 2);
        let i2 = ws_end(s, i1 + 2);
        if !(i2 < s.len() && s[i2] == '!') {
            lemma_sp_block_wf(s, i2);
        }
    }
}

/// Every tree a successful parse of a block returns is a well-formed
/// child for an `ExprStart` node.
pub proof fn lemma_sp_block_wf(s: Seq<char>, j: int)
    requires
        0 <= j <= s.len(),
    ensures
        sp_block(s, j) matches Ok((b, p)) ==> wf_start_child(b),
    decreases s.len() - j, 0int,
{
    let j1 = ws_end(s, j);
    lemma_ws_end_nonws(s, j);
    if j1 < s.len() && s[j1] == '{' {
        lemma_ws_end_nonws(s, j1 + 1);
        let k = ws_end(s, j1 + 1);
        if !(k < s.len() && s[k] == '}') {
            lemma_sp_expr_wf(s, k);
        }
    }
}

} // verus!
