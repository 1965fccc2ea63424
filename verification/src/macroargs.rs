//! The comma-aware splitter and the small segment grammar for the
//! arguments of a recognized diagnostic macro. The argument token stream
//! is split at top-level commas (nesting is carried by token groups, so a
//! comma inside a nested call or literal never splits), and each segment
//! is read back as one of the recognized expression shapes: a plain
//! (possibly qualified) identifier, a call, a method call, or a
//! reference-taking of a path. Any other segment shape is skipped.

use vstd::prelude::*;
use crate::ast::{
    Delim, Token, TokenView, lemma_view_tokens_index, lemma_view_tokens_len, view_tokens,
};
use crate::model::Span;
use crate::strutil::str_is;

verus! {

/// A macro argument segment, reduced to the recognized expression shapes.
#[derive(Debug)]
pub enum ArgExpr {
    /// A plain (possibly qualified) identifier.
    IdentUse { path: Vec<String>, span: Span },
    /// A call of a path callee.
    CallUse { path: Vec<String>, span: Span },
    /// A method call; only the method name is read.
    MethodUse { name: String },
    /// A reference-taking segment; the referenced path when the operand
    /// is a plain path, else nothing.
    RefUse { target: Option<Vec<String>> },
    /// Not a recognized expression shape.
    Skip,
}

/// Mathematical image of an `ArgExpr`.
#[verifier::ext_equal]
pub enum ArgExprView {
    IdentUse { path: Seq<Seq<char>>, span: Span },
    CallUse { path: Seq<Seq<char>>, span: Span },
    MethodUse { name: Seq<char> },
    RefUse { target: Option<Seq<Seq<char>>> },
    Skip,
}

impl View for ArgExpr {
    type V = ArgExprView;

    open spec fn view(&self) -> ArgExprView {
        match self {
            ArgExpr::IdentUse { path, span } => ArgExprView::IdentUse {
                path: path.deep_view(),
                span: *span,
            },
            ArgExpr::CallUse { path, span } => ArgExprView::CallUse {
                path: path.deep_view(),
                span: *span,
            },
            ArgExpr::MethodUse { name } => ArgExprView::MethodUse { name: name@ },
            ArgExpr::RefUse { target } => ArgExprView::RefUse {
                target: match target {
                    Some(p) => Some(p.deep_view()),
                    None => None,
                },
            },
            ArgExpr::Skip => ArgExprView::Skip,
        }
    }
}

/// Whether a token is the punctuation character `c`.
pub open spec fn spec_is_punct(t: TokenView, c: char) -> bool {
    match t {
        TokenView::Punct { ch } => ch == c,
        _ => false,
    }
}

/// Whether a token is the keyword `mut`.
pub open spec fn spec_is_mut_kw(t: TokenView) -> bool {
    match t {
        TokenView::Ident { name, .. } => name == "mut"@,
        _ => false,
    }
}

/// Whether a token is a parenthesized group.
pub open spec fn spec_is_paren_group(t: TokenView) -> bool {
    match t {
        TokenView::Group { delim, .. } => delim == Delim::Paren,
        _ => false,
    }
}

/// The identifier name a token carries (empty for non-identifiers).
pub open spec fn spec_ident_name(t: TokenView) -> Seq<char> {
    match t {
        TokenView::Ident { name, .. } => name,
        _ => Seq::empty(),
    }
}

/// The index of the first top-level comma at or after `i` (and before
/// `end`), or `end` when there is none.
pub open spec fn spec_seg_end(ts: Seq<TokenView>, i: int, end: int) -> int
    decreases end - i,
{
    if i < 0 || i >= end {
        end
    } else if spec_is_punct(ts[i], ',') {
        i
    } else {
        spec_seg_end(ts, i + 1, end)
    }
}

/// A segment end lies between its start and the stream's end.
pub proof fn lemma_seg_end_range(ts: Seq<TokenView>, i: int, end: int)
    requires
        0 <= i <= end,
    ensures
        i <= spec_seg_end(ts, i, end) <= end,
    decreases end - i,
{
    if i < end && !spec_is_punct(ts[i], ',') {
        lemma_seg_end_range(ts, i + 1, end);
    }
}

/// A path read from the tokens `[i, end)`: the segment names, and the
/// span from the first identifier's start to the last one's end. `None`
/// when the tokens are not exactly `ident (:: ident)*`.
pub open spec fn spec_path_parse(ts: Seq<TokenView>, i: int, end: int) -> Option<
    (Seq<Seq<char>>, Span),
>
    decreases end - i,
{
    if i < 0 || i >= end {
        None
    } else {
        match ts[i] {
            TokenView::Ident { name, span } => {
                if i + 1 == end {
                    Some((seq![name], span))
                } else if i + 2 < end && spec_is_punct(ts[i + 1], ':') && spec_is_punct(
                    ts[i + 2],
                    ':',
                ) {
                    match spec_path_parse(ts, i + 3, end) {
                        Some((rest, rspan)) => Some(
                            (
                                seq![name] + rest,
                                Span {
                                    start_line: span.start_line,
                                    start_col: span.start_col,
                                    end_line: rspan.end_line,
                                    end_col: rspan.end_col,
                                },
                            ),
                        ),
                        None => None,
                    }
                } else {
                    None
                }
            },
            _ => None,
        }
    }
}

/// The recognized shape of the segment `[i, end)`, judged in priority
/// order: a reference-taking (`&`, with an optional `mut`, of whatever
/// follows), a method call (ending `. ident ( .. )`), a call (a path
/// followed by one parenthesized group), a plain path, else nothing.
pub open spec fn spec_parse_segment(ts: Seq<TokenView>, i: int, end: int) -> ArgExprView {
    if i >= end || i < 0 {
        ArgExprView::Skip
    } else if spec_is_punct(ts[i], '&') {
        let rs = if i + 1 < end && spec_is_mut_kw(ts[i + 1]) {
            i + 2
        } else {
            i + 1
        };
        match spec_path_parse(ts, rs, end) {
            Some((p, _)) => ArgExprView::RefUse { target: Some(p) },
            None => ArgExprView::RefUse { target: None },
        }
    } else if end - i >= 3 && spec_is_punct(ts[end - 3], '.') && (ts[end - 2] matches
        TokenView::Ident { .. }) && spec_is_paren_group(ts[end - 1]) {
        ArgExprView::MethodUse { name: spec_ident_name(ts[end - 2]) }
    } else if spec_is_paren_group(ts[end - 1]) {
        match spec_path_parse(ts, i, end - 1) {
            Some((p, sp)) => ArgExprView::CallUse { path: p, span: sp },
            None => ArgExprView::Skip,
        }
    } else {
        match spec_path_parse(ts, i, end) {
            Some((p, sp)) => ArgExprView::IdentUse { path: p, span: sp },
            None => ArgExprView::Skip,
        }
    }
}

/// Whether an exec token is the punctuation character `c`.
fn tok_is_punct(t: &Token, c: char) -> (r: bool)
    ensures
        r == spec_is_punct(t@, c),
{
    match t {
        Token::Punct { ch } => *ch == c,
        _ => false,
    }
}

/// Whether an exec token is the keyword `mut`.
fn tok_is_mut_kw(t: &Token) -> (r: bool)
    ensures
        r == spec_is_mut_kw(t@),
{
    match t {
        Token::Ident { name, .. } => str_is(name, "mut"),
        _ => false,
    }
}

/// Whether an exec token is a parenthesized group.
fn tok_is_paren_group(t: &Token) -> (r: bool)
    ensures
        r == spec_is_paren_group(t@),
{
    match t {
        Token::Group { delim, .. } => match delim {
            Delim::Paren => true,
            _ => false,
        },
        _ => false,
    }
}

/// Finds the end of the segment starting at `i`: the first top-level
/// comma, or `end`.
pub fn seg_end(ts: &Vec<Token>, i: usize, end: usize) -> (r: usize)
    requires
        i <= end,
        end <= ts@.len(),
    ensures
        r == spec_seg_end(view_tokens(ts@), i as int, end as int),
        i <= r <= end,
{
    proof {
        lemma_view_tokens_len(ts@);
    }
    let ghost vts = view_tokens(ts@);
    let mut j = i;
    while j < end
        invariant
            i <= j <= end,
            end <= ts@.len(),
            vts == view_tokens(ts@),
            spec_seg_end(vts, i as int, end as int) == spec_seg_end(vts, j as int, end as int),
        decreases end - j,
    {
        proof {
            lemma_view_tokens_index(ts@, j as int);
        }
        if tok_is_punct(&ts[j], ',') {
            return j;
        }
        j = j + 1;
    }
    end
}

/// Reads the tokens `[i, end)` as a path `ident (:: ident)*`, returning
/// the segment names and the overall span.
pub fn path_parse(ts: &Vec<Token>, i: usize, end: usize) -> (r: Option<(Vec<String>, Span)>)
    requires
        i <= end,
        end <= ts@.len(),
    ensures
        match r {
            Some(p) => spec_path_parse(view_tokens(ts@), i as int, end as int) == Some(
                (p.0.deep_view(), p.1),
            ),
            None => spec_path_parse(view_tokens(ts@), i as int, end as int) is None,
        },
    decreases end - i,
{
    proof {
        lemma_view_tokens_len(ts@);
    }
    if i >= end {
        return None;
    }
    proof {
        lemma_view_tokens_index(ts@, i as int);
    }
    match &ts[i] {
        Token::Ident { name, span } => {
            if i + 1 == end {
                let mut path: Vec<String> = Vec::new();
                path.push(name.clone());
                assert(path.deep_view() =~= seq![name@]);
                Some((path, *span))
            } else {
                proof {
                    if i + 2 < end {
                        lemma_view_tokens_index(ts@, i as int + 1);
                        lemma_view_tokens_index(ts@, i as int + 2);
                    }
                }
                if i + 2 < end && tok_is_punct(&ts[i + 1], ':') && tok_is_punct(&ts[i + 2], ':') {
                    match path_parse(ts, i + 3, end) {
                        Some((rest, rspan)) => {
                            let mut path: Vec<String> = Vec::new();
                            path.push(name.clone());
                            let mut rest = rest;
                            let ghost rest0 = rest.deep_view();
                            path.append(&mut rest);
                            assert(path.deep_view() =~= seq![name@] + rest0);
                            Some(
                                (
                                    path,
                                    Span {
                                        start_line: span.start_line,
                                        start_col: span.start_col,
                                        end_line: rspan.end_line,
                                        end_col: rspan.end_col,
                                    },
                                ),
                            )
                        },
                        None => None,
                    }
                } else {
                    None
                }
            }
        },
        _ => None,
    }
}

/// Reads the segment `[i, end)` as a recognized expression shape.
pub fn parse_segment(ts: &Vec<Token>, i: usize, end: usize) -> (r: ArgExpr)
    requires
        i <= end,
        end <= ts@.len(),
    ensures
        r@ == spec_parse_segment(view_tokens(ts@), i as int, end as int),
{
    proof {
        lemma_view_tokens_len(ts@);
    }
    if i >= end {
        return ArgExpr::Skip;
    }
    proof {
        lemma_view_tokens_index(ts@, i as int);
        lemma_view_tokens_index(ts@, end as int - 1);
        if end - i >= 3 {
            lemma_view_tokens_index(ts@, end as int - 2);
            lemma_view_tokens_index(ts@, end as int - 3);
        }
        if i + 1 < end {
            lemma_view_tokens_index(ts@, i as int + 1);
        }
    }
    if tok_is_punct(&ts[i], '&') {
        let rs = if i + 1 < end && tok_is_mut_kw(&ts[i + 1]) {
            i + 2
        } else {
            i + 1
        };
        match path_parse(ts, rs, end) {
            Some((p, _)) => ArgExpr::RefUse { target: Some(p) },
            None => ArgExpr::RefUse { target: None },
        }
    } else if end - i >= 3 && tok_is_punct(&ts[end - 3], '.') && (matches!(
        &ts[end - 2],
        Token::Ident { .. },
    )) && tok_is_paren_group(&ts[end - 1]) {
        let name = match &ts[end - 2] {
            Token::Ident { name, .. } => name.clone(),
            _ => String::new(),
        };
        ArgExpr::MethodUse { name }
    } else if tok_is_paren_group(&ts[end - 1]) {
        match path_parse(ts, i, end - 1) {
            Some((p, sp)) => ArgExpr::CallUse { path: p, span: sp },
            None => ArgExpr::Skip,
        }
    } else {
        match path_parse(ts, i, end) {
            Some((p, sp)) => ArgExpr::IdentUse { path: p, span: sp },
            None => ArgExpr::Skip,
        }
    }
}

} // verus!
