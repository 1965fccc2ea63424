//! The tree walker: one depth-first pass over the declarations of a
//! parsed source file. Every function and struct declaration is visited;
//! within a function its parameters and body statements, in source order.
//! Entering a function body or a nested block appends a scope frame to
//! the trace and records inner occurrences in that frame, without closing
//! the frame that was current on entry. Every recognized binding or use
//! is handed to the resolver; any other syntax form is skipped with a
//! report and no effect on registry or trace.
//!
//! The whole pass is mirrored, step for step, by spec functions over the
//! mathematical images of the syntax and the state; `syn_parse` returns
//! exactly the state those functions describe.

use vstd::prelude::*;
use crate::ast::{
    Expr, ExprView, FieldDef, FieldDefView, FieldInit, FieldInitView, Item, ItemView, Param,
    ParamView, Stmt, StmtView, Token, TokenView, lemma_view_items_index, lemma_view_items_len,
    lemma_view_stmts_index, lemma_view_stmts_len, lemma_view_tokens_len, view_items, view_stmts,
    view_tokens,
};
use crate::ast::ParamTy;
use crate::classify::{
    classify_let, classify_param, lemma_let_yields_owner, spec_classify_let, spec_classify_param,
    view_opt_expr,
};
use crate::model::Span;
use crate::macroargs::{ArgExpr, ArgExprView, parse_segment, seg_end, spec_parse_segment,
    spec_path_parse, spec_seg_end};
use crate::model::{
    Infoitem, Rap, RapView, Report, ReportView, StackItem, StackItemView, is_struct_instance,
    rap_id, rap_name,
};
use crate::state::{
    Analysis, AnalysisView, a_wf, alloc_rap, arena_extends, has_instance, initial_analysis,
    lemma_non_allo_ledger, lemma_push_frame_ledger, lemma_register_ledger,
    lemma_struct_def_ledger, lemma_struct_field_ledger, lemma_trace_extends_refl,
    lemma_non_allo_unrecorded, lemma_push_frame_unrecorded, lemma_reg_find_push,
    lemma_register_unrecorded,
    lemma_struct_def_unrecorded, lemma_struct_field_unrecorded,
    lemma_trace_extends_trans, lemma_use_path_known, lemma_use_path_self_registers,
    lemma_var_allo_ledger, RegEntryView,
    lemma_var_allo_unrecorded, name_unrecorded, non_allo_insert,
    occs_of, occ_find_from, push_frame, push_report,
    rap_from_arena, reg_find, register_alloc, spec_alloc_rap, spec_non_allo_insert, spec_push_frame,
    spec_push_report, spec_register_alloc, spec_struct_def_insert, spec_struct_field_insert,
    spec_var_allo_insert, struct_def_insert, struct_field_insert, trace_extends, var_allo_insert,
};
use crate::strutil::{path_fmt, spec_path_fmt, str_is};

verus! {

/// The state after classifying one macro argument segment through the
/// use path: a plain identifier or a reference target resolves without
/// synthesizing (an unknown name is an undefined-identifier condition),
/// a call or method call self-registers, and an unrecognized segment is
/// reported and skipped.
pub open spec fn spec_use_arg(a: AnalysisView, frame: int, arg: ArgExprView) -> AnalysisView {
    match arg {
        ArgExprView::IdentUse { path, span } => spec_non_allo_insert(
            a,
            frame,
            spec_path_fmt(path),
            Infoitem::Ident { span },
            false,
        ),
        ArgExprView::CallUse { path, span } => spec_non_allo_insert(
            a,
            frame,
            spec_path_fmt(path),
            Infoitem::Call { span },
            true,
        ),
        ArgExprView::MethodUse { name } => spec_non_allo_insert(
            a,
            frame,
            name,
            Infoitem::MethodCall,
            true,
        ),
        ArgExprView::RefUse { target } => match target {
            Some(p) => spec_non_allo_insert(a, frame, spec_path_fmt(p), Infoitem::Reference, false),
            None => a,
        },
        ArgExprView::Skip => spec_push_report(a, ReportView::MacroArgSkipped),
    }
}

/// The state after classifying every macro argument segment from token
/// index `i` on: each segment runs to the next top-level comma; empty
/// segments are passed over.
pub open spec fn spec_macro_args(ts: Seq<TokenView>, a: AnalysisView, frame: int, i: int) -> AnalysisView
    decreases ts.len() - i,
{
    if i < 0 || i >= ts.len() {
        a
    } else {
        let e = spec_seg_end(ts, i, ts.len() as int);
        if e < i || e > ts.len() {
            a
        } else {
            let a1 = if e > i {
                spec_use_arg(a, frame, spec_parse_segment(ts, i, e))
            } else {
                a
            };
            if e >= ts.len() {
                a1
            } else {
                spec_macro_args(ts, a1, frame, e + 1)
            }
        }
    }
}

/// The state after walking one expression in frame `frame`. A call or
/// method call records a callee use; a reference-taking records a use of
/// its path target, if it has one; a block opens a new frame and walks
/// its statements there; a recognized macro records its own name as a
/// callable and classifies its argument segments; a struct literal has
/// its effect only as a `let` initializer; everything else is reported
/// and skipped.
pub open spec fn spec_parse_expr(e: ExprView, a: AnalysisView, frame: int) -> AnalysisView
    decreases e, 1int,
{
    match e {
        ExprView::Call { path, span } => spec_non_allo_insert(
            a,
            frame,
            spec_path_fmt(path),
            Infoitem::Call { span },
            true,
        ),
        ExprView::MethodCall { name } => spec_non_allo_insert(
            a,
            frame,
            name,
            Infoitem::MethodCall,
            true,
        ),
        ExprView::Reference { target, .. } => match target {
            Some(p) => spec_non_allo_insert(a, frame, spec_path_fmt(p), Infoitem::Reference, false),
            None => a,
        },
        ExprView::Block { stmts } => spec_parse_stmts(
            stmts,
            spec_push_frame(a),
            a.trace.len() as int,
            0,
        ),
        ExprView::StructLit { .. } => a,
        ExprView::MacroCall { name, span, tokens } => {
            if name == "println"@ {
                let a1 = spec_non_allo_insert(a, frame, name, Infoitem::Macro { span }, true);
                let e0 = spec_seg_end(tokens, 0, tokens.len() as int);
                if e0 >= tokens.len() {
                    a1
                } else {
                    spec_macro_args(tokens, a1, frame, e0 + 1)
                }
            } else if name == "assert"@ {
                let a1 = spec_non_allo_insert(a, frame, name, Infoitem::Macro { span }, true);
                spec_macro_args(tokens, a1, frame, 0)
            } else {
                spec_push_report(a, ReportView::Unsupported)
            }
        },
        ExprView::Other => spec_push_report(a, ReportView::Unsupported),
    }
}

/// The state after resolving the struct-literal fields of an instance
/// with id `owner_id` from index `i` on.
pub open spec fn spec_lit_fields(
    fs: Seq<FieldInitView>,
    ty_name: Seq<char>,
    owner_id: usize,
    a: AnalysisView,
    frame: int,
    i: int,
) -> AnalysisView
    decreases fs.len() - i,
{
    if i < 0 || i >= fs.len() {
        a
    } else {
        spec_lit_fields(
            fs,
            ty_name,
            owner_id,
            spec_struct_field_insert(a, frame, ty_name, fs[i].name, fs[i].span, owner_id),
            frame,
            i + 1,
        )
    }
}

/// The state after walking one statement in frame `frame`. A `let`
/// statement reserves its binding's RAP (and id) first, as the
/// classification rules say, then walks its initializer, then registers
/// the binding; a struct-literal initializer additionally resolves each
/// field against the type template, linking member RAPs to the fresh
/// instance.
pub open spec fn spec_parse_stmt(s: StmtView, a: AnalysisView, frame: int) -> AnalysisView
    decreases s, 2int,
{
    match s {
        StmtView::Let { name, is_mut, span, init } => {
            let rap = spec_classify_let(name, is_mut, init, (a.arena.len() + 1) as usize);
            let ar = spec_alloc_rap(a, rap);
            let a1 = match init {
                Some(e) => spec_parse_expr(e, ar, frame),
                None => ar,
            };
            let a2 = spec_register_alloc(a1, frame, Infoitem::Local { span }, rap);
            match init {
                Some(ExprView::StructLit { ty_name, fields }) => spec_lit_fields(
                    fields,
                    ty_name,
                    rap_id(rap),
                    a2,
                    frame,
                    0,
                ),
                _ => a2,
            }
        },
        StmtView::Expr(e) => spec_parse_expr(e, a, frame),
        StmtView::Item(it) => spec_parse_item(it, a, frame),
        StmtView::Other => spec_push_report(a, ReportView::Unsupported),
    }
}

/// The state after walking the statements `ss` from index `i` on.
pub open spec fn spec_parse_stmts(ss: Seq<StmtView>, a: AnalysisView, frame: int, i: int) -> AnalysisView
    decreases ss, 3int, ss.len() - i,
{
    if i < 0 || i >= ss.len() {
        a
    } else {
        spec_parse_stmts(ss, spec_parse_stmt(ss[i], a, frame), frame, i + 1)
    }
}

/// The state after registering the parameters `ps` from index `i` on:
/// each is classified by its declared type shape and allocated.
pub open spec fn spec_parse_params(ps: Seq<ParamView>, a: AnalysisView, frame: int, i: int) -> AnalysisView
    decreases ps.len() - i,
{
    if i < 0 || i >= ps.len() {
        a
    } else {
        let p = ps[i];
        let rap = spec_classify_param(p.name, p.is_mut, p.ty, (a.arena.len() + 1) as usize);
        spec_parse_params(
            ps,
            spec_var_allo_insert(a, frame, Infoitem::FnArg { span: p.span }, rap),
            frame,
            i + 1,
        )
    }
}

/// The state after registering the declared fields `fs` of struct type
/// `ty_name` from index `i` on.
pub open spec fn spec_def_fields(
    fs: Seq<FieldDefView>,
    ty_name: Seq<char>,
    a: AnalysisView,
    frame: int,
    i: int,
) -> AnalysisView
    decreases fs.len() - i,
{
    if i < 0 || i >= fs.len() {
        a
    } else {
        spec_def_fields(
            fs,
            ty_name,
            spec_struct_def_insert(a, frame, ty_name, fs[i].name, fs[i].span),
            frame,
            i + 1,
        )
    }
}

/// The state after walking one item in frame `frame`. A function
/// declaration allocates a `Function` RAP recorded in the current frame,
/// opens a new frame, and registers its parameters and walks its body
/// there. A struct declaration registers its fields in the type template.
pub open spec fn spec_parse_item(it: ItemView, a: AnalysisView, frame: int) -> AnalysisView
    decreases it, 4int,
{
    match it {
        ItemView::Func { name, span, params, body } => {
            let nf = a.trace.len() as int;
            let a1 = spec_push_frame(a);
            let rap = RapView::Function { name, id: (a1.arena.len() + 1) as usize };
            let a2 = spec_var_allo_insert(a1, frame, Infoitem::Func { span }, rap);
            let a3 = spec_parse_params(params, a2, nf, 0);
            spec_parse_stmts(body, a3, nf, 0)
        },
        ItemView::StructDef { ty_name, fields } => spec_def_fields(fields, ty_name, a, frame, 0),
        ItemView::Other => spec_push_report(a, ReportView::Unsupported),
    }
}

/// The state after walking the items `its` from index `i` on.
pub open spec fn spec_parse_items(its: Seq<ItemView>, a: AnalysisView, frame: int, i: int) -> AnalysisView
    decreases its, 5int, its.len() - i,
{
    if i < 0 || i >= its.len() {
        a
    } else {
        spec_parse_items(its, spec_parse_item(its[i], a, frame), frame, i + 1)
    }
}

/// The finished state of one whole analysis run over the top-level items
/// of a source file.
pub open spec fn spec_syn_parse(its: Seq<ItemView>) -> AnalysisView {
    spec_parse_items(its, initial_analysis(), 0, 0)
}

/// Classifying a macro argument segment only appends to the scope
/// trace's ledger.
pub proof fn lemma_use_arg_ledger(a: AnalysisView, frame: int, arg: ArgExprView)
    requires
        0 <= frame < a.trace.len(),
    ensures
        trace_extends(a.trace, spec_use_arg(a, frame, arg).trace),
{
    match arg {
        ArgExprView::IdentUse { path, span } => {
            lemma_non_allo_ledger(a, frame, spec_path_fmt(path), Infoitem::Ident { span }, false);
        },
        ArgExprView::CallUse { path, span } => {
            lemma_non_allo_ledger(a, frame, spec_path_fmt(path), Infoitem::Call { span }, true);
        },
        ArgExprView::MethodUse { name } => {
            lemma_non_allo_ledger(a, frame, name, Infoitem::MethodCall, true);
        },
        ArgExprView::RefUse { target } => {
            match target {
                Some(p) => {
                    lemma_non_allo_ledger(a, frame, spec_path_fmt(p), Infoitem::Reference, false);
                },
                None => {
                    lemma_trace_extends_refl(a.trace);
                },
            }
        },
        ArgExprView::Skip => {
            lemma_trace_extends_refl(a.trace);
        },
    }
}

/// Walking macro argument segments only appends to the ledger.
pub proof fn lemma_macro_args_ledger(ts: Seq<TokenView>, a: AnalysisView, frame: int, i: int)
    requires
        0 <= frame < a.trace.len(),
    ensures
        trace_extends(a.trace, spec_macro_args(ts, a, frame, i).trace),
    decreases ts.len() - i,
{
    if i < 0 || i >= ts.len() {
        lemma_trace_extends_refl(a.trace);
    } else {
        let e = spec_seg_end(ts, i, ts.len() as int);
        if e < i || e > ts.len() {
            lemma_trace_extends_refl(a.trace);
        } else {
            let a1 = if e > i {
                spec_use_arg(a, frame, spec_parse_segment(ts, i, e))
            } else {
                a
            };
            if e > i {
                lemma_use_arg_ledger(a, frame, spec_parse_segment(ts, i, e));
            } else {
                lemma_trace_extends_refl(a.trace);
            }
            if e >= ts.len() {
            } else {
                lemma_macro_args_ledger(ts, a1, frame, e + 1);
                lemma_trace_extends_trans(
                    a.trace,
                    a1.trace,
                    spec_macro_args(ts, a1, frame, e + 1).trace,
                );
            }
        }
    }
}

/// Walking an expression only appends to the ledger: frames and recorded
/// occurrences are never removed.
pub proof fn lemma_expr_ledger(e: ExprView, a: AnalysisView, frame: int)
    requires
        0 <= frame < a.trace.len(),
    ensures
        trace_extends(a.trace, spec_parse_expr(e, a, frame).trace),
    decreases e, 1int,
{
    match e {
        ExprView::Call { path, span } => {
            lemma_non_allo_ledger(a, frame, spec_path_fmt(path), Infoitem::Call { span }, true);
        },
        ExprView::MethodCall { name } => {
            lemma_non_allo_ledger(a, frame, name, Infoitem::MethodCall, true);
        },
        ExprView::Reference { target, .. } => {
            match target {
                Some(p) => {
                    lemma_non_allo_ledger(a, frame, spec_path_fmt(p), Infoitem::Reference, false);
                },
                None => {
                    lemma_trace_extends_refl(a.trace);
                },
            }
        },
        ExprView::Block { stmts } => {
            lemma_push_frame_ledger(a);
            let a1 = spec_push_frame(a);
            lemma_stmts_ledger(stmts, a1, a.trace.len() as int, 0);
            lemma_trace_extends_trans(
                a.trace,
                a1.trace,
                spec_parse_stmts(stmts, a1, a.trace.len() as int, 0).trace,
            );
        },
        ExprView::StructLit { .. } => {
            lemma_trace_extends_refl(a.trace);
        },
        ExprView::MacroCall { name, span, tokens } => {
            if name == "println"@ {
                lemma_non_allo_ledger(a, frame, name, Infoitem::Macro { span }, true);
                let a1 = spec_non_allo_insert(a, frame, name, Infoitem::Macro { span }, true);
                let e0 = spec_seg_end(tokens, 0, tokens.len() as int);
                if e0 >= tokens.len() {
                } else {
                    lemma_macro_args_ledger(tokens, a1, frame, e0 + 1);
                    lemma_trace_extends_trans(
                        a.trace,
                        a1.trace,
                        spec_macro_args(tokens, a1, frame, e0 + 1).trace,
                    );
                }
            } else if name == "assert"@ {
                lemma_non_allo_ledger(a, frame, name, Infoitem::Macro { span }, true);
                let a1 = spec_non_allo_insert(a, frame, name, Infoitem::Macro { span }, true);
                lemma_macro_args_ledger(tokens, a1, frame, 0);
                lemma_trace_extends_trans(
                    a.trace,
                    a1.trace,
                    spec_macro_args(tokens, a1, frame, 0).trace,
                );
            } else {
                lemma_trace_extends_refl(a.trace);
            }
        },
        ExprView::Other => {
            lemma_trace_extends_refl(a.trace);
        },
    }
}

/// Resolving struct-literal fields only appends to the ledger.
pub proof fn lemma_lit_fields_ledger(
    fs: Seq<FieldInitView>,
    ty_name: Seq<char>,
    owner_id: usize,
    a: AnalysisView,
    frame: int,
    i: int,
)
    requires
        0 <= frame < a.trace.len(),
    ensures
        trace_extends(a.trace, spec_lit_fields(fs, ty_name, owner_id, a, frame, i).trace),
    decreases fs.len() - i,
{
    if i < 0 || i >= fs.len() {
        lemma_trace_extends_refl(a.trace);
    } else {
        lemma_struct_field_ledger(a, frame, ty_name, fs[i].name, fs[i].span, owner_id);
        let a1 = spec_struct_field_insert(a, frame, ty_name, fs[i].name, fs[i].span, owner_id);
        lemma_lit_fields_ledger(fs, ty_name, owner_id, a1, frame, i + 1);
        lemma_trace_extends_trans(
            a.trace,
            a1.trace,
            spec_lit_fields(fs, ty_name, owner_id, a1, frame, i + 1).trace,
        );
    }
}

/// Walking a statement only appends to the ledger.
pub proof fn lemma_stmt_ledger(s: StmtView, a: AnalysisView, frame: int)
    requires
        0 <= frame < a.trace.len(),
    ensures
        trace_extends(a.trace, spec_parse_stmt(s, a, frame).trace),
    decreases s, 2int,
{
    match s {
        StmtView::Let { name, is_mut, span, init } => {
            let rap = spec_classify_let(name, is_mut, init, (a.arena.len() + 1) as usize);
            let ar = spec_alloc_rap(a, rap);
            let a1 = match init {
                Some(e) => spec_parse_expr(e, ar, frame),
                None => ar,
            };
            match init {
                Some(e) => {
                    lemma_expr_ledger(e, ar, frame);
                },
                None => {
                    lemma_trace_extends_refl(a.trace);
                },
            }
            lemma_register_ledger(a1, frame, Infoitem::Local { span }, rap);
            let a2 = spec_register_alloc(a1, frame, Infoitem::Local { span }, rap);
            lemma_trace_extends_trans(a.trace, a1.trace, a2.trace);
            match init {
                Some(ExprView::StructLit { ty_name, fields }) => {
                    lemma_lit_fields_ledger(fields, ty_name, rap_id(rap), a2, frame, 0);
                    lemma_trace_extends_trans(
                        a.trace,
                        a2.trace,
                        spec_lit_fields(fields, ty_name, rap_id(rap), a2, frame, 0).trace,
                    );
                },
                _ => {},
            }
        },
        StmtView::Expr(e) => {
            lemma_expr_ledger(e, a, frame);
        },
        StmtView::Item(it) => {
            lemma_item_ledger(it, a, frame);
        },
        StmtView::Other => {
            lemma_trace_extends_refl(a.trace);
        },
    }
}

/// Walking a statement list only appends to the ledger.
pub proof fn lemma_stmts_ledger(ss: Seq<StmtView>, a: AnalysisView, frame: int, i: int)
    requires
        0 <= frame < a.trace.len(),
    ensures
        trace_extends(a.trace, spec_parse_stmts(ss, a, frame, i).trace),
    decreases ss, 3int, ss.len() - i,
{
    if i < 0 || i >= ss.len() {
        lemma_trace_extends_refl(a.trace);
    } else {
        lemma_stmt_ledger(ss[i], a, frame);
        let a1 = spec_parse_stmt(ss[i], a, frame);
        lemma_stmts_ledger(ss, a1, frame, i + 1);
        lemma_trace_extends_trans(a.trace, a1.trace, spec_parse_stmts(ss, a1, frame, i + 1).trace);
    }
}

/// Registering parameters only appends to the ledger.
pub proof fn lemma_params_ledger(ps: Seq<ParamView>, a: AnalysisView, frame: int, i: int)
    requires
        0 <= frame < a.trace.len(),
    ensures
        trace_extends(a.trace, spec_parse_params(ps, a, frame, i).trace),
    decreases ps.len() - i,
{
    if i < 0 || i >= ps.len() {
        lemma_trace_extends_refl(a.trace);
    } else {
        let p = ps[i];
        let rap = spec_classify_param(p.name, p.is_mut, p.ty, (a.arena.len() + 1) as usize);
        lemma_var_allo_ledger(a, frame, Infoitem::FnArg { span: p.span }, rap);
        let a1 = spec_var_allo_insert(a, frame, Infoitem::FnArg { span: p.span }, rap);
        lemma_params_ledger(ps, a1, frame, i + 1);
        lemma_trace_extends_trans(a.trace, a1.trace, spec_parse_params(ps, a1, frame, i + 1).trace);
    }
}

/// Registering declared fields only appends to the ledger.
pub proof fn lemma_def_fields_ledger(
    fs: Seq<FieldDefView>,
    ty_name: Seq<char>,
    a: AnalysisView,
    frame: int,
    i: int,
)
    requires
        0 <= frame < a.trace.len(),
    ensures
        trace_extends(a.trace, spec_def_fields(fs, ty_name, a, frame, i).trace),
    decreases fs.len() - i,
{
    if i < 0 || i >= fs.len() {
        lemma_trace_extends_refl(a.trace);
    } else {
        lemma_struct_def_ledger(a, frame, ty_name, fs[i].name, fs[i].span);
        let a1 = spec_struct_def_insert(a, frame, ty_name, fs[i].name, fs[i].span);
        lemma_def_fields_ledger(fs, ty_name, a1, frame, i + 1);
        lemma_trace_extends_trans(
            a.trace,
            a1.trace,
            spec_def_fields(fs, ty_name, a1, frame, i + 1).trace,
        );
    }
}

/// Walking an item only appends to the ledger.
pub proof fn lemma_item_ledger(it: ItemView, a: AnalysisView, frame: int)
    requires
        0 <= frame < a.trace.len(),
    ensures
        trace_extends(a.trace, spec_parse_item(it, a, frame).trace),
    decreases it, 4int,
{
    match it {
        ItemView::Func { name, span, params, body } => {
            let nf = a.trace.len() as int;
            lemma_push_frame_ledger(a);
            let a1 = spec_push_frame(a);
            let rap = RapView::Function { name, id: (a1.arena.len() + 1) as usize };
            lemma_var_allo_ledger(a1, frame, Infoitem::Func { span }, rap);
            let a2 = spec_var_allo_insert(a1, frame, Infoitem::Func { span }, rap);
            lemma_trace_extends_trans(a.trace, a1.trace, a2.trace);
            lemma_params_ledger(params, a2, nf, 0);
            let a3 = spec_parse_params(params, a2, nf, 0);
            lemma_trace_extends_trans(a.trace, a2.trace, a3.trace);
            lemma_stmts_ledger(body, a3, nf, 0);
            lemma_trace_extends_trans(a.trace, a3.trace, spec_parse_stmts(body, a3, nf, 0).trace);
        },
        ItemView::StructDef { ty_name, fields } => {
            lemma_def_fields_ledger(fields, ty_name, a, frame, 0);
        },
        ItemView::Other => {
            lemma_trace_extends_refl(a.trace);
        },
    }
}

/// Walking an item list only appends to the ledger.
pub proof fn lemma_items_ledger(its: Seq<ItemView>, a: AnalysisView, frame: int, i: int)
    requires
        0 <= frame < a.trace.len(),
    ensures
        trace_extends(a.trace, spec_parse_items(its, a, frame, i).trace),
    decreases its, 5int, its.len() - i,
{
    if i < 0 || i >= its.len() {
        lemma_trace_extends_refl(a.trace);
    } else {
        lemma_item_ledger(its[i], a, frame);
        let a1 = spec_parse_item(its[i], a, frame);
        lemma_items_ledger(its, a1, frame, i + 1);
        lemma_trace_extends_trans(a.trace, a1.trace, spec_parse_items(its, a1, frame, i + 1).trace);
    }
}

/// The scope trace of a whole run is an append-only ledger: it extends
/// the single frame open at pass start, and no step of the traversal
/// ever removes a frame or a recorded occurrence.
pub proof fn lemma_run_ledger(its: Seq<ItemView>)
    ensures
        trace_extends(initial_analysis().trace, spec_syn_parse(its).trace),
{
    lemma_items_ledger(its, initial_analysis(), 0, 0);
}

/// The name, if any, that classifying this macro argument segment would
/// self-register.
pub open spec fn seg_registered_name(arg: ArgExprView) -> Option<Seq<char>> {
    match arg {
        ArgExprView::CallUse { path, .. } => Some(spec_path_fmt(path)),
        ArgExprView::MethodUse { name } => Some(name),
        _ => None,
    }
}

/// No segment of the token stream, wherever the splitter might cut it,
/// would self-register `name`.
pub open spec fn macro_args_avoid(ts: Seq<TokenView>, name: Seq<char>) -> bool {
    forall|i: int, e: int|
        seg_registered_name(#[trigger] spec_parse_segment(ts, i, e)) != Some(name)
}

/// Walking this expression never introduces or self-registers `name`:
/// it is no callee or method name, no struct-literal field, and no
/// recognized macro's name or callee-like macro argument. Reference
/// targets and plain identifier arguments need no condition: an unknown
/// name there is reported, never registered.
pub open spec fn expr_avoids(e: ExprView, name: Seq<char>) -> bool
    decreases e, 1int,
{
    match e {
        ExprView::Call { path, .. } => spec_path_fmt(path) != name,
        ExprView::MethodCall { name: m } => m != name,
        ExprView::Reference { .. } => true,
        ExprView::Block { stmts } => stmts_avoid(stmts, name),
        ExprView::StructLit { fields, .. } => forall|k: int|
            0 <= k < fields.len() ==> (#[trigger] fields[k]).name != name,
        ExprView::MacroCall { name: m, tokens, .. } => m != name && macro_args_avoid(tokens, name),
        ExprView::Other => true,
    }
}

/// Walking this statement never introduces or self-registers `name`.
pub open spec fn stmt_avoids(s: StmtView, name: Seq<char>) -> bool
    decreases s, 2int,
{
    match s {
        StmtView::Let { name: lname, init, .. } => lname != name && match init {
            Some(e) => expr_avoids(e, name),
            None => true,
        },
        StmtView::Expr(e) => expr_avoids(e, name),
        StmtView::Item(it) => item_avoids(it, name),
        StmtView::Other => true,
    }
}

/// No statement of the list introduces or self-registers `name`.
pub open spec fn stmts_avoid(ss: Seq<StmtView>, name: Seq<char>) -> bool
    decreases ss, 3int,
{
    ss.len() == 0 || (stmts_avoid(ss.drop_last(), name) && stmt_avoids(ss.last(), name))
}

/// Walking this item never introduces or self-registers `name`.
pub open spec fn item_avoids(it: ItemView, name: Seq<char>) -> bool
    decreases it, 4int,
{
    match it {
        ItemView::Func { name: fname, params, body, .. } => fname != name && (forall|k: int|
            0 <= k < params.len() ==> (#[trigger] params[k]).name != name) && stmts_avoid(
            body,
            name,
        ),
        ItemView::StructDef { fields, .. } => forall|k: int|
            0 <= k < fields.len() ==> (#[trigger] fields[k]).name != name,
        ItemView::Other => true,
    }
}

/// No item of the list introduces or self-registers `name`.
pub open spec fn items_avoid(its: Seq<ItemView>, name: Seq<char>) -> bool
    decreases its, 5int,
{
    its.len() == 0 || (items_avoid(its.drop_last(), name) && item_avoids(its.last(), name))
}

/// Each statement of an avoiding list avoids.
proof fn lemma_stmts_avoid_index(ss: Seq<StmtView>, name: Seq<char>, k: int)
    requires
        stmts_avoid(ss, name),
        0 <= k < ss.len(),
    ensures
        stmt_avoids(ss[k], name),
    decreases ss.len(),
{
    if k < ss.len() - 1 {
        assert(ss.drop_last()[k] == ss[k]);
        lemma_stmts_avoid_index(ss.drop_last(), name, k);
    }
}

/// Each item of an avoiding list avoids.
proof fn lemma_items_avoid_index(its: Seq<ItemView>, name: Seq<char>, k: int)
    requires
        items_avoid(its, name),
        0 <= k < its.len(),
    ensures
        item_avoids(its[k], name),
    decreases its.len(),
{
    if k < its.len() - 1 {
        assert(its.drop_last()[k] == its[k]);
        lemma_items_avoid_index(its.drop_last(), name, k);
    }
}

/// Classifying a macro argument segment keeps a name it would not
/// self-register unrecorded.
proof fn lemma_use_arg_unrecorded(a: AnalysisView, frame: int, arg: ArgExprView, name: Seq<char>)
    requires
        0 <= frame < a.trace.len(),
        name_unrecorded(a, name),
        seg_registered_name(arg) != Some(name),
    ensures
        name_unrecorded(spec_use_arg(a, frame, arg), name),
        spec_use_arg(a, frame, arg).trace.len() == a.trace.len(),
{
    match arg {
        ArgExprView::IdentUse { path, span } => {
            lemma_non_allo_unrecorded(
                a,
                frame,
                spec_path_fmt(path),
                Infoitem::Ident { span },
                false,
                name,
            );
        },
        ArgExprView::CallUse { path, span } => {
            lemma_non_allo_unrecorded(
                a,
                frame,
                spec_path_fmt(path),
                Infoitem::Call { span },
                true,
                name,
            );
        },
        ArgExprView::MethodUse { name: m } => {
            lemma_non_allo_unrecorded(a, frame, m, Infoitem::MethodCall, true, name);
        },
        ArgExprView::RefUse { target } => {
            match target {
                Some(p) => {
                    lemma_non_allo_unrecorded(
                        a,
                        frame,
                        spec_path_fmt(p),
                        Infoitem::Reference,
                        false,
                        name,
                    );
                },
                None => {},
            }
        },
        ArgExprView::Skip => {},
    }
}

/// Walking macro argument segments keeps an avoided name unrecorded.
proof fn lemma_macro_args_unrecorded(
    ts: Seq<TokenView>,
    a: AnalysisView,
    frame: int,
    i: int,
    name: Seq<char>,
)
    requires
        0 <= frame < a.trace.len(),
        name_unrecorded(a, name),
        macro_args_avoid(ts, name),
    ensures
        name_unrecorded(spec_macro_args(ts, a, frame, i), name),
        spec_macro_args(ts, a, frame, i).trace.len() == a.trace.len(),
    decreases ts.len() - i,
{
    if i < 0 || i >= ts.len() {
    } else {
        let e = spec_seg_end(ts, i, ts.len() as int);
        if e < i || e > ts.len() {
        } else {
            let a1 = if e > i {
                spec_use_arg(a, frame, spec_parse_segment(ts, i, e))
            } else {
                a
            };
            if e > i {
                assert(seg_registered_name(spec_parse_segment(ts, i, e)) != Some(name));
                lemma_use_arg_unrecorded(a, frame, spec_parse_segment(ts, i, e), name);
            }
            if e >= ts.len() {
            } else {
                lemma_macro_args_unrecorded(ts, a1, frame, e + 1, name);
            }
        }
    }
}

/// Walking an expression that avoids `name` keeps it unrecorded.
proof fn lemma_expr_unrecorded(e: ExprView, a: AnalysisView, frame: int, name: Seq<char>)
    requires
        0 <= frame < a.trace.len(),
        name_unrecorded(a, name),
        expr_avoids(e, name),
    ensures
        name_unrecorded(spec_parse_expr(e, a, frame), name),
        spec_parse_expr(e, a, frame).trace.len() >= a.trace.len(),
    decreases e, 1int,
{
    match e {
        ExprView::Call { path, span } => {
            lemma_non_allo_unrecorded(
                a,
                frame,
                spec_path_fmt(path),
                Infoitem::Call { span },
                true,
                name,
            );
        },
        ExprView::MethodCall { name: m } => {
            lemma_non_allo_unrecorded(a, frame, m, Infoitem::MethodCall, true, name);
        },
        ExprView::Reference { target, .. } => {
            match target {
                Some(p) => {
                    lemma_non_allo_unrecorded(
                        a,
                        frame,
                        spec_path_fmt(p),
                        Infoitem::Reference,
                        false,
                        name,
                    );
                },
                None => {},
            }
        },
        ExprView::Block { stmts } => {
            lemma_push_frame_unrecorded(a, name);
            lemma_stmts_unrecorded(stmts, spec_push_frame(a), a.trace.len() as int, 0, name);
        },
        ExprView::StructLit { .. } => {},
        ExprView::MacroCall { name: m, span, tokens } => {
            if m == "println"@ {
                lemma_non_allo_unrecorded(a, frame, m, Infoitem::Macro { span }, true, name);
                let a1 = spec_non_allo_insert(a, frame, m, Infoitem::Macro { span }, true);
                let e0 = spec_seg_end(tokens, 0, tokens.len() as int);
                if e0 >= tokens.len() {
                } else {
                    lemma_macro_args_unrecorded(tokens, a1, frame, e0 + 1, name);
                }
            } else if m == "assert"@ {
                lemma_non_allo_unrecorded(a, frame, m, Infoitem::Macro { span }, true, name);
                let a1 = spec_non_allo_insert(a, frame, m, Infoitem::Macro { span }, true);
                lemma_macro_args_unrecorded(tokens, a1, frame, 0, name);
            } else {
            }
        },
        ExprView::Other => {},
    }
}

/// Resolving struct-literal fields of other names keeps `name`
/// unrecorded.
proof fn lemma_lit_fields_unrecorded(
    fs: Seq<FieldInitView>,
    ty_name: Seq<char>,
    owner_id: usize,
    a: AnalysisView,
    frame: int,
    i: int,
    name: Seq<char>,
)
    requires
        0 <= frame < a.trace.len(),
        name_unrecorded(a, name),
        forall|k: int| 0 <= k < fs.len() ==> (#[trigger] fs[k]).name != name,
    ensures
        name_unrecorded(spec_lit_fields(fs, ty_name, owner_id, a, frame, i), name),
        spec_lit_fields(fs, ty_name, owner_id, a, frame, i).trace.len() == a.trace.len(),
    decreases fs.len() - i,
{
    if i < 0 || i >= fs.len() {
    } else {
        assert(fs[i].name != name);
        lemma_struct_field_unrecorded(a, frame, ty_name, fs[i].name, fs[i].span, owner_id, name);
        let a1 = spec_struct_field_insert(a, frame, ty_name, fs[i].name, fs[i].span, owner_id);
        lemma_lit_fields_unrecorded(fs, ty_name, owner_id, a1, frame, i + 1, name);
    }
}

/// Walking a statement that avoids `name` keeps it unrecorded.
proof fn lemma_stmt_unrecorded(s: StmtView, a: AnalysisView, frame: int, name: Seq<char>)
    requires
        0 <= frame < a.trace.len(),
        name_unrecorded(a, name),
        stmt_avoids(s, name),
    ensures
        name_unrecorded(spec_parse_stmt(s, a, frame), name),
        spec_parse_stmt(s, a, frame).trace.len() >= a.trace.len(),
    decreases s, 2int,
{
    match s {
        StmtView::Let { name: lname, is_mut, span, init } => {
            let rap = spec_classify_let(lname, is_mut, init, (a.arena.len() + 1) as usize);
            assert(rap_name(rap) == lname);
            let ar = spec_alloc_rap(a, rap);
            assert(name_unrecorded(ar, name));
            let a1 = match init {
                Some(e) => spec_parse_expr(e, ar, frame),
                None => ar,
            };
            match init {
                Some(e) => {
                    lemma_expr_unrecorded(e, ar, frame, name);
                },
                None => {},
            }
            lemma_register_unrecorded(a1, frame, Infoitem::Local { span }, rap, name);
            let a2 = spec_register_alloc(a1, frame, Infoitem::Local { span }, rap);
            match init {
                Some(ExprView::StructLit { ty_name, fields }) => {
                    lemma_lit_fields_unrecorded(
                        fields,
                        ty_name,
                        rap_id(rap),
                        a2,
                        frame,
                        0,
                        name,
                    );
                },
                _ => {},
            }
        },
        StmtView::Expr(e) => {
            lemma_expr_unrecorded(e, a, frame, name);
        },
        StmtView::Item(it) => {
            lemma_item_unrecorded(it, a, frame, name);
        },
        StmtView::Other => {},
    }
}

/// Walking a statement list that avoids `name` keeps it unrecorded.
proof fn lemma_stmts_unrecorded(
    ss: Seq<StmtView>,
    a: AnalysisView,
    frame: int,
    i: int,
    name: Seq<char>,
)
    requires
        0 <= frame < a.trace.len(),
        name_unrecorded(a, name),
        stmts_avoid(ss, name),
    ensures
        name_unrecorded(spec_parse_stmts(ss, a, frame, i), name),
        spec_parse_stmts(ss, a, frame, i).trace.len() >= a.trace.len(),
    decreases ss, 3int, ss.len() - i,
{
    if i < 0 || i >= ss.len() {
    } else {
        lemma_stmts_avoid_index(ss, name, i);
        lemma_stmt_unrecorded(ss[i], a, frame, name);
        lemma_stmts_unrecorded(ss, spec_parse_stmt(ss[i], a, frame), frame, i + 1, name);
    }
}

/// Registering parameters of other names keeps `name` unrecorded.
proof fn lemma_params_unrecorded(
    ps: Seq<ParamView>,
    a: AnalysisView,
    frame: int,
    i: int,
    name: Seq<char>,
)
    requires
        0 <= frame < a.trace.len(),
        name_unrecorded(a, name),
        forall|k: int| 0 <= k < ps.len() ==> (#[trigger] ps[k]).name != name,
    ensures
        name_unrecorded(spec_parse_params(ps, a, frame, i), name),
        spec_parse_params(ps, a, frame, i).trace.len() == a.trace.len(),
    decreases ps.len() - i,
{
    if i < 0 || i >= ps.len() {
    } else {
        let p = ps[i];
        let rap = spec_classify_param(p.name, p.is_mut, p.ty, (a.arena.len() + 1) as usize);
        assert(rap_name(rap) == p.name);
        lemma_var_allo_unrecorded(a, frame, Infoitem::FnArg { span: p.span }, rap, name);
        lemma_params_unrecorded(
            ps,
            spec_var_allo_insert(a, frame, Infoitem::FnArg { span: p.span }, rap),
            frame,
            i + 1,
            name,
        );
    }
}

/// Registering declared fields of other names keeps `name` unrecorded.
proof fn lemma_def_fields_unrecorded(
    fs: Seq<FieldDefView>,
    ty_name: Seq<char>,
    a: AnalysisView,
    frame: int,
    i: int,
    name: Seq<char>,
)
    requires
        0 <= frame < a.trace.len(),
        name_unrecorded(a, name),
        forall|k: int| 0 <= k < fs.len() ==> (#[trigger] fs[k]).name != name,
    ensures
        name_unrecorded(spec_def_fields(fs, ty_name, a, frame, i), name),
        spec_def_fields(fs, ty_name, a, frame, i).trace.len() == a.trace.len(),
    decreases fs.len() - i,
{
    if i < 0 || i >= fs.len() {
    } else {
        assert(fs[i].name != name);
        lemma_struct_def_unrecorded(a, frame, ty_name, fs[i].name, fs[i].span, name);
        lemma_def_fields_unrecorded(
            fs,
            ty_name,
            spec_struct_def_insert(a, frame, ty_name, fs[i].name, fs[i].span),
            frame,
            i + 1,
            name,
        );
    }
}

/// Walking an item that avoids `name` keeps it unrecorded.
proof fn lemma_item_unrecorded(it: ItemView, a: AnalysisView, frame: int, name: Seq<char>)
    requires
        0 <= frame < a.trace.len(),
        name_unrecorded(a, name),
        item_avoids(it, name),
    ensures
        name_unrecorded(spec_parse_item(it, a, frame), name),
        spec_parse_item(it, a, frame).trace.len() >= a.trace.len(),
    decreases it, 4int,
{
    match it {
        ItemView::Func { name: fname, span, params, body } => {
            let nf = a.trace.len() as int;
            lemma_push_frame_unrecorded(a, name);
            let a1 = spec_push_frame(a);
            let rap = RapView::Function { name: fname, id: (a1.arena.len() + 1) as usize };
            lemma_var_allo_unrecorded(a1, frame, Infoitem::Func { span }, rap, name);
            let a2 = spec_var_allo_insert(a1, frame, Infoitem::Func { span }, rap);
            lemma_params_unrecorded(params, a2, nf, 0, name);
            let a3 = spec_parse_params(params, a2, nf, 0);
            lemma_stmts_unrecorded(body, a3, nf, 0, name);
        },
        ItemView::StructDef { ty_name, fields } => {
            lemma_def_fields_unrecorded(fields, ty_name, a, frame, 0, name);
        },
        ItemView::Other => {},
    }
}

/// Walking an item list that avoids `name` keeps it unrecorded.
proof fn lemma_items_unrecorded(
    its: Seq<ItemView>,
    a: AnalysisView,
    frame: int,
    i: int,
    name: Seq<char>,
)
    requires
        0 <= frame < a.trace.len(),
        name_unrecorded(a, name),
        items_avoid(its, name),
    ensures
        name_unrecorded(spec_parse_items(its, a, frame, i), name),
        spec_parse_items(its, a, frame, i).trace.len() >= a.trace.len(),
    decreases its, 5int, its.len() - i,
{
    if i < 0 || i >= its.len() {
    } else {
        lemma_items_avoid_index(its, name, i);
        lemma_item_unrecorded(its[i], a, frame, name);
        lemma_items_unrecorded(its, spec_parse_item(its[i], a, frame), frame, i + 1, name);
    }
}

/// A run over a file that never introduces `name` — no binding,
/// parameter, declared or initialized field, callee, method or
/// recognized macro of that name — ends with no identity and no recorded
/// occurrence for it in any frame, however often the file refers to it:
/// each such reference only adds an undefined-identifier report (see the
/// use path's laws) and the rest of the file is analyzed normally.
pub proof fn lemma_run_unbound_unrecorded(its: Seq<ItemView>, name: Seq<char>)
    requires
        items_avoid(its, name),
    ensures
        ({
            let t = spec_syn_parse(its);
            &&& reg_find(t.registry, name) is None
            &&& forall|f: int| 0 <= f < t.trace.len() ==> occs_of(t.trace, f, name).len() == 0
        }),
{
    let a0 = initial_analysis();
    assert(reg_find(a0.registry, name) is None);
    assert forall|f: int| 0 <= f < a0.trace.len() implies occs_of(a0.trace, f, name).len()
        == 0 by {
        assert(occ_find_from(a0.trace[0].entries, name, 0) is None);
    }
    lemma_items_unrecorded(its, a0, 0, 0, name);
}

/// A recognized diagnostic macro resolves its own name through the use
/// path first — registering a `Function` RAP for it when the name is
/// unknown, and recording exactly one occurrence for it (see the use
/// path's own laws) — and only then splits and classifies its argument
/// segments: for the formatted-print macro the first segment (the format
/// string) is discarded, for the assertion macro every segment is
/// classified.
pub proof fn lemma_recognized_macro(
    a: AnalysisView,
    frame: int,
    name: Seq<char>,
    span: Span,
    tokens: Seq<TokenView>,
)
    requires
        name == "println"@ || name == "assert"@,
    ensures
        ({
            let a1 = spec_non_allo_insert(a, frame, name, Infoitem::Macro { span }, true);
            spec_parse_expr(ExprView::MacroCall { name, span, tokens }, a, frame) == if name
                == "println"@ {
                let e0 = spec_seg_end(tokens, 0, tokens.len() as int);
                if e0 >= tokens.len() {
                    a1
                } else {
                    spec_macro_args(tokens, a1, frame, e0 + 1)
                }
            } else {
                spec_macro_args(tokens, a1, frame, 0)
            }
        }),
{
    reveal_strlit("println");
    reveal_strlit("assert");
}

/// A macro-argument identifier already bound in the registry acquires
/// exactly one new use occurrence in the current frame, resolving to the
/// most recent RAP of its chain; no registry entry, allocation or report
/// is added for it.
pub proof fn lemma_macro_arg_ident_use(
    a: AnalysisView,
    frame: int,
    path: Seq<Seq<char>>,
    span: Span,
    i: int,
)
    requires
        0 <= frame < a.trace.len(),
        reg_find(a.registry, spec_path_fmt(path)) == Some(i),
    ensures
        ({
            let name = spec_path_fmt(path);
            let t = spec_use_arg(a, frame, ArgExprView::IdentUse { path, span });
            let occ = StackItemView {
                info: Infoitem::Ident { span },
                rap: a.registry[i].raps.last(),
            };
            &&& t.registry == a.registry
            &&& t.arena == a.arena
            &&& t.reports == a.reports
            &&& occs_of(t.trace, frame, name) =~= occs_of(a.trace, frame, name).push(occ)
        }),
{
    lemma_use_path_known(a, frame, spec_path_fmt(path), Infoitem::Ident { span }, false, i);
}

/// The formatted-print macro over two prior bindings: walking
/// `println!("..", a, b)` with `a` and `b` bound in the registry gives
/// each of them exactly one new use occurrence in the current frame,
/// resolving to the most recent RAP of its chain; neither name gains a
/// registry entry nor changes its chain, and the macro's own name is
/// resolved as a callable through the use path.
pub proof fn lemma_println_ident_args(
    a: AnalysisView,
    frame: int,
    span: Span,
    na: Seq<char>,
    sa: Span,
    nb: Seq<char>,
    sb: Span,
    ia: int,
    ib: int,
)
    requires
        0 <= frame < a.trace.len(),
        reg_find(a.registry, na) == Some(ia),
        reg_find(a.registry, nb) == Some(ib),
        na != nb,
        na != "println"@,
        nb != "println"@,
    ensures
        ({
            let ts = seq![
                TokenView::Literal,
                TokenView::Punct { ch: ',' },
                TokenView::Ident { name: na, span: sa },
                TokenView::Punct { ch: ',' },
                TokenView::Ident { name: nb, span: sb },
            ];
            let t = spec_parse_expr(
                ExprView::MacroCall { name: "println"@, span, tokens: ts },
                a,
                frame,
            );
            &&& reg_find(t.registry, na) == Some(ia) && t.registry[ia] == a.registry[ia]
            &&& reg_find(t.registry, nb) == Some(ib) && t.registry[ib] == a.registry[ib]
            &&& occs_of(t.trace, frame, na) =~= occs_of(a.trace, frame, na).push(
                StackItemView {
                    info: Infoitem::Ident { span: sa },
                    rap: a.registry[ia].raps.last(),
                },
            )
            &&& occs_of(t.trace, frame, nb) =~= occs_of(a.trace, frame, nb).push(
                StackItemView {
                    info: Infoitem::Ident { span: sb },
                    rap: a.registry[ib].raps.last(),
                },
            )
        }),
{
    let ts = seq![
        TokenView::Literal,
        TokenView::Punct { ch: ',' },
        TokenView::Ident { name: na, span: sa },
        TokenView::Punct { ch: ',' },
        TokenView::Ident { name: nb, span: sb },
    ];
    let m = "println"@;
    crate::state::lemma_reg_find_from_range(a.registry, na, 0);
    crate::state::lemma_reg_find_from_range(a.registry, nb, 0);
    // where the splitter cuts, and what the segments read as
    assert(spec_seg_end(ts, 5, 5) == 5);
    assert(spec_seg_end(ts, 4, 5) == 5);
    assert(spec_seg_end(ts, 3, 5) == 3);
    assert(spec_seg_end(ts, 2, 5) == 3);
    assert(spec_seg_end(ts, 1, 5) == 1);
    assert(spec_seg_end(ts, 0, 5) == 1);
    assert(spec_path_parse(ts, 2, 3) == Some((seq![na], sa)));
    assert(spec_parse_segment(ts, 2, 3) == (ArgExprView::IdentUse { path: seq![na], span: sa }));
    assert(spec_path_parse(ts, 4, 5) == Some((seq![nb], sb)));
    assert(spec_parse_segment(ts, 4, 5) == (ArgExprView::IdentUse { path: seq![nb], span: sb }));
    assert(spec_path_fmt(seq![na]) == na);
    assert(spec_path_fmt(seq![nb]) == nb);
    // the macro name resolves first; the bindings' entries survive it
    lemma_recognized_macro(a, frame, m, span, ts);
    let a1 = spec_non_allo_insert(a, frame, m, Infoitem::Macro { span }, true);
    match reg_find(a.registry, m) {
        Some(im) => {
            lemma_use_path_known(a, frame, m, Infoitem::Macro { span }, true, im);
            assert(a1.registry == a.registry);
        },
        None => {
            lemma_use_path_self_registers(a, frame, m, Infoitem::Macro { span });
            let entry = RegEntryView {
                name: m,
                raps: seq![
                    RapView::Function { name: m, id: (a.arena.len() + 1) as usize }
                ],
            };
            assert(a1.registry =~~= a.registry.push(entry));
            lemma_reg_find_push(a.registry, entry, na, 0);
            lemma_reg_find_push(a.registry, entry, nb, 0);
        },
    }
    assert(reg_find(a1.registry, na) == Some(ia) && a1.registry[ia] == a.registry[ia]);
    assert(reg_find(a1.registry, nb) == Some(ib) && a1.registry[ib] == a.registry[ib]);
    assert(occs_of(a1.trace, frame, na) =~= occs_of(a.trace, frame, na));
    assert(occs_of(a1.trace, frame, nb) =~= occs_of(a.trace, frame, nb));
    // the first argument segment records a use of `na`
    let arg1 = ArgExprView::IdentUse { path: seq![na], span: sa };
    lemma_use_path_known(a1, frame, na, Infoitem::Ident { span: sa }, false, ia);
    let a2 = spec_use_arg(a1, frame, arg1);
    assert(a2 == spec_non_allo_insert(a1, frame, na, Infoitem::Ident { span: sa }, false));
    assert(occs_of(a2.trace, frame, nb) =~= occs_of(a1.trace, frame, nb));
    // the second argument segment records a use of `nb`
    let arg2 = ArgExprView::IdentUse { path: seq![nb], span: sb };
    lemma_use_path_known(a2, frame, nb, Infoitem::Ident { span: sb }, false, ib);
    let a3 = spec_use_arg(a2, frame, arg2);
    assert(a3 == spec_non_allo_insert(a2, frame, nb, Infoitem::Ident { span: sb }, false));
    assert(occs_of(a3.trace, frame, na) =~= occs_of(a2.trace, frame, na));
    // the whole expression is exactly these three steps
    assert(spec_macro_args(ts, a2, frame, 4) == a3);
    assert(spec_macro_args(ts, a1, frame, 2) == a3);
    assert(spec_parse_expr(ExprView::MacroCall { name: m, span, tokens: ts }, a, frame) == a3);
}

/// A `let` statement without a reference-taking initializer and without
/// a struct-literal initializer allocates exactly one RAP for its
/// binding: an `Owner` whose mutability is the binding's own qualifier,
/// reserved with the next id before the initializer is walked and
/// registered right after it.
pub proof fn lemma_let_stmt_allocates_owner(
    name: Seq<char>,
    is_mut: bool,
    span: Span,
    init: Option<ExprView>,
    a: AnalysisView,
    frame: int,
)
    requires
        !(init matches Some(ExprView::Reference { .. })),
        !(init matches Some(ExprView::StructLit { .. })),
    ensures
        ({
            let owner = RapView::Owner { name, id: (a.arena.len() + 1) as usize, is_mut };
            let a1 = match init {
                Some(e) => spec_parse_expr(e, spec_alloc_rap(a, owner), frame),
                None => spec_alloc_rap(a, owner),
            };
            spec_parse_stmt(StmtView::Let { name, is_mut, span, init }, a, frame)
                == spec_register_alloc(a1, frame, Infoitem::Local { span }, owner)
        }),
{
    lemma_let_yields_owner(name, is_mut, init, (a.arena.len() + 1) as usize);
}

/// One parameter step of the walker allocates exactly one RAP for the
/// parameter, classified by its declared type shape: a plain type gives
/// an `Owner`, an immutable reference type a `StaticRef`, a mutable
/// reference type a `MutRef`, each keeping the binding's own mutability.
pub proof fn lemma_param_step_allocates(ps: Seq<ParamView>, a: AnalysisView, frame: int, i: int)
    requires
        0 <= i < ps.len(),
    ensures
        ({
            let p = ps[i];
            let rap = spec_classify_param(p.name, p.is_mut, p.ty, (a.arena.len() + 1) as usize);
            &&& spec_parse_params(ps, a, frame, i) == spec_parse_params(
                ps,
                spec_var_allo_insert(a, frame, Infoitem::FnArg { span: p.span }, rap),
                frame,
                i + 1,
            )
            &&& (p.ty == ParamTy::Plain ==> rap == (RapView::Owner {
                name: p.name,
                id: (a.arena.len() + 1) as usize,
                is_mut: p.is_mut,
            }))
            &&& (p.ty == ParamTy::Ref ==> rap == (RapView::StaticRef {
                name: p.name,
                id: (a.arena.len() + 1) as usize,
                is_mut: p.is_mut,
            }))
            &&& (p.ty == ParamTy::RefMut ==> rap == (RapView::MutRef {
                name: p.name,
                id: (a.arena.len() + 1) as usize,
                is_mut: p.is_mut,
            }))
        }),
{
}

/// Classifies one parsed macro argument segment through the use path.
fn use_arg(arg: &ArgExpr, ctx: &mut Analysis, frame: usize)
    requires
        a_wf(old(ctx)@),
        frame < old(ctx)@.trace.len(),
    ensures
        final(ctx)@ == spec_use_arg(old(ctx)@, frame as int, arg@),
        a_wf(final(ctx)@),
        arena_extends(old(ctx)@.arena, final(ctx)@.arena),
        final(ctx)@.trace.len() >= old(ctx)@.trace.len(),
{
    match arg {
        ArgExpr::IdentUse { path, span } => {
            let name = path_fmt(path);
            non_allo_insert(ctx, frame, &name, Infoitem::Ident { span: *span }, false);
        },
        ArgExpr::CallUse { path, span } => {
            let name = path_fmt(path);
            non_allo_insert(ctx, frame, &name, Infoitem::Call { span: *span }, true);
        },
        ArgExpr::MethodUse { name } => {
            non_allo_insert(ctx, frame, name, Infoitem::MethodCall, true);
        },
        ArgExpr::RefUse { target } => {
            match target {
                Some(p) => {
                    let name = path_fmt(p);
                    non_allo_insert(ctx, frame, &name, Infoitem::Reference, false);
                },
                None => {},
            }
        },
        ArgExpr::Skip => {
            push_report(ctx, Report::MacroArgSkipped);
        },
    }
}

/// Splits a recognized macro's argument tokens into segments from index
/// `i` on and classifies each.
fn macro_args(ts: &Vec<Token>, ctx: &mut Analysis, frame: usize, i: usize)
    requires
        a_wf(old(ctx)@),
        frame < old(ctx)@.trace.len(),
        i <= ts@.len(),
    ensures
        final(ctx)@ == spec_macro_args(view_tokens(ts@), old(ctx)@, frame as int, i as int),
        a_wf(final(ctx)@),
        arena_extends(old(ctx)@.arena, final(ctx)@.arena),
        final(ctx)@.trace.len() >= old(ctx)@.trace.len(),
    decreases ts@.len() - i,
{
    proof {
        lemma_view_tokens_len(ts@);
    }
    if i >= ts.len() {
        return ;
    }
    let e = seg_end(ts, i, ts.len());
    if e > i {
        let seg = parse_segment(ts, i, e);
        use_arg(&seg, ctx, frame);
    }
    if e < ts.len() {
        macro_args(ts, ctx, frame, e + 1);
    }
}

/// Walks one expression.
pub fn parse_expr(e: &Expr, ctx: &mut Analysis, frame: usize)
    requires
        a_wf(old(ctx)@),
        frame < old(ctx)@.trace.len(),
    ensures
        final(ctx)@ == spec_parse_expr(e@, old(ctx)@, frame as int),
        a_wf(final(ctx)@),
        arena_extends(old(ctx)@.arena, final(ctx)@.arena),
        final(ctx)@.trace.len() >= old(ctx)@.trace.len(),
    decreases *e,
{
    match e {
        Expr::Call { path, span } => {
            let name = path_fmt(path);
            non_allo_insert(ctx, frame, &name, Infoitem::Call { span: *span }, true);
        },
        Expr::MethodCall { name } => {
            non_allo_insert(ctx, frame, name, Infoitem::MethodCall, true);
        },
        Expr::Reference { target, .. } => {
            match target {
                Some(p) => {
                    let name = path_fmt(p);
                    non_allo_insert(ctx, frame, &name, Infoitem::Reference, false);
                },
                None => {},
            }
        },
        Expr::Block { stmts } => {
            let nf = push_frame(ctx);
            parse_stmts(stmts, ctx, nf);
        },
        Expr::StructLit { .. } => {},
        Expr::MacroCall { name, span, tokens } => {
            if str_is(name, "println") {
                non_allo_insert(ctx, frame, name, Infoitem::Macro { span: *span }, true);
                proof {
                    lemma_view_tokens_len(tokens@);
                }
                let e0 = seg_end(tokens, 0, tokens.len());
                if e0 < tokens.len() {
                    macro_args(tokens, ctx, frame, e0 + 1);
                }
            } else if str_is(name, "assert") {
                non_allo_insert(ctx, frame, name, Infoitem::Macro { span: *span }, true);
                macro_args(tokens, ctx, frame, 0);
            } else {
                push_report(ctx, Report::Unsupported);
            }
        },
        Expr::Other => {
            push_report(ctx, Report::Unsupported);
        },
    }
}

/// Resolves the struct-literal fields of a freshly allocated instance
/// against the aggregate type template.
fn lit_fields(
    fields: &Vec<FieldInit>,
    ty_name: &String,
    owner_id: usize,
    ctx: &mut Analysis,
    frame: usize,
)
    requires
        a_wf(old(ctx)@),
        frame < old(ctx)@.trace.len(),
        has_instance(old(ctx)@.arena, owner_id),
    ensures
        final(ctx)@ == spec_lit_fields(
            fields.deep_view(),
            ty_name@,
            owner_id,
            old(ctx)@,
            frame as int,
            0,
        ),
        a_wf(final(ctx)@),
        arena_extends(old(ctx)@.arena, final(ctx)@.arena),
        final(ctx)@.trace.len() >= old(ctx)@.trace.len(),
{
    let ghost a0 = ctx@;
    let ghost fs = fields.deep_view();
    let mut k: usize = 0;
    while k < fields.len()
        invariant
            k <= fields@.len(),
            fs == fields.deep_view(),
            fs.len() == fields@.len(),
            a_wf(ctx@),
            frame < ctx@.trace.len(),
            has_instance(ctx@.arena, owner_id),
            arena_extends(a0.arena, ctx@.arena),
            ctx@.trace.len() >= a0.trace.len(),
            spec_lit_fields(fs, ty_name@, owner_id, a0, frame as int, 0) == spec_lit_fields(
                fs,
                ty_name@,
                owner_id,
                ctx@,
                frame as int,
                k as int,
            ),
        decreases fields@.len() - k,
    {
        assert(fs[k as int] == fields@[k as int]@);
        let ghost pre = ctx@.arena;
        struct_field_insert(
            ctx,
            frame,
            ty_name,
            &fields[k].name,
            fields[k].span,
            owner_id,
        );
        proof {
            crate::state::lemma_has_instance_extends(pre, ctx@.arena, owner_id);
        }
        k = k + 1;
    }
}

/// Walks one statement.
pub fn parse_stmt(s: &Stmt, ctx: &mut Analysis, frame: usize)
    requires
        a_wf(old(ctx)@),
        frame < old(ctx)@.trace.len(),
    ensures
        final(ctx)@ == spec_parse_stmt(s@, old(ctx)@, frame as int),
        a_wf(final(ctx)@),
        arena_extends(old(ctx)@.arena, final(ctx)@.arena),
        final(ctx)@.trace.len() >= old(ctx)@.trace.len(),
    decreases *s,
{
    match s {
        Stmt::Let { name, is_mut, span, init } => {
            let id = ctx.next_id();
            let rap = classify_let(name, *is_mut, init, id);
            let ghost rapv = rap@;
            let rap2 = rap.dup();
            alloc_rap(ctx, rap);
            match init {
                Some(e) => parse_expr(e, ctx, frame),
                None => {},
            }
            proof {
                assert(ctx@.arena[rap_id(rapv) - 1] == rapv);
                assert(rap_from_arena(ctx@.arena, rapv));
            }
            register_alloc(ctx, frame, Infoitem::Local { span: *span }, rap2);
            if let Some(Expr::StructLit { ty_name, fields }) = init {
                proof {
                    assert(is_struct_instance(rapv));
                    assert(ctx@.arena[rap_id(rapv) - 1] == rapv);
                    assert(has_instance(ctx@.arena, id));
                }
                lit_fields(fields, ty_name, id, ctx, frame);
            }
        },
        Stmt::Expr(e) => {
            parse_expr(e, ctx, frame);
        },
        Stmt::Item(it) => {
            parse_item(it, ctx, frame);
        },
        Stmt::Other => {
            push_report(ctx, Report::Unsupported);
        },
    }
}

/// Walks a statement list in source order.
pub fn parse_stmts(stmts: &Vec<Stmt>, ctx: &mut Analysis, frame: usize)
    requires
        a_wf(old(ctx)@),
        frame < old(ctx)@.trace.len(),
    ensures
        final(ctx)@ == spec_parse_stmts(view_stmts(stmts@), old(ctx)@, frame as int, 0),
        a_wf(final(ctx)@),
        arena_extends(old(ctx)@.arena, final(ctx)@.arena),
        final(ctx)@.trace.len() >= old(ctx)@.trace.len(),
    decreases stmts@,
{
    let ghost a0 = ctx@;
    let ghost ss = view_stmts(stmts@);
    proof {
        lemma_view_stmts_len(stmts@);
    }
    let mut k: usize = 0;
    while k < stmts.len()
        invariant
            k <= stmts@.len(),
            ss == view_stmts(stmts@),
            ss.len() == stmts@.len(),
            a_wf(ctx@),
            frame < ctx@.trace.len(),
            arena_extends(a0.arena, ctx@.arena),
            ctx@.trace.len() >= a0.trace.len(),
            spec_parse_stmts(ss, a0, frame as int, 0) == spec_parse_stmts(
                ss,
                ctx@,
                frame as int,
                k as int,
            ),
        decreases stmts@.len() - k,
    {
        proof {
            lemma_view_stmts_index(stmts@, k as int);
            assert(decreases_to!(stmts@ => stmts@[k as int]));
        }
        parse_stmt(&stmts[k], ctx, frame);
        k = k + 1;
    }
}

/// Registers a function's parameters, in order, in frame `frame`.
fn parse_params(params: &Vec<Param>, ctx: &mut Analysis, frame: usize)
    requires
        a_wf(old(ctx)@),
        frame < old(ctx)@.trace.len(),
    ensures
        final(ctx)@ == spec_parse_params(params.deep_view(), old(ctx)@, frame as int, 0),
        a_wf(final(ctx)@),
        arena_extends(old(ctx)@.arena, final(ctx)@.arena),
        final(ctx)@.trace.len() >= old(ctx)@.trace.len(),
{
    let ghost a0 = ctx@;
    let ghost ps = params.deep_view();
    let mut k: usize = 0;
    while k < params.len()
        invariant
            k <= params@.len(),
            ps == params.deep_view(),
            ps.len() == params@.len(),
            a_wf(ctx@),
            frame < ctx@.trace.len(),
            arena_extends(a0.arena, ctx@.arena),
            ctx@.trace.len() >= a0.trace.len(),
            spec_parse_params(ps, a0, frame as int, 0) == spec_parse_params(
                ps,
                ctx@,
                frame as int,
                k as int,
            ),
        decreases params@.len() - k,
    {
        assert(ps[k as int] == params@[k as int]@);
        let p = &params[k];
        let id = ctx.next_id();
        let rap = classify_param(&p.name, p.is_mut, p.ty, id);
        var_allo_insert(ctx, frame, Infoitem::FnArg { span: p.span }, rap);
        k = k + 1;
    }
}

/// Registers a struct declaration's fields in the type template.
fn def_fields(fields: &Vec<FieldDef>, ty_name: &String, ctx: &mut Analysis, frame: usize)
    requires
        a_wf(old(ctx)@),
        frame < old(ctx)@.trace.len(),
    ensures
        final(ctx)@ == spec_def_fields(fields.deep_view(), ty_name@, old(ctx)@, frame as int, 0),
        a_wf(final(ctx)@),
        arena_extends(old(ctx)@.arena, final(ctx)@.arena),
        final(ctx)@.trace.len() >= old(ctx)@.trace.len(),
{
    let ghost a0 = ctx@;
    let ghost fs = fields.deep_view();
    let mut k: usize = 0;
    while k < fields.len()
        invariant
            k <= fields@.len(),
            fs == fields.deep_view(),
            fs.len() == fields@.len(),
            a_wf(ctx@),
            frame < ctx@.trace.len(),
            arena_extends(a0.arena, ctx@.arena),
            ctx@.trace.len() >= a0.trace.len(),
            spec_def_fields(fs, ty_name@, a0, frame as int, 0) == spec_def_fields(
                fs,
                ty_name@,
                ctx@,
                frame as int,
                k as int,
            ),
        decreases fields@.len() - k,
    {
        assert(fs[k as int] == fields@[k as int]@);
        struct_def_insert(ctx, frame, ty_name, &fields[k].name, fields[k].span);
        k = k + 1;
    }
}

/// Walks one item declaration.
pub fn parse_item(it: &Item, ctx: &mut Analysis, frame: usize)
    requires
        a_wf(old(ctx)@),
        frame < old(ctx)@.trace.len(),
    ensures
        final(ctx)@ == spec_parse_item(it@, old(ctx)@, frame as int),
        a_wf(final(ctx)@),
        arena_extends(old(ctx)@.arena, final(ctx)@.arena),
        final(ctx)@.trace.len() >= old(ctx)@.trace.len(),
    decreases *it,
{
    match it {
        Item::Func { name, span, params, body } => {
            let nf = push_frame(ctx);
            let id = ctx.next_id();
            let rap = Rap::Function { name: name.clone(), id };
            var_allo_insert(ctx, frame, Infoitem::Func { span: *span }, rap);
            parse_params(params, ctx, nf);
            parse_stmts(body, ctx, nf);
        },
        Item::StructDef { ty_name, fields } => {
            def_fields(fields, ty_name, ctx, frame);
        },
        Item::Other => {
            push_report(ctx, Report::Unsupported);
        },
    }
}

/// Walks an item list in source order.
pub fn parse_items(items: &Vec<Item>, ctx: &mut Analysis, frame: usize)
    requires
        a_wf(old(ctx)@),
        frame < old(ctx)@.trace.len(),
    ensures
        final(ctx)@ == spec_parse_items(view_items(items@), old(ctx)@, frame as int, 0),
        a_wf(final(ctx)@),
        arena_extends(old(ctx)@.arena, final(ctx)@.arena),
        final(ctx)@.trace.len() >= old(ctx)@.trace.len(),
    decreases items@,
{
    let ghost a0 = ctx@;
    let ghost its = view_items(items@);
    proof {
        lemma_view_items_len(items@);
    }
    let mut k: usize = 0;
    while k < items.len()
        invariant
            k <= items@.len(),
            its == view_items(items@),
            its.len() == items@.len(),
            a_wf(ctx@),
            frame < ctx@.trace.len(),
            arena_extends(a0.arena, ctx@.arena),
            ctx@.trace.len() >= a0.trace.len(),
            spec_parse_items(its, a0, frame as int, 0) == spec_parse_items(
                its,
                ctx@,
                frame as int,
                k as int,
            ),
        decreases items@.len() - k,
    {
        proof {
            lemma_view_items_index(items@, k as int);
            assert(decreases_to!(items@ => items@[k as int]));
        }
        parse_item(&items[k], ctx, frame);
        k = k + 1;
    }
}

/// Runs the whole analysis pass over the top-level items of one parsed
/// source file: a fresh state with one open frame, every item walked in
/// order, and the finished registries, trace and reports returned. The
/// result is exactly the state the spec mirror describes; it is
/// well-formed, so ids run 1, 2, 3, ... in allocation order, every
/// allocated RAP's id is unique, and every struct-member RAP is owned by
/// a struct-instance RAP of the same run.
pub fn syn_parse(items: &Vec<Item>) -> (r: Analysis)
    ensures
        r@ == spec_syn_parse(view_items(items@)),
        a_wf(r@),
{
    let mut ctx = Analysis::new();
    parse_items(items, &mut ctx, 0);
    ctx
}

} // verus!
