//! The ownership-from-syntax classification rules: what kind of RAP a
//! binding site introduces, judged from syntactic evidence alone.
//!
//! For a `let` binding the initializer decides, in priority order: a
//! struct literal makes a struct instance; a reference-taking expression
//! makes a reference binding whose kind follows the reference's own
//! mutability; anything else (or no initializer) makes an owner. The
//! binding's own `is_mut` always comes from the binding pattern's
//! qualifier, never from the initializer.
//!
//! For a function parameter the declared type shape decides the same
//! three-way split, since parameters have no initializer.

use vstd::prelude::*;
use crate::ast::{Expr, ExprView, ParamTy, view_expr};
use crate::model::{Rap, RapView, rap_id, is_struct_member, is_struct_instance};

verus! {

/// The image of an optional initializer expression.
pub open spec fn view_opt_expr(o: Option<Expr>) -> Option<ExprView> {
    match o {
        Some(e) => Some(view_expr(e)),
        None => None,
    }
}

/// The RAP a `let` binding introduces, given the binding's name and
/// mutability qualifier, its initializer, and the id to allocate.
pub open spec fn spec_classify_let(
    name: Seq<char>,
    is_mut: bool,
    init: Option<ExprView>,
    id: usize,
) -> RapView {
    match init {
        Some(ExprView::StructLit { .. }) => RapView::Struct {
            name,
            id,
            owner_id: id,
            is_mut,
            is_member: false,
        },
        Some(ExprView::Reference { is_mut: ref_mut, .. }) => {
            if ref_mut {
                RapView::MutRef { name, id, is_mut }
            } else {
                RapView::StaticRef { name, id, is_mut }
            }
        },
        _ => RapView::Owner { name, id, is_mut },
    }
}

/// Classifies a `let` binding site.
pub fn classify_let(name: &String, is_mut: bool, init: &Option<Expr>, id: usize) -> (r: Rap)
    ensures
        r@ == spec_classify_let(name@, is_mut, view_opt_expr(*init), id),
        rap_id(r@) == id,
        !is_struct_member(r@),
{
    match init {
        Some(Expr::StructLit { .. }) => Rap::Struct {
            name: name.clone(),
            id,
            owner_id: id,
            is_mut,
            is_member: false,
        },
        Some(Expr::Reference { is_mut: ref_mut, .. }) => {
            if *ref_mut {
                Rap::MutRef { name: name.clone(), id, is_mut }
            } else {
                Rap::StaticRef { name: name.clone(), id, is_mut }
            }
        },
        _ => Rap::Owner { name: name.clone(), id, is_mut },
    }
}

/// The RAP a function parameter introduces, given the parameter's name
/// and mutability qualifier, its declared type shape, and the id to
/// allocate.
pub open spec fn spec_classify_param(
    name: Seq<char>,
    is_mut: bool,
    ty: ParamTy,
    id: usize,
) -> RapView {
    match ty {
        ParamTy::Plain => RapView::Owner { name, id, is_mut },
        ParamTy::Ref => RapView::StaticRef { name, id, is_mut },
        ParamTy::RefMut => RapView::MutRef { name, id, is_mut },
    }
}

/// Classifies a function parameter.
pub fn classify_param(name: &String, is_mut: bool, ty: ParamTy, id: usize) -> (r: Rap)
    ensures
        r@ == spec_classify_param(name@, is_mut, ty, id),
        rap_id(r@) == id,
        !is_struct_member(r@),
{
    match ty {
        ParamTy::Plain => Rap::Owner { name: name.clone(), id, is_mut },
        ParamTy::Ref => Rap::StaticRef { name: name.clone(), id, is_mut },
        ParamTy::RefMut => Rap::MutRef { name: name.clone(), id, is_mut },
    }
}

/// A `let` binding without a reference-taking initializer and without a
/// struct-literal initializer always classifies as an `Owner`, and the
/// owner's mutability is exactly the binding's own qualifier. The binding
/// allocates exactly this one RAP for its name.
pub proof fn lemma_let_yields_owner(
    name: Seq<char>,
    is_mut: bool,
    init: Option<ExprView>,
    id: usize,
)
    requires
        !(init matches Some(ExprView::Reference { .. })),
        !(init matches Some(ExprView::StructLit { .. })),
    ensures
        spec_classify_let(name, is_mut, init, id) == (RapView::Owner { name, id, is_mut }),
{
}

/// A parameter of a plain type always yields an `Owner`; of an immutable
/// reference type, a `StaticRef`; of a mutable reference type, a
/// `MutRef`. In each case the binding's own mutability is kept.
pub proof fn lemma_param_classification(name: Seq<char>, is_mut: bool, id: usize)
    ensures
        spec_classify_param(name, is_mut, ParamTy::Plain, id) == (RapView::Owner {
            name,
            id,
            is_mut,
        }),
        spec_classify_param(name, is_mut, ParamTy::Ref, id) == (RapView::StaticRef {
            name,
            id,
            is_mut,
        }),
        spec_classify_param(name, is_mut, ParamTy::RefMut, id) == (RapView::MutRef {
            name,
            id,
            is_mut,
        }),
{
}

/// A classified binding RAP is never a struct member, and a struct
/// instance arises only from a struct-literal initializer.
pub proof fn lemma_classify_let_instance(
    name: Seq<char>,
    is_mut: bool,
    init: Option<ExprView>,
    id: usize,
)
    ensures
        !is_struct_member(spec_classify_let(name, is_mut, init, id)),
        is_struct_instance(spec_classify_let(name, is_mut, init, id)) <==> (init matches Some(
            ExprView::StructLit { .. },
        )),
{
}

} // verus!
