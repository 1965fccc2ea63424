//! The data model of the analysis: source spans, resource access points
//! (RAPs), occurrence records for the scope trace, and the non-fatal
//! diagnostic reports that an analysis run collects.

use vstd::prelude::*;

verus! {

/// A source position range: line numbers are 1-based, column numbers are
/// 0-based, both counted in characters of the original source text.
#[derive(Clone, Copy, Debug, PartialEq, Eq, Structural)]
pub struct Span {
    pub start_line: usize,
    pub start_col: usize,
    pub end_line: usize,
    pub end_col: usize,
}

/// A resource access point: one ownership-relevant identity of the analyzed
/// program. The `id` is unique per allocation over a whole run; for
/// `Struct` entries, `owner_id` groups the fields of one instance under the
/// instance's own id (`is_member` tells a field apart from an instance).
#[derive(Clone, Debug)]
pub enum Rap {
    Owner { name: String, id: usize, is_mut: bool },
    StaticRef { name: String, id: usize, is_mut: bool },
    MutRef { name: String, id: usize, is_mut: bool },
    Struct { name: String, id: usize, owner_id: usize, is_mut: bool, is_member: bool },
    Function { name: String, id: usize },
}

/// Mathematical image of a `Rap`: names as character sequences.
#[verifier::ext_equal]
pub enum RapView {
    Owner { name: Seq<char>, id: usize, is_mut: bool },
    StaticRef { name: Seq<char>, id: usize, is_mut: bool },
    MutRef { name: Seq<char>, id: usize, is_mut: bool },
    Struct { name: Seq<char>, id: usize, owner_id: usize, is_mut: bool, is_member: bool },
    Function { name: Seq<char>, id: usize },
}

impl View for Rap {
    type V = RapView;

    open spec fn view(&self) -> RapView {
        match self {
            Rap::Owner { name, id, is_mut } => RapView::Owner {
                name: name@,
                id: *id,
                is_mut: *is_mut,
            },
            Rap::StaticRef { name, id, is_mut } => RapView::StaticRef {
                name: name@,
                id: *id,
                is_mut: *is_mut,
            },
            Rap::MutRef { name, id, is_mut } => RapView::MutRef {
                name: name@,
                id: *id,
                is_mut: *is_mut,
            },
            Rap::Struct { name, id, owner_id, is_mut, is_member } => RapView::Struct {
                name: name@,
                id: *id,
                owner_id: *owner_id,
                is_mut: *is_mut,
                is_member: *is_member,
            },
            Rap::Function { name, id } => RapView::Function { name: name@, id: *id },
        }
    }
}

impl DeepView for Rap {
    type V = RapView;

    open spec fn deep_view(&self) -> RapView {
        self.view()
    }
}

/// The id of a RAP, whatever its kind.
pub open spec fn rap_id(r: RapView) -> usize {
    match r {
        RapView::Owner { id, .. } => id,
        RapView::StaticRef { id, .. } => id,
        RapView::MutRef { id, .. } => id,
        RapView::Struct { id, .. } => id,
        RapView::Function { id, .. } => id,
    }
}

/// The name of a RAP, whatever its kind.
pub open spec fn rap_name(r: RapView) -> Seq<char> {
    match r {
        RapView::Owner { name, .. } => name,
        RapView::StaticRef { name, .. } => name,
        RapView::MutRef { name, .. } => name,
        RapView::Struct { name, .. } => name,
        RapView::Function { name, .. } => name,
    }
}

/// True of a struct-instance RAP (an aggregate binding, not one field).
pub open spec fn is_struct_instance(r: RapView) -> bool {
    match r {
        RapView::Struct { is_member, .. } => !is_member,
        _ => false,
    }
}

/// True of a struct-member RAP (one named field of an instance).
pub open spec fn is_struct_member(r: RapView) -> bool {
    match r {
        RapView::Struct { is_member, .. } => is_member,
        _ => false,
    }
}

/// The `owner_id` of a struct RAP; for other kinds, its own id.
pub open spec fn rap_owner_id(r: RapView) -> usize {
    match r {
        RapView::Struct { owner_id, .. } => owner_id,
        _ => rap_id(r),
    }
}

impl Rap {
    /// The id of this RAP.
    pub fn id(&self) -> (r: usize)
        ensures
            r == rap_id(self@),
    {
        match self {
            Rap::Owner { id, .. } => *id,
            Rap::StaticRef { id, .. } => *id,
            Rap::MutRef { id, .. } => *id,
            Rap::Struct { id, .. } => *id,
            Rap::Function { id, .. } => *id,
        }
    }

    /// The name of this RAP.
    pub fn name(&self) -> (r: &String)
        ensures
            r@ == rap_name(self@),
    {
        match self {
            Rap::Owner { name, .. } => name,
            Rap::StaticRef { name, .. } => name,
            Rap::MutRef { name, .. } => name,
            Rap::Struct { name, .. } => name,
            Rap::Function { name, .. } => name,
        }
    }
}

/// The syntactic kind of one recorded occurrence, with the source span the
/// annotation emitter tags. `MethodCall` and `Reference` occurrences carry
/// no span usefully taggable for rendering and are excluded from markup.
#[derive(Clone, Copy, Debug, PartialEq, Eq, Structural)]
pub enum Infoitem {
    /// A field of a struct declaration.
    Struct { span: Span },
    /// The name of a declared function.
    Func { span: Span },
    /// A parameter of a declared function.
    FnArg { span: Span },
    /// The bound identifier of a `let` statement.
    Local { span: Span },
    /// The callee path of a call expression.
    Call { span: Span },
    /// The method name of a method-call expression.
    MethodCall,
    /// The target of a reference-taking expression.
    Reference,
    /// A field initializer of a struct-literal expression.
    ExprStruct { span: Span },
    /// The head name of a recognized macro invocation.
    Macro { span: Span },
    /// A plain identifier resolved inside a macro's arguments.
    Ident { span: Span },
}

/// One occurrence record of the scope trace: the syntactic kind and
/// position, paired with the RAP the occurrence resolves to.
#[derive(Clone, Debug)]
pub struct StackItem {
    pub info: Infoitem,
    pub rap: Rap,
}

/// Mathematical image of a `StackItem`.
#[verifier::ext_equal]
pub struct StackItemView {
    pub info: Infoitem,
    pub rap: RapView,
}

impl View for StackItem {
    type V = StackItemView;

    open spec fn view(&self) -> StackItemView {
        StackItemView { info: self.info, rap: self.rap@ }
    }
}

impl DeepView for StackItem {
    type V = StackItemView;

    open spec fn deep_view(&self) -> StackItemView {
        self.view()
    }
}

/// A non-fatal condition met during analysis or emission. Reports are
/// collected and returned; they never abort the run.
#[derive(Clone, Debug)]
pub enum Report {
    /// A use resolved to no known identity and no identity could be
    /// synthesized for it.
    UndefinedIdentifier { name: String },
    /// A struct-literal field had no matching declared field in the
    /// aggregate type template.
    TemplateMiss { ty_name: String, field: String },
    /// A syntax form outside the recognized subset was skipped.
    Unsupported,
    /// A macro argument segment did not parse as a recognized expression.
    MacroArgSkipped,
    /// A struct-instance RAP had no member RAPs at emission time.
    InconsistentStruct { name: String },
}

/// Mathematical image of a `Report`.
#[verifier::ext_equal]
pub enum ReportView {
    UndefinedIdentifier { name: Seq<char> },
    TemplateMiss { ty_name: Seq<char>, field: Seq<char> },
    Unsupported,
    MacroArgSkipped,
    InconsistentStruct { name: Seq<char> },
}

impl View for Report {
    type V = ReportView;

    open spec fn view(&self) -> ReportView {
        match self {
            Report::UndefinedIdentifier { name } => ReportView::UndefinedIdentifier {
                name: name@,
            },
            Report::TemplateMiss { ty_name, field } => ReportView::TemplateMiss {
                ty_name: ty_name@,
                field: field@,
            },
            Report::Unsupported => ReportView::Unsupported,
            Report::MacroArgSkipped => ReportView::MacroArgSkipped,
            Report::InconsistentStruct { name } => ReportView::InconsistentStruct {
                name: name@,
            },
        }
    }
}

impl DeepView for Report {
    type V = ReportView;

    open spec fn deep_view(&self) -> ReportView {
        self.view()
    }
}

} // verus!
