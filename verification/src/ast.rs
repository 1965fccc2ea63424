//! The modeled syntax of the analyzed language: a closed set of tagged
//! variants for the declaration, statement and expression forms the
//! analysis recognizes. Any conformant parser for the subject grammar can
//! produce these values; every other syntax form maps to an `Other`
//! variant, which the analysis skips. Macro argument token streams are kept
//! as token trees and split by the analysis itself.

use vstd::prelude::*;
use crate::model::Span;

verus! {

/// The declared type shape of a function parameter.
#[derive(Clone, Copy, Debug, PartialEq, Eq, Structural)]
pub enum ParamTy {
    /// A plain value type.
    Plain,
    /// An immutable reference type.
    Ref,
    /// A mutable reference type.
    RefMut,
}

/// One typed function parameter: its bound name, the mutability of the
/// binding itself, and its declared type shape.
#[derive(Clone, Debug)]
pub struct Param {
    pub name: String,
    pub is_mut: bool,
    pub ty: ParamTy,
    pub span: Span,
}

/// Mathematical image of a `Param`.
#[verifier::ext_equal]
pub struct ParamView {
    pub name: Seq<char>,
    pub is_mut: bool,
    pub ty: ParamTy,
    pub span: Span,
}

impl View for Param {
    type V = ParamView;

    open spec fn view(&self) -> ParamView {
        ParamView { name: self.name@, is_mut: self.is_mut, ty: self.ty, span: self.span }
    }
}

impl DeepView for Param {
    type V = ParamView;

    open spec fn deep_view(&self) -> ParamView {
        self.view()
    }
}

/// One named field of a struct declaration.
#[derive(Clone, Debug)]
pub struct FieldDef {
    pub name: String,
    pub span: Span,
}

/// Mathematical image of a `FieldDef`.
#[verifier::ext_equal]
pub struct FieldDefView {
    pub name: Seq<char>,
    pub span: Span,
}

impl View for FieldDef {
    type V = FieldDefView;

    open spec fn view(&self) -> FieldDefView {
        FieldDefView { name: self.name@, span: self.span }
    }
}

impl DeepView for FieldDef {
    type V = FieldDefView;

    open spec fn deep_view(&self) -> FieldDefView {
        self.view()
    }
}

/// One named field initializer of a struct-literal expression.
#[derive(Clone, Debug)]
pub struct FieldInit {
    pub name: String,
    pub span: Span,
}

/// Mathematical image of a `FieldInit`.
#[verifier::ext_equal]
pub struct FieldInitView {
    pub name: Seq<char>,
    pub span: Span,
}

impl View for FieldInit {
    type V = FieldInitView;

    open spec fn view(&self) -> FieldInitView {
        FieldInitView { name: self.name@, span: self.span }
    }
}

impl DeepView for FieldInit {
    type V = FieldInitView;

    open spec fn deep_view(&self) -> FieldInitView {
        self.view()
    }
}

/// The delimiter of a token group.
#[derive(Clone, Copy, Debug, PartialEq, Eq, Structural)]
pub enum Delim {
    Paren,
    Bracket,
    Brace,
}

/// One tree of a macro invocation's argument token stream.
#[derive(Debug)]
pub enum Token {
    /// An identifier or keyword.
    Ident { name: String, span: Span },
    /// A punctuation character.
    Punct { ch: char },
    /// A literal of any kind.
    Literal,
    /// A delimited group of nested tokens.
    Group { delim: Delim, tokens: Vec<Token> },
}

/// Mathematical image of a `Token`.
#[verifier::ext_equal]
pub enum TokenView {
    Ident { name: Seq<char>, span: Span },
    Punct { ch: char },
    Literal,
    Group { delim: Delim, tokens: Seq<TokenView> },
}

/// An expression, reduced to the forms the analysis reads. Receivers and
/// call arguments of plain calls are not modeled: the analysis records only
/// the callee or method name, as the classification rules ask.
#[derive(Debug)]
pub enum Expr {
    /// A call whose callee is a path, as in `f(..)` or `a::b(..)`.
    Call { path: Vec<String>, span: Span },
    /// A method call, as in `x.m(..)`; only the method name is read.
    MethodCall { name: String },
    /// A reference-taking expression `&t` or `&mut t`; `target` is the
    /// referenced path when the operand is a plain path, else `None`.
    Reference { is_mut: bool, target: Option<Vec<String>> },
    /// A block expression, opening a nested scope frame.
    Block { stmts: Vec<Stmt> },
    /// A struct literal of a named type with named field initializers.
    StructLit { ty_name: String, fields: Vec<FieldInit> },
    /// A macro invocation; its head name, the span of that name, and its
    /// raw argument token stream.
    MacroCall { name: String, span: Span, tokens: Vec<Token> },
    /// Any other expression form: skipped.
    Other,
}

/// Mathematical image of an `Expr`.
#[verifier::ext_equal]
pub enum ExprView {
    Call { path: Seq<Seq<char>>, span: Span },
    MethodCall { name: Seq<char> },
    Reference { is_mut: bool, target: Option<Seq<Seq<char>>> },
    Block { stmts: Seq<StmtView> },
    StructLit { ty_name: Seq<char>, fields: Seq<FieldInitView> },
    MacroCall { name: Seq<char>, span: Span, tokens: Seq<TokenView> },
    Other,
}

/// A statement form.
#[derive(Debug)]
pub enum Stmt {
    /// A `let` binding: the bound name, its mutability qualifier, the span
    /// of the bound identifier, and the initializer if one is written.
    Let { name: String, is_mut: bool, span: Span, init: Option<Expr> },
    /// An expression statement, with or without a trailing semicolon.
    Expr(Expr),
    /// A nested item declaration.
    Item(Item),
    /// Any other statement form: skipped.
    Other,
}

/// Mathematical image of a `Stmt`.
#[verifier::ext_equal]
pub enum StmtView {
    Let { name: Seq<char>, is_mut: bool, span: Span, init: Option<ExprView> },
    Expr(ExprView),
    Item(ItemView),
    Other,
}

/// A top-level (or nested) item declaration.
#[derive(Debug)]
pub enum Item {
    /// A function declaration: name, span of the name, parameters, body.
    Func { name: String, span: Span, params: Vec<Param>, body: Vec<Stmt> },
    /// A struct declaration with named fields.
    StructDef { ty_name: String, fields: Vec<FieldDef> },
    /// Any other item form: skipped.
    Other,
}

/// Mathematical image of an `Item`.
#[verifier::ext_equal]
pub enum ItemView {
    Func { name: Seq<char>, span: Span, params: Seq<ParamView>, body: Seq<StmtView> },
    StructDef { ty_name: Seq<char>, fields: Seq<FieldDefView> },
    Other,
}

/// The image of a token.
pub open spec fn view_token(t: Token) -> TokenView
    decreases t,
{
    match t {
        Token::Ident { name, span } => TokenView::Ident { name: name@, span },
        Token::Punct { ch } => TokenView::Punct { ch },
        Token::Literal => TokenView::Literal,
        Token::Group { delim, tokens } => TokenView::Group {
            delim,
            tokens: view_tokens(tokens@),
        },
    }
}

/// The image of a token sequence, element by element.
pub open spec fn view_tokens(ts: Seq<Token>) -> Seq<TokenView>
    decreases ts,
{
    if ts.len() == 0 {
        Seq::empty()
    } else {
        view_tokens(ts.drop_last()).push(view_token(ts.last()))
    }
}

/// The image of an expression.
pub open spec fn view_expr(e: Expr) -> ExprView
    decreases e,
{
    match e {
        Expr::Call { path, span } => ExprView::Call { path: path.deep_view(), span },
        Expr::MethodCall { name } => ExprView::MethodCall { name: name@ },
        Expr::Reference { is_mut, target } => ExprView::Reference {
            is_mut,
            target: match target {
                Some(p) => Some(p.deep_view()),
                None => None,
            },
        },
        Expr::Block { stmts } => ExprView::Block { stmts: view_stmts(stmts@) },
        Expr::StructLit { ty_name, fields } => ExprView::StructLit {
            ty_name: ty_name@,
            fields: fields.deep_view(),
        },
        Expr::MacroCall { name, span, tokens } => ExprView::MacroCall {
            name: name@,
            span,
            tokens: view_tokens(tokens@),
        },
        Expr::Other => ExprView::Other,
    }
}

/// The image of a statement.
pub open spec fn view_stmt(s: Stmt) -> StmtView
    decreases s,
{
    match s {
        Stmt::Let { name, is_mut, span, init } => StmtView::Let {
            name: name@,
            is_mut,
            span,
            init: match init {
                Some(e) => Some(view_expr(e)),
                None => None,
            },
        },
        Stmt::Expr(e) => StmtView::Expr(view_expr(e)),
        Stmt::Item(it) => StmtView::Item(view_item(it)),
        Stmt::Other => StmtView::Other,
    }
}

/// The image of a statement sequence, element by element.
pub open spec fn view_stmts(ss: Seq<Stmt>) -> Seq<StmtView>
    decreases ss,
{
    if ss.len() == 0 {
        Seq::empty()
    } else {
        view_stmts(ss.drop_last()).push(view_stmt(ss.last()))
    }
}

/// The image of an item.
pub open spec fn view_item(it: Item) -> ItemView
    decreases it,
{
    match it {
        Item::Func { name, span, params, body } => ItemView::Func {
            name: name@,
            span,
            params: params.deep_view(),
            body: view_stmts(body@),
        },
        Item::StructDef { ty_name, fields } => ItemView::StructDef {
            ty_name: ty_name@,
            fields: fields.deep_view(),
        },
        Item::Other => ItemView::Other,
    }
}

/// The image of an item sequence, element by element.
pub open spec fn view_items(its: Seq<Item>) -> Seq<ItemView>
    decreases its,
{
    if its.len() == 0 {
        Seq::empty()
    } else {
        view_items(its.drop_last()).push(view_item(its.last()))
    }
}

impl View for Token {
    type V = TokenView;

    open spec fn view(&self) -> TokenView {
        view_token(*self)
    }
}

impl View for Expr {
    type V = ExprView;

    open spec fn view(&self) -> ExprView {
        view_expr(*self)
    }
}

impl View for Stmt {
    type V = StmtView;

    open spec fn view(&self) -> StmtView {
        view_stmt(*self)
    }
}

impl View for Item {
    type V = ItemView;

    open spec fn view(&self) -> ItemView {
        view_item(*self)
    }
}

/// Indexing commutes with taking the image of a token sequence.
pub proof fn lemma_view_tokens_index(ts: Seq<Token>, i: int)
    requires
        0 <= i < ts.len(),
    ensures
        view_tokens(ts).len() == ts.len(),
        view_tokens(ts)[i] == view_token(ts[i]),
    decreases ts,
{
    lemma_view_tokens_len(ts);
    if i < ts.len() - 1 {
        lemma_view_tokens_index(ts.drop_last(), i);
    }
}

/// The image of a token sequence has the sequence's length.
pub proof fn lemma_view_tokens_len(ts: Seq<Token>)
    ensures
        view_tokens(ts).len() == ts.len(),
    decreases ts,
{
    if ts.len() > 0 {
        lemma_view_tokens_len(ts.drop_last());
    }
}

/// The image of a statement sequence has the sequence's length.
pub proof fn lemma_view_stmts_len(ss: Seq<Stmt>)
    ensures
        view_stmts(ss).len() == ss.len(),
    decreases ss,
{
    if ss.len() > 0 {
        lemma_view_stmts_len(ss.drop_last());
    }
}

/// Indexing commutes with taking the image of a statement sequence.
pub proof fn lemma_view_stmts_index(ss: Seq<Stmt>, i: int)
    requires
        0 <= i < ss.len(),
    ensures
        view_stmts(ss).len() == ss.len(),
        view_stmts(ss)[i] == view_stmt(ss[i]),
    decreases ss,
{
    lemma_view_stmts_len(ss);
    if i < ss.len() - 1 {
        lemma_view_stmts_index(ss.drop_last(), i);
    }
}

/// The image of an item sequence has the sequence's length.
pub proof fn lemma_view_items_len(its: Seq<Item>)
    ensures
        view_items(its).len() == its.len(),
    decreases its,
{
    if its.len() > 0 {
        lemma_view_items_len(its.drop_last());
    }
}

/// Indexing commutes with taking the image of an item sequence.
pub proof fn lemma_view_items_index(its: Seq<Item>, i: int)
    requires
        0 <= i < its.len(),
    ensures
        view_items(its).len() == its.len(),
        view_items(its)[i] == view_item(its[i]),
    decreases its,
{
    lemma_view_items_len(its);
    if i < its.len() - 1 {
        lemma_view_items_index(its.drop_last(), i);
    }
}

} // verus!
