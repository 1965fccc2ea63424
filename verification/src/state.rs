//! The analysis context: the arena of every allocated RAP (ids are arena
//! indexes), the identity registry keyed by name, the aggregate type
//! template, the append-only scope trace, and the collected reports. The
//! resolver's allocation and use paths are the functions of this module.

use vstd::prelude::*;
use crate::model::{
    Infoitem, Rap, RapView, Report, ReportView, Span, StackItem, StackItemView, is_struct_instance,
    is_struct_member, rap_id, rap_name, rap_owner_id,
};

verus! {

/// One identity-registry entry: the chain of RAPs allocated under one
/// name, oldest first. Lookups resolve to the most recent entry of the
/// chain of the first entry whose name matches.
#[derive(Clone, Debug)]
pub struct RegEntry {
    pub name: String,
    pub raps: Vec<Rap>,
}

/// Mathematical image of a `RegEntry`.
#[verifier::ext_equal]
pub struct RegEntryView {
    pub name: Seq<char>,
    pub raps: Seq<RapView>,
}

impl View for RegEntry {
    type V = RegEntryView;

    open spec fn view(&self) -> RegEntryView {
        RegEntryView { name: self.name@, raps: self.raps.deep_view() }
    }
}

impl DeepView for RegEntry {
    type V = RegEntryView;

    open spec fn deep_view(&self) -> RegEntryView {
        self.view()
    }
}

/// One declared field of an aggregate type: its name and the RAP standing
/// for the field's declaration.
#[derive(Clone, Debug)]
pub struct FieldSlot {
    pub name: String,
    pub rap: Rap,
}

/// Mathematical image of a `FieldSlot`.
#[verifier::ext_equal]
pub struct FieldSlotView {
    pub name: Seq<char>,
    pub rap: RapView,
}

impl View for FieldSlot {
    type V = FieldSlotView;

    open spec fn view(&self) -> FieldSlotView {
        FieldSlotView { name: self.name@, rap: self.rap@ }
    }
}

impl DeepView for FieldSlot {
    type V = FieldSlotView;

    open spec fn deep_view(&self) -> FieldSlotView {
        self.view()
    }
}

/// One aggregate-type-template entry: a declared struct type and its
/// declared fields.
#[derive(Clone, Debug)]
pub struct TypeEntry {
    pub ty_name: String,
    pub fields: Vec<FieldSlot>,
}

/// Mathematical image of a `TypeEntry`.
#[verifier::ext_equal]
pub struct TypeEntryView {
    pub ty_name: Seq<char>,
    pub fields: Seq<FieldSlotView>,
}

impl View for TypeEntry {
    type V = TypeEntryView;

    open spec fn view(&self) -> TypeEntryView {
        TypeEntryView { ty_name: self.ty_name@, fields: self.fields.deep_view() }
    }
}

impl DeepView for TypeEntry {
    type V = TypeEntryView;

    open spec fn deep_view(&self) -> TypeEntryView {
        self.view()
    }
}

/// The occurrences of one identifier within one scope frame, in trace
/// order.
#[derive(Clone, Debug)]
pub struct NameOccs {
    pub name: String,
    pub occs: Vec<StackItem>,
}

/// Mathematical image of a `NameOccs`.
#[verifier::ext_equal]
pub struct NameOccsView {
    pub name: Seq<char>,
    pub occs: Seq<StackItemView>,
}

impl View for NameOccs {
    type V = NameOccsView;

    open spec fn view(&self) -> NameOccsView {
        NameOccsView { name: self.name@, occs: self.occs.deep_view() }
    }
}

impl DeepView for NameOccs {
    type V = NameOccsView;

    open spec fn deep_view(&self) -> NameOccsView {
        self.view()
    }
}

/// One scope frame of the trace: one lexical region entered during the
/// pass, holding the occurrences recorded in it, grouped by name.
#[derive(Clone, Debug)]
pub struct Frame {
    pub entries: Vec<NameOccs>,
}

/// Mathematical image of a `Frame`.
#[verifier::ext_equal]
pub struct FrameView {
    pub entries: Seq<NameOccsView>,
}

impl View for Frame {
    type V = FrameView;

    open spec fn view(&self) -> FrameView {
        FrameView { entries: self.entries.deep_view() }
    }
}

impl DeepView for Frame {
    type V = FrameView;

    open spec fn deep_view(&self) -> FrameView {
        self.view()
    }
}

/// The whole state of one analysis run. The arena records every RAP ever
/// allocated, in allocation order; a RAP's id is the 1-based number of
/// its arena slot, so ids run 1, 2, 3, ... in allocation order and are
/// unique by construction (0 stays free as the annotation tags' non-id
/// sentinel). Frames are appended on entering a lexical region and never
/// removed.
#[derive(Debug)]
pub struct Analysis {
    pub arena: Vec<Rap>,
    pub registry: Vec<RegEntry>,
    pub template: Vec<TypeEntry>,
    pub trace: Vec<Frame>,
    pub reports: Vec<Report>,
}

/// Mathematical image of an `Analysis`.
#[verifier::ext_equal]
pub struct AnalysisView {
    pub arena: Seq<RapView>,
    pub registry: Seq<RegEntryView>,
    pub template: Seq<TypeEntryView>,
    pub trace: Seq<FrameView>,
    pub reports: Seq<ReportView>,
}

impl View for Analysis {
    type V = AnalysisView;

    open spec fn view(&self) -> AnalysisView {
        AnalysisView {
            arena: self.arena.deep_view(),
            registry: self.registry.deep_view(),
            template: self.template.deep_view(),
            trace: self.trace.deep_view(),
            reports: self.reports.deep_view(),
        }
    }
}

/// The index of the first registry entry named `name`, searching from `i`.
pub open spec fn reg_find_from(reg: Seq<RegEntryView>, name: Seq<char>, i: int) -> Option<int>
    decreases reg.len() - i,
{
    if i < 0 || i >= reg.len() {
        None
    } else if reg[i].name == name {
        Some(i)
    } else {
        reg_find_from(reg, name, i + 1)
    }
}

/// The index of the first registry entry named `name`, if any.
pub open spec fn reg_find(reg: Seq<RegEntryView>, name: Seq<char>) -> Option<int> {
    reg_find_from(reg, name, 0)
}

/// The index of the first template entry for type `ty_name`, from `i`.
pub open spec fn tpl_find_from(tpl: Seq<TypeEntryView>, ty_name: Seq<char>, i: int) -> Option<
    int,
>
    decreases tpl.len() - i,
{
    if i < 0 || i >= tpl.len() {
        None
    } else if tpl[i].ty_name == ty_name {
        Some(i)
    } else {
        tpl_find_from(tpl, ty_name, i + 1)
    }
}

/// The index of the first template entry for type `ty_name`, if any.
pub open spec fn tpl_find(tpl: Seq<TypeEntryView>, ty_name: Seq<char>) -> Option<int> {
    tpl_find_from(tpl, ty_name, 0)
}

/// The index of the first field slot named `name`, from `i`.
pub open spec fn slot_find_from(slots: Seq<FieldSlotView>, name: Seq<char>, i: int) -> Option<
    int,
>
    decreases slots.len() - i,
{
    if i < 0 || i >= slots.len() {
        None
    } else if slots[i].name == name {
        Some(i)
    } else {
        slot_find_from(slots, name, i + 1)
    }
}

/// The index of the first field slot named `name`, if any.
pub open spec fn slot_find(slots: Seq<FieldSlotView>, name: Seq<char>) -> Option<int> {
    slot_find_from(slots, name, 0)
}

/// The index of the first occurrence group named `name`, from `i`.
pub open spec fn occ_find_from(entries: Seq<NameOccsView>, name: Seq<char>, i: int) -> Option<
    int,
>
    decreases entries.len() - i,
{
    if i < 0 || i >= entries.len() {
        None
    } else if entries[i].name == name {
        Some(i)
    } else {
        occ_find_from(entries, name, i + 1)
    }
}

/// The index of the first occurrence group named `name`, if any.
pub open spec fn occ_find(entries: Seq<NameOccsView>, name: Seq<char>) -> Option<int> {
    occ_find_from(entries, name, 0)
}

/// A found registry index is in range and names the sought name.
pub proof fn lemma_reg_find_from_range(reg: Seq<RegEntryView>, name: Seq<char>, i: int)
    requires
        0 <= i,
    ensures
        match reg_find_from(reg, name, i) {
            Some(j) => i <= j < reg.len() && reg[j].name == name,
            None => true,
        },
    decreases reg.len() - i,
{
    if i < reg.len() && reg[i].name != name {
        lemma_reg_find_from_range(reg, name, i + 1);
    }
}

/// A found template index is in range and names the sought type.
pub proof fn lemma_tpl_find_from_range(tpl: Seq<TypeEntryView>, ty_name: Seq<char>, i: int)
    requires
        0 <= i,
    ensures
        match tpl_find_from(tpl, ty_name, i) {
            Some(j) => i <= j < tpl.len() && tpl[j].ty_name == ty_name,
            None => true,
        },
    decreases tpl.len() - i,
{
    if i < tpl.len() && tpl[i].ty_name != ty_name {
        lemma_tpl_find_from_range(tpl, ty_name, i + 1);
    }
}

/// A found slot index is in range and names the sought field.
pub proof fn lemma_slot_find_from_range(slots: Seq<FieldSlotView>, name: Seq<char>, i: int)
    requires
        0 <= i,
    ensures
        match slot_find_from(slots, name, i) {
            Some(j) => i <= j < slots.len() && slots[j].name == name,
            None => true,
        },
    decreases slots.len() - i,
{
    if i < slots.len() && slots[i].name != name {
        lemma_slot_find_from_range(slots, name, i + 1);
    }
}

/// A found occurrence-group index is in range and names the sought name.
pub proof fn lemma_occ_find_from_range(entries: Seq<NameOccsView>, name: Seq<char>, i: int)
    requires
        0 <= i,
    ensures
        match occ_find_from(entries, name, i) {
            Some(j) => i <= j < entries.len() && entries[j].name == name,
            None => true,
        },
    decreases entries.len() - i,
{
    if i < entries.len() && entries[i].name != name {
        lemma_occ_find_from_range(entries, name, i + 1);
    }
}

/// Every RAP of the arena carries the 1-based id of its slot: ids are
/// assigned in allocation order starting at 1 (the id 0 is kept free as
/// the fixed non-id sentinel of the annotation tags).
pub open spec fn arena_wf(arena: Seq<RapView>) -> bool {
    forall|i: int| 0 <= i < arena.len() ==> rap_id(#[trigger] arena[i]) as int == i + 1
}

/// Some struct-instance RAP of the arena carries the id `oid`.
pub open spec fn has_instance(arena: Seq<RapView>, oid: usize) -> bool {
    exists|j: int|
        0 <= j < arena.len() && is_struct_instance(#[trigger] arena[j]) && rap_id(arena[j]) == oid
}

/// Every struct-member RAP of the arena is owned by some struct-instance
/// RAP of the arena.
pub open spec fn members_linked(arena: Seq<RapView>) -> bool {
    forall|i: int|
        0 <= i < arena.len() && is_struct_member(#[trigger] arena[i]) ==> has_instance(
            arena,
            rap_owner_id(arena[i]),
        )
}

/// `r` is a faithful copy of the arena RAP its id names (ids are
/// 1-based slot numbers).
pub open spec fn rap_from_arena(arena: Seq<RapView>, r: RapView) -> bool {
    1 <= rap_id(r) <= arena.len() && arena[rap_id(r) - 1] == r
}

/// Every RAP stored in the registry is a copy of an arena RAP, and no
/// name's chain is empty.
pub open spec fn registry_wf(arena: Seq<RapView>, reg: Seq<RegEntryView>) -> bool {
    &&& forall|i: int, k: int|
        0 <= i < reg.len() && 0 <= k < reg[i].raps.len() ==> rap_from_arena(
            arena,
            #[trigger] reg[i].raps[k],
        )
    &&& forall|i: int| 0 <= i < reg.len() ==> (#[trigger] reg[i].raps).len() > 0
}

/// Every RAP stored in the template is a copy of an arena RAP.
pub open spec fn template_wf(arena: Seq<RapView>, tpl: Seq<TypeEntryView>) -> bool {
    forall|i: int, k: int|
        0 <= i < tpl.len() && 0 <= k < tpl[i].fields.len() ==> rap_from_arena(
            arena,
            (#[trigger] tpl[i].fields[k]).rap,
        )
}

/// Every RAP recorded by an occurrence of the trace is a copy of an arena
/// RAP.
pub open spec fn trace_wf(arena: Seq<RapView>, trace: Seq<FrameView>) -> bool {
    forall|f: int, e: int, o: int|
        0 <= f < trace.len() && 0 <= e < trace[f].entries.len() && 0 <= o
            < trace[f].entries[e].occs.len() ==> rap_from_arena(
            arena,
            (#[trigger] trace[f].entries[e].occs[o]).rap,
        )
}

/// Well-formedness of a whole analysis state.
pub open spec fn a_wf(a: AnalysisView) -> bool {
    &&& arena_wf(a.arena)
    &&& members_linked(a.arena)
    &&& registry_wf(a.arena, a.registry)
    &&& template_wf(a.arena, a.template)
    &&& trace_wf(a.arena, a.trace)
}

/// In a well-formed state, ids are assigned deterministically in
/// allocation order starting at 1, so every allocated RAP carries a
/// strictly unique id; and every struct-member RAP's `owner_id` equals
/// the id of some struct-instance RAP allocated in the same run.
/// `syn_parse` returns a well-formed state, so this holds of every
/// finished analysis.
pub proof fn lemma_allocated_ids_unique(a: AnalysisView)
    requires
        a_wf(a),
    ensures
        forall|i: int| 0 <= i < a.arena.len() ==> rap_id(#[trigger] a.arena[i]) as int == i + 1,
        forall|i: int, j: int|
            0 <= i < j < a.arena.len() ==> rap_id(#[trigger] a.arena[i]) != rap_id(
                #[trigger] a.arena[j],
            ),
        forall|i: int|
            0 <= i < a.arena.len() && is_struct_member(#[trigger] a.arena[i]) ==> has_instance(
                a.arena,
                rap_owner_id(a.arena[i]),
            ),
{
}

/// `a1` extends `a0`: every RAP allocated in `a0` still sits unchanged at
/// its index in `a1`.
pub open spec fn arena_extends(a0: Seq<RapView>, a1: Seq<RapView>) -> bool {
    &&& a1.len() >= a0.len()
    &&& forall|i: int| 0 <= i < a0.len() ==> a0[i] == #[trigger] a1[i]
}

/// An instance found in an arena is still found in any extension of it.
pub proof fn lemma_has_instance_extends(a0: Seq<RapView>, a1: Seq<RapView>, oid: usize)
    requires
        has_instance(a0, oid),
        arena_extends(a0, a1),
    ensures
        has_instance(a1, oid),
{
    let j = choose|j: int|
        0 <= j < a0.len() && is_struct_instance(#[trigger] a0[j]) && rap_id(a0[j]) == oid;
    assert(is_struct_instance(a1[j]));
}

/// `f1` extends `f0` as a ledger: every occurrence group of `f0` is
/// still in place under its name, and its occurrences are a prefix of
/// what they became.
pub open spec fn frame_extends(f0: FrameView, f1: FrameView) -> bool {
    &&& f1.entries.len() >= f0.entries.len()
    &&& forall|e: int|
        0 <= e < f0.entries.len() ==> {
            &&& (#[trigger] f1.entries[e]).name == f0.entries[e].name
            &&& f1.entries[e].occs.len() >= f0.entries[e].occs.len()
            &&& forall|o: int|
                0 <= o < f0.entries[e].occs.len() ==> f1.entries[e].occs[o] == #[trigger] f0.entries[
                    e].occs[o]
        }
}

/// `t1` extends `t0` as an append-only ledger: every frame of `t0` is
/// still there, extended at most by new groups and new occurrences.
pub open spec fn trace_extends(t0: Seq<FrameView>, t1: Seq<FrameView>) -> bool {
    &&& t1.len() >= t0.len()
    &&& forall|f: int| 0 <= f < t0.len() ==> frame_extends(#[trigger] t0[f], t1[f])
}

/// The ledger relation is reflexive.
pub proof fn lemma_trace_extends_refl(t: Seq<FrameView>)
    ensures
        trace_extends(t, t),
{
    assert forall|f: int| 0 <= f < t.len() implies frame_extends(#[trigger] t[f], t[f]) by {}
}

/// The ledger relation is transitive.
pub proof fn lemma_trace_extends_trans(t0: Seq<FrameView>, t1: Seq<FrameView>, t2: Seq<FrameView>)
    requires
        trace_extends(t0, t1),
        trace_extends(t1, t2),
    ensures
        trace_extends(t0, t2),
{
    assert forall|f: int| 0 <= f < t0.len() implies frame_extends(#[trigger] t0[f], t2[f]) by {
        assert(frame_extends(t0[f], t1[f]));
        assert(frame_extends(t1[f], t2[f]));
        assert forall|e: int| 0 <= e < t0[f].entries.len() implies {
            &&& (#[trigger] t2[f].entries[e]).name == t0[f].entries[e].name
            &&& t2[f].entries[e].occs.len() >= t0[f].entries[e].occs.len()
            &&& forall|o: int|
                0 <= o < t0[f].entries[e].occs.len() ==> t2[f].entries[e].occs[o] == #[trigger] t0[
                    f].entries[e].occs[o]
        } by {
            assert(t1[f].entries[e].name == t0[f].entries[e].name);
            assert(t2[f].entries[e].name == t1[f].entries[e].name);
            assert forall|o: int|
                0 <= o < t0[f].entries[e].occs.len() implies t2[f].entries[e].occs[o]
                == #[trigger] t0[f].entries[e].occs[o] by {
                assert(t1[f].entries[e].occs[o] == t0[f].entries[e].occs[o]);
                assert(t2[f].entries[e].occs[o] == t1[f].entries[e].occs[o]);
            }
        }
    }
}

/// Recording one occurrence only appends to the ledger.
pub proof fn lemma_color_insert_ledger(
    a: AnalysisView,
    frame: int,
    name: Seq<char>,
    occ: StackItemView,
)
    requires
        0 <= frame < a.trace.len(),
    ensures
        trace_extends(a.trace, spec_color_insert(a, frame, name, occ).trace),
{
    let t1 = spec_color_insert(a, frame, name, occ).trace;
    lemma_occ_find_from_range(a.trace[frame].entries, name, 0);
    assert forall|f: int| 0 <= f < a.trace.len() implies frame_extends(
        #[trigger] a.trace[f],
        t1[f],
    ) by {
        if f != frame {
            assert(t1[f] == a.trace[f]);
            lemma_trace_extends_refl(seq![a.trace[f]]);
            assert(frame_extends(a.trace[f], a.trace[f]));
        } else {
            let f0 = a.trace[frame];
            let f1 = t1[frame];
            assert forall|e: int| 0 <= e < f0.entries.len() implies {
                &&& (#[trigger] f1.entries[e]).name == f0.entries[e].name
                &&& f1.entries[e].occs.len() >= f0.entries[e].occs.len()
                &&& forall|o: int|
                    0 <= o < f0.entries[e].occs.len() ==> f1.entries[e].occs[o] == #[trigger] f0.entries[
                        e].occs[o]
            } by {
                match occ_find(f0.entries, name) {
                    Some(i) => {
                        if e != i {
                            assert(f1.entries[e] == f0.entries[e]);
                        }
                    },
                    None => {
                        assert(f1.entries[e] == f0.entries[e]);
                    },
                }
            }
        }
    }
}

/// The allocation path only appends to the ledger.
pub proof fn lemma_var_allo_ledger(a: AnalysisView, frame: int, info: Infoitem, rap: RapView)
    requires
        0 <= frame < a.trace.len(),
    ensures
        trace_extends(a.trace, spec_var_allo_insert(a, frame, info, rap).trace),
{
    let ar = spec_alloc_rap(a, rap);
    lemma_color_insert_ledger(
        AnalysisView { registry: reg_add(ar.registry, rap), ..ar },
        frame,
        rap_name(rap),
        StackItemView { info, rap },
    );
}

/// Registering a reserved RAP only appends to the ledger.
pub proof fn lemma_register_ledger(a: AnalysisView, frame: int, info: Infoitem, rap: RapView)
    requires
        0 <= frame < a.trace.len(),
    ensures
        trace_extends(a.trace, spec_register_alloc(a, frame, info, rap).trace),
{
    lemma_color_insert_ledger(
        AnalysisView { registry: reg_add(a.registry, rap), ..a },
        frame,
        rap_name(rap),
        StackItemView { info, rap },
    );
}

/// The use path only appends to the ledger.
pub proof fn lemma_non_allo_ledger(
    a: AnalysisView,
    frame: int,
    name: Seq<char>,
    info: Infoitem,
    register: bool,
)
    requires
        0 <= frame < a.trace.len(),
    ensures
        trace_extends(a.trace, spec_non_allo_insert(a, frame, name, info, register).trace),
{
    match reg_find(a.registry, name) {
        Some(i) => {
            lemma_color_insert_ledger(
                a,
                frame,
                name,
                StackItemView { info, rap: a.registry[i].raps.last() },
            );
        },
        None => {
            if register {
                let rap = RapView::Function { name: name, id: (a.arena.len() + 1) as usize };
                lemma_var_allo_ledger(a, frame, info, rap);
            } else {
                lemma_trace_extends_refl(a.trace);
            }
        },
    }
}

/// Registering a declared field only appends to the ledger.
pub proof fn lemma_struct_def_ledger(
    a: AnalysisView,
    frame: int,
    ty_name: Seq<char>,
    field_name: Seq<char>,
    span: Span,
)
    requires
        0 <= frame < a.trace.len(),
    ensures
        trace_extends(a.trace, spec_struct_def_insert(a, frame, ty_name, field_name, span).trace),
{
    let rap = RapView::Struct {
        name: field_name,
        id: (a.arena.len() + 1) as usize,
        owner_id: (a.arena.len() + 1) as usize,
        is_mut: false,
        is_member: false,
    };
    let tpl2 = spec_tpl_add(a.template, ty_name, field_name, rap);
    lemma_color_insert_ledger(
        AnalysisView { arena: a.arena.push(rap), template: tpl2, ..a },
        frame,
        field_name,
        StackItemView { info: Infoitem::Struct { span }, rap },
    );
}

/// Resolving a struct-literal field only appends to the ledger.
pub proof fn lemma_struct_field_ledger(
    a: AnalysisView,
    frame: int,
    ty_name: Seq<char>,
    field_name: Seq<char>,
    span: Span,
    owner_id: usize,
)
    requires
        0 <= frame < a.trace.len(),
    ensures
        trace_extends(
            a.trace,
            spec_struct_field_insert(a, frame, ty_name, field_name, span, owner_id).trace,
        ),
{
    match tpl_find(a.template, ty_name) {
        None => {
            lemma_trace_extends_refl(a.trace);
        },
        Some(i) => match slot_find(a.template[i].fields, field_name) {
            None => {
                lemma_trace_extends_refl(a.trace);
            },
            Some(k) => {
                let decl = a.template[i].fields[k].rap;
                let member = RapView::Struct {
                    name: field_name,
                    id: (a.arena.len() + 1) as usize,
                    owner_id: owner_id,
                    is_mut: false,
                    is_member: true,
                };
                let a1 = AnalysisView {
                    arena: a.arena.push(member),
                    registry: reg_add(a.registry, member),
                    ..a
                };
                lemma_color_insert_ledger(
                    a1,
                    frame,
                    field_name,
                    StackItemView { info: Infoitem::ExprStruct { span }, rap: decl },
                );
            },
        },
    }
}

/// Opening a frame only appends to the ledger.
pub proof fn lemma_push_frame_ledger(a: AnalysisView)
    ensures
        trace_extends(a.trace, spec_push_frame(a).trace),
{
    lemma_trace_extends_refl(a.trace);
    assert forall|f: int| 0 <= f < a.trace.len() implies frame_extends(
        #[trigger] a.trace[f],
        spec_push_frame(a).trace[f],
    ) by {
        assert(spec_push_frame(a).trace[f] == a.trace[f]);
        assert(frame_extends(a.trace[f], a.trace[f]));
    }
}

/// Extending the arena keeps every earlier RAP copy faithful.
pub proof fn lemma_arena_extend(arena: Seq<RapView>, r: RapView, x: RapView)
    requires
        rap_from_arena(arena, r),
    ensures
        rap_from_arena(arena.push(x), r),
{
}

impl Rap {
    /// An equal copy of this RAP.
    pub fn dup(&self) -> (r: Rap)
        ensures
            r@ == self@,
    {
        match self {
            Rap::Owner { name, id, is_mut } => Rap::Owner {
                name: name.clone(),
                id: *id,
                is_mut: *is_mut,
            },
            Rap::StaticRef { name, id, is_mut } => Rap::StaticRef {
                name: name.clone(),
                id: *id,
                is_mut: *is_mut,
            },
            Rap::MutRef { name, id, is_mut } => Rap::MutRef {
                name: name.clone(),
                id: *id,
                is_mut: *is_mut,
            },
            Rap::Struct { name, id, owner_id, is_mut, is_member } => Rap::Struct {
                name: name.clone(),
                id: *id,
                owner_id: *owner_id,
                is_mut: *is_mut,
                is_member: *is_member,
            },
            Rap::Function { name, id } => Rap::Function { name: name.clone(), id: *id },
        }
    }
}

/// Finds the first registry entry named `name`.
pub fn reg_find_exec(reg: &Vec<RegEntry>, name: &String) -> (r: Option<usize>)
    ensures
        match r {
            Some(i) => i < reg@.len() && reg_find(reg.deep_view(), name@) == Some(i as int),
            None => reg_find(reg.deep_view(), name@) is None,
        },
{
    let mut i: usize = 0;
    while i < reg.len()
        invariant
            i <= reg@.len(),
            reg_find(reg.deep_view(), name@) == reg_find_from(reg.deep_view(), name@, i as int),
        decreases reg@.len() - i,
    {
        assert(reg.deep_view()[i as int] == reg@[i as int]@);
        if reg[i].name == *name {
            return Some(i);
        }
        i = i + 1;
    }
    None
}

/// Finds the first template entry for `ty_name`.
pub fn tpl_find_exec(tpl: &Vec<TypeEntry>, ty_name: &String) -> (r: Option<usize>)
    ensures
        match r {
            Some(i) => i < tpl@.len() && tpl_find(tpl.deep_view(), ty_name@) == Some(i as int),
            None => tpl_find(tpl.deep_view(), ty_name@) is None,
        },
{
    let mut i: usize = 0;
    while i < tpl.len()
        invariant
            i <= tpl@.len(),
            tpl_find(tpl.deep_view(), ty_name@) == tpl_find_from(
                tpl.deep_view(),
                ty_name@,
                i as int,
            ),
        decreases tpl@.len() - i,
    {
        assert(tpl.deep_view()[i as int] == tpl@[i as int]@);
        if tpl[i].ty_name == *ty_name {
            return Some(i);
        }
        i = i + 1;
    }
    None
}

/// Finds the first field slot named `name`.
pub fn slot_find_exec(slots: &Vec<FieldSlot>, name: &String) -> (r: Option<usize>)
    ensures
        match r {
            Some(i) => i < slots@.len() && slot_find(slots.deep_view(), name@) == Some(i as int),
            None => slot_find(slots.deep_view(), name@) is None,
        },
{
    let mut i: usize = 0;
    while i < slots.len()
        invariant
            i <= slots@.len(),
            slot_find(slots.deep_view(), name@) == slot_find_from(
                slots.deep_view(),
                name@,
                i as int,
            ),
        decreases slots@.len() - i,
    {
        assert(slots.deep_view()[i as int] == slots@[i as int]@);
        if slots[i].name == *name {
            return Some(i);
        }
        i = i + 1;
    }
    None
}

/// Finds the first occurrence group named `name`.
pub fn occ_find_exec(entries: &Vec<NameOccs>, name: &String) -> (r: Option<usize>)
    ensures
        match r {
            Some(i) => i < entries@.len() && occ_find(entries.deep_view(), name@) == Some(
                i as int,
            ),
            None => occ_find(entries.deep_view(), name@) is None,
        },
{
    let mut i: usize = 0;
    while i < entries.len()
        invariant
            i <= entries@.len(),
            occ_find(entries.deep_view(), name@) == occ_find_from(
                entries.deep_view(),
                name@,
                i as int,
            ),
        decreases entries@.len() - i,
    {
        assert(entries.deep_view()[i as int] == entries@[i as int]@);
        if entries[i].name == *name {
            return Some(i);
        }
        i = i + 1;
    }
    None
}

impl Analysis {
    /// A fresh analysis state: empty registries and one open scope frame.
    pub fn new() -> (r: Analysis)
        ensures
            r@ == initial_analysis(),
            a_wf(r@),
    {
        let mut trace: Vec<Frame> = Vec::new();
        trace.push(Frame { entries: Vec::new() });
        let r = Analysis {
            arena: Vec::new(),
            registry: Vec::new(),
            template: Vec::new(),
            trace,
            reports: Vec::new(),
        };
        assert(r@ =~~= initial_analysis());
        r
    }

    /// The 1-based id the next allocated RAP will carry. The arena
    /// briefly holds a scratch entry so that its own length witnesses
    /// that the new id is representable; the state is left unchanged.
    pub fn next_id(&mut self) -> (r: usize)
        ensures
            final(self)@ == old(self)@,
            r == old(self)@.arena.len() + 1,
    {
        let ghost a0 = self@;
        self.arena.push(Rap::Function { name: String::new(), id: 0 });
        let id = self.arena.len();
        self.arena.pop();
        proof {
            assert(self@ =~~= a0);
        }
        id
    }
}

/// The analysis state at the start of a run: everything empty but for one
/// open scope frame.
pub open spec fn initial_analysis() -> AnalysisView {
    AnalysisView {
        arena: Seq::empty(),
        registry: Seq::empty(),
        template: Seq::empty(),
        trace: seq![FrameView { entries: Seq::empty() }],
        reports: Seq::empty(),
    }
}

/// The state after recording occurrence `occ` of `name` in frame `frame`:
/// the occurrence joins the frame's group of that name, or opens a new
/// group.
pub open spec fn spec_color_insert(
    a: AnalysisView,
    frame: int,
    name: Seq<char>,
    occ: StackItemView,
) -> AnalysisView {
    let fr = a.trace[frame];
    let entries2 = match occ_find(fr.entries, name) {
        Some(i) => fr.entries.update(
            i,
            NameOccsView { name: fr.entries[i].name, occs: fr.entries[i].occs.push(occ) },
        ),
        None => fr.entries.push(NameOccsView { name: name, occs: seq![occ] }),
    };
    AnalysisView { trace: a.trace.update(frame, FrameView { entries: entries2 }), ..a }
}

/// The registry after allocating `rap`: appended to the chain of the first
/// entry of the RAP's name, or opening a new entry.
pub open spec fn reg_add(reg: Seq<RegEntryView>, rap: RapView) -> Seq<RegEntryView> {
    match reg_find(reg, rap_name(rap)) {
        Some(i) => reg.update(
            i,
            RegEntryView { name: reg[i].name, raps: reg[i].raps.push(rap) },
        ),
        None => reg.push(RegEntryView { name: rap_name(rap), raps: seq![rap] }),
    }
}

/// The occurrences recorded for `name` in frame `frame`, in trace order.
pub open spec fn occs_of(trace: Seq<FrameView>, frame: int, name: Seq<char>) -> Seq<StackItemView> {
    match occ_find(trace[frame].entries, name) {
        Some(i) => trace[frame].entries[i].occs,
        None => Seq::empty(),
    }
}

/// Two group lists with the same names in the same places are searched
/// alike.
proof fn lemma_occ_find_same_names(
    e1: Seq<NameOccsView>,
    e2: Seq<NameOccsView>,
    name: Seq<char>,
    i: int,
)
    requires
        e1.len() == e2.len(),
        forall|j: int| 0 <= j < e1.len() ==> (#[trigger] e1[j]).name == e2[j].name,
    ensures
        occ_find_from(e1, name, i) == occ_find_from(e2, name, i),
    decreases e1.len() - i,
{
    if 0 <= i < e1.len() && e1[i].name != name {
        lemma_occ_find_same_names(e1, e2, name, i + 1);
    }
}

/// Searching a group list with one more group at the end finds what the
/// shorter list found, or the new group when only its name matches.
proof fn lemma_occ_find_push(entries: Seq<NameOccsView>, x: NameOccsView, name: Seq<char>, i: int)
    requires
        0 <= i,
    ensures
        occ_find_from(entries.push(x), name, i) == match occ_find_from(entries, name, i) {
            Some(j) => Some(j),
            None => {
                if x.name == name && i <= entries.len() {
                    Some(entries.len() as int)
                } else {
                    None
                }
            },
        },
    decreases entries.len() + 1 - i,
{
    let e2 = entries.push(x);
    if i < entries.len() {
        if entries[i].name != name {
            lemma_occ_find_push(entries, x, name, i + 1);
        }
    } else if i == entries.len() {
        assert(occ_find_from(e2, name, i + 1) is None);
    }
}

/// Recording one occurrence touches nothing but the trace, and there
/// only the target frame's group of the occurrence's name: the
/// occurrence joins the end of that group, and every other name's
/// occurrences, in every frame, stay exactly as they were.
pub proof fn lemma_color_insert_appends_one(
    a: AnalysisView,
    frame: int,
    name: Seq<char>,
    occ: StackItemView,
)
    requires
        0 <= frame < a.trace.len(),
    ensures
        ({
            let t = spec_color_insert(a, frame, name, occ);
            &&& t.arena == a.arena
            &&& t.registry == a.registry
            &&& t.template == a.template
            &&& t.reports == a.reports
            &&& t.trace.len() == a.trace.len()
            &&& occs_of(t.trace, frame, name) =~= occs_of(a.trace, frame, name).push(occ)
            &&& forall|f: int, n: Seq<char>|
                0 <= f < a.trace.len() && !(f == frame && n =~= name) ==> occs_of(t.trace, f, n)
                    =~= occs_of(a.trace, f, n)
        }),
{
    let t = spec_color_insert(a, frame, name, occ);
    let fr = a.trace[frame];
    lemma_occ_find_from_range(fr.entries, name, 0);
    match occ_find(fr.entries, name) {
        Some(i) => {
            let entries2 = t.trace[frame].entries;
            assert forall|j: int| 0 <= j < fr.entries.len() implies (#[trigger] entries2[j]).name
                == fr.entries[j].name by {}
            lemma_occ_find_same_names(entries2, fr.entries, name, 0);
            assert forall|f: int, n: Seq<char>|
                0 <= f < a.trace.len() && !(f == frame && n =~= name) implies occs_of(
                t.trace,
                f,
                n,
            ) =~= occs_of(a.trace, f, n) by {
                if f == frame {
                    lemma_occ_find_same_names(entries2, fr.entries, n, 0);
                    lemma_occ_find_from_range(fr.entries, n, 0);
                    match occ_find(fr.entries, n) {
                        Some(k) => {
                            assert(fr.entries[k].name == n);
                            assert(k != i);
                        },
                        None => {},
                    }
                }
            }
        },
        None => {
            let added = NameOccsView { name: name, occs: seq![occ] };
            lemma_occ_find_push(fr.entries, added, name, 0);
            assert forall|f: int, n: Seq<char>|
                0 <= f < a.trace.len() && !(f == frame && n =~= name) implies occs_of(
                t.trace,
                f,
                n,
            ) =~= occs_of(a.trace, f, n) by {
                if f == frame {
                    lemma_occ_find_push(fr.entries, added, n, 0);
                    lemma_occ_find_from_range(fr.entries, n, 0);
                }
            }
        },
    }
}

/// A use of a name the registry knows appends exactly one occurrence,
/// resolving to the most recent RAP of the name's chain; nothing else
/// changes: no registry entry, no allocation, no report.
pub proof fn lemma_use_path_known(
    a: AnalysisView,
    frame: int,
    name: Seq<char>,
    info: Infoitem,
    register: bool,
    i: int,
)
    requires
        0 <= frame < a.trace.len(),
        reg_find(a.registry, name) == Some(i),
    ensures
        ({
            let t = spec_non_allo_insert(a, frame, name, info, register);
            let occ = StackItemView { info, rap: a.registry[i].raps.last() };
            &&& t.registry == a.registry
            &&& t.arena == a.arena
            &&& t.template == a.template
            &&& t.reports == a.reports
            &&& t.trace.len() == a.trace.len()
            &&& occs_of(t.trace, frame, name) =~= occs_of(a.trace, frame, name).push(occ)
            &&& forall|f: int, n: Seq<char>|
                0 <= f < a.trace.len() && !(f == frame && n =~= name) ==> occs_of(t.trace, f, n)
                    =~= occs_of(a.trace, f, n)
        }),
{
    lemma_color_insert_appends_one(
        a,
        frame,
        name,
        StackItemView { info, rap: a.registry[i].raps.last() },
    );
}

/// A callee-like use of a name the registry does not know
/// self-registers: a fresh `Function` RAP with the next id enters the
/// arena and opens a new single-RAP chain, and exactly one occurrence
/// for the name is recorded, resolving to that RAP; no report is added.
pub proof fn lemma_use_path_self_registers(
    a: AnalysisView,
    frame: int,
    name: Seq<char>,
    info: Infoitem,
)
    requires
        0 <= frame < a.trace.len(),
        reg_find(a.registry, name) is None,
    ensures
        ({
            let rap = RapView::Function { name: name, id: (a.arena.len() + 1) as usize };
            let t = spec_non_allo_insert(a, frame, name, info, true);
            &&& t.arena == a.arena.push(rap)
            &&& t.registry =~~= a.registry.push(RegEntryView { name: name, raps: seq![rap] })
            &&& t.template == a.template
            &&& t.reports == a.reports
            &&& t.trace.len() == a.trace.len()
            &&& occs_of(t.trace, frame, name) =~= occs_of(a.trace, frame, name).push(
                StackItemView { info, rap },
            )
            &&& forall|f: int, n: Seq<char>|
                0 <= f < a.trace.len() && !(f == frame && n =~= name) ==> occs_of(t.trace, f, n)
                    =~= occs_of(a.trace, f, n)
        }),
{
    let rap = RapView::Function { name: name, id: (a.arena.len() + 1) as usize };
    lemma_reg_add_chain(a.registry, rap);
    let ar = spec_alloc_rap(a, rap);
    let amid = AnalysisView { registry: reg_add(ar.registry, rap), ..ar };
    lemma_color_insert_appends_one(amid, frame, name, StackItemView { info, rap });
}

/// A use of a name the registry does not know, where no RAP may be
/// synthesized, is an undefined-identifier condition: exactly one report
/// is added, and registry, arena, template and trace — so every recorded
/// occurrence — stay exactly as they were.
pub proof fn lemma_undefined_use(a: AnalysisView, frame: int, name: Seq<char>, info: Infoitem)
    requires
        reg_find(a.registry, name) is None,
    ensures
        spec_non_allo_insert(a, frame, name, info, false) == (AnalysisView {
            reports: a.reports.push(ReportView::UndefinedIdentifier { name: name }),
            ..a
        }),
{
}

/// `name` has no identity and no recorded occurrence anywhere in the
/// state.
pub open spec fn name_unrecorded(a: AnalysisView, name: Seq<char>) -> bool {
    &&& reg_find(a.registry, name) is None
    &&& forall|f: int| 0 <= f < a.trace.len() ==> occs_of(a.trace, f, name).len() == 0
}

/// Two registries with the same names in the same places are searched
/// alike.
pub proof fn lemma_reg_find_same_names(
    r1: Seq<RegEntryView>,
    r2: Seq<RegEntryView>,
    name: Seq<char>,
    i: int,
)
    requires
        r1.len() == r2.len(),
        forall|j: int| 0 <= j < r1.len() ==> (#[trigger] r1[j]).name == r2[j].name,
    ensures
        reg_find_from(r1, name, i) == reg_find_from(r2, name, i),
    decreases r1.len() - i,
{
    if 0 <= i < r1.len() && r1[i].name != name {
        lemma_reg_find_same_names(r1, r2, name, i + 1);
    }
}

/// Searching a registry with one more entry at the end finds what the
/// shorter registry found, or the new entry when only its name matches.
pub proof fn lemma_reg_find_push(reg: Seq<RegEntryView>, x: RegEntryView, name: Seq<char>, i: int)
    requires
        0 <= i,
    ensures
        reg_find_from(reg.push(x), name, i) == match reg_find_from(reg, name, i) {
            Some(j) => Some(j),
            None => {
                if x.name == name && i <= reg.len() {
                    Some(reg.len() as int)
                } else {
                    None
                }
            },
        },
    decreases reg.len() + 1 - i,
{
    let r2 = reg.push(x);
    if i < reg.len() {
        if reg[i].name != name {
            lemma_reg_find_push(reg, x, name, i + 1);
        }
    } else if i == reg.len() {
        assert(reg_find_from(r2, name, i + 1) is None);
    }
}

/// Allocating a RAP of another name never makes `name` known.
proof fn lemma_reg_add_preserves_absent(reg: Seq<RegEntryView>, rap: RapView, name: Seq<char>)
    requires
        rap_name(rap) != name,
        reg_find(reg, name) is None,
    ensures
        reg_find(reg_add(reg, rap), name) is None,
{
    lemma_reg_find_from_range(reg, rap_name(rap), 0);
    match reg_find(reg, rap_name(rap)) {
        Some(i) => {
            lemma_reg_find_same_names(reg_add(reg, rap), reg, name, 0);
        },
        None => {
            lemma_reg_find_push(reg, RegEntryView { name: rap_name(rap), raps: seq![rap] }, name, 0);
            assert(reg_add(reg, rap) =~~= reg.push(
                RegEntryView { name: rap_name(rap), raps: seq![rap] },
            ));
        },
    }
}

/// The allocation path leaves a name of another RAP unrecorded, and
/// opens no frame.
pub proof fn lemma_var_allo_unrecorded(
    a: AnalysisView,
    frame: int,
    info: Infoitem,
    rap: RapView,
    name: Seq<char>,
)
    requires
        0 <= frame < a.trace.len(),
        name_unrecorded(a, name),
        rap_name(rap) != name,
    ensures
        name_unrecorded(spec_var_allo_insert(a, frame, info, rap), name),
        spec_var_allo_insert(a, frame, info, rap).trace.len() == a.trace.len(),
{
    let ar = spec_alloc_rap(a, rap);
    let amid = AnalysisView { registry: reg_add(ar.registry, rap), ..ar };
    lemma_reg_add_preserves_absent(a.registry, rap, name);
    lemma_color_insert_appends_one(amid, frame, rap_name(rap), StackItemView { info, rap });
    let t = spec_var_allo_insert(a, frame, info, rap);
    lemma_reg_find_same_names(t.registry, amid.registry, name, 0);
    assert forall|f: int| 0 <= f < t.trace.len() implies occs_of(t.trace, f, name).len()
        == 0 by {
        assert(occs_of(a.trace, f, name).len() == 0);
        assert(occs_of(t.trace, f, name) =~= occs_of(amid.trace, f, name));
    }
}

/// Registering an already reserved RAP of another name leaves `name`
/// unrecorded, and opens no frame.
pub proof fn lemma_register_unrecorded(
    a: AnalysisView,
    frame: int,
    info: Infoitem,
    rap: RapView,
    name: Seq<char>,
)
    requires
        0 <= frame < a.trace.len(),
        name_unrecorded(a, name),
        rap_name(rap) != name,
    ensures
        name_unrecorded(spec_register_alloc(a, frame, info, rap), name),
        spec_register_alloc(a, frame, info, rap).trace.len() == a.trace.len(),
{
    let amid = AnalysisView { registry: reg_add(a.registry, rap), ..a };
    lemma_reg_add_preserves_absent(a.registry, rap, name);
    lemma_color_insert_appends_one(amid, frame, rap_name(rap), StackItemView { info, rap });
    let t = spec_register_alloc(a, frame, info, rap);
    lemma_reg_find_same_names(t.registry, amid.registry, name, 0);
    assert forall|f: int| 0 <= f < t.trace.len() implies occs_of(t.trace, f, name).len()
        == 0 by {
        assert(occs_of(a.trace, f, name).len() == 0);
        assert(occs_of(t.trace, f, name) =~= occs_of(amid.trace, f, name));
    }
}

/// The use path leaves `name` unrecorded when it resolves or registers
/// some other name, and also when it fails to resolve `name` itself (an
/// unresolved non-synthesizing use only reports); it opens no frame.
pub proof fn lemma_non_allo_unrecorded(
    a: AnalysisView,
    frame: int,
    n2: Seq<char>,
    info: Infoitem,
    register: bool,
    name: Seq<char>,
)
    requires
        0 <= frame < a.trace.len(),
        name_unrecorded(a, name),
        n2 == name ==> !register,
    ensures
        name_unrecorded(spec_non_allo_insert(a, frame, n2, info, register), name),
        spec_non_allo_insert(a, frame, n2, info, register).trace.len() == a.trace.len(),
{
    let t = spec_non_allo_insert(a, frame, n2, info, register);
    match reg_find(a.registry, n2) {
        Some(i) => {
            assert(n2 != name);
            lemma_color_insert_appends_one(
                a,
                frame,
                n2,
                StackItemView { info, rap: a.registry[i].raps.last() },
            );
            assert forall|f: int| 0 <= f < t.trace.len() implies occs_of(t.trace, f, name).len()
                == 0 by {
                assert(occs_of(t.trace, f, name) =~= occs_of(a.trace, f, name));
            }
        },
        None => {
            if register {
                let rap = RapView::Function { name: n2, id: (a.arena.len() + 1) as usize };
                lemma_var_allo_unrecorded(a, frame, info, rap, name);
            }
        },
    }
}

/// Registering a declared field of another name leaves `name`
/// unrecorded, and opens no frame.
pub proof fn lemma_struct_def_unrecorded(
    a: AnalysisView,
    frame: int,
    ty_name: Seq<char>,
    field_name: Seq<char>,
    span: Span,
    name: Seq<char>,
)
    requires
        0 <= frame < a.trace.len(),
        name_unrecorded(a, name),
        field_name != name,
    ensures
        name_unrecorded(spec_struct_def_insert(a, frame, ty_name, field_name, span), name),
        spec_struct_def_insert(a, frame, ty_name, field_name, span).trace.len() == a.trace.len(),
{
    let rap = RapView::Struct {
        name: field_name,
        id: (a.arena.len() + 1) as usize,
        owner_id: (a.arena.len() + 1) as usize,
        is_mut: false,
        is_member: false,
    };
    let tpl2 = spec_tpl_add(a.template, ty_name, field_name, rap);
    let amid = AnalysisView { arena: a.arena.push(rap), template: tpl2, ..a };
    lemma_color_insert_appends_one(
        amid,
        frame,
        field_name,
        StackItemView { info: Infoitem::Struct { span }, rap },
    );
    let t = spec_struct_def_insert(a, frame, ty_name, field_name, span);
    assert forall|f: int| 0 <= f < t.trace.len() implies occs_of(t.trace, f, name).len()
        == 0 by {
        assert(occs_of(a.trace, f, name).len() == 0);
        assert(occs_of(t.trace, f, name) =~= occs_of(amid.trace, f, name));
    }
}

/// Resolving a struct-literal field of another name leaves `name`
/// unrecorded, and opens no frame.
pub proof fn lemma_struct_field_unrecorded(
    a: AnalysisView,
    frame: int,
    ty_name: Seq<char>,
    field_name: Seq<char>,
    span: Span,
    owner_id: usize,
    name: Seq<char>,
)
    requires
        0 <= frame < a.trace.len(),
        name_unrecorded(a, name),
        field_name != name,
    ensures
        name_unrecorded(
            spec_struct_field_insert(a, frame, ty_name, field_name, span, owner_id),
            name,
        ),
        spec_struct_field_insert(a, frame, ty_name, field_name, span, owner_id).trace.len()
            == a.trace.len(),
{
    let t = spec_struct_field_insert(a, frame, ty_name, field_name, span, owner_id);
    match tpl_find(a.template, ty_name) {
        None => {},
        Some(i) => match slot_find(a.template[i].fields, field_name) {
            None => {},
            Some(k) => {
                let decl = a.template[i].fields[k].rap;
                let member = RapView::Struct {
                    name: field_name,
                    id: (a.arena.len() + 1) as usize,
                    owner_id: owner_id,
                    is_mut: false,
                    is_member: true,
                };
                let amid = AnalysisView {
                    arena: a.arena.push(member),
                    registry: reg_add(a.registry, member),
                    ..a
                };
                lemma_reg_add_preserves_absent(a.registry, member, name);
                lemma_color_insert_appends_one(
                    amid,
                    frame,
                    field_name,
                    StackItemView { info: Infoitem::ExprStruct { span }, rap: decl },
                );
                lemma_reg_find_same_names(t.registry, amid.registry, name, 0);
                assert forall|f: int| 0 <= f < t.trace.len() implies occs_of(
                    t.trace,
                    f,
                    name,
                ).len() == 0 by {
                    assert(occs_of(a.trace, f, name).len() == 0);
                assert(occs_of(a.trace, f, name).len() == 0);
        assert(occs_of(t.trace, f, name) =~= occs_of(amid.trace, f, name));
                }
            },
        },
    }
}

/// A newly opened frame holds no occurrence of any name.
pub proof fn lemma_push_frame_unrecorded(a: AnalysisView, name: Seq<char>)
    requires
        name_unrecorded(a, name),
    ensures
        name_unrecorded(spec_push_frame(a), name),
{
    let t = spec_push_frame(a);
    assert forall|f: int| 0 <= f < t.trace.len() implies occs_of(t.trace, f, name).len()
        == 0 by {
        if f < a.trace.len() {
            assert(occs_of(a.trace, f, name).len() == 0);
            assert(t.trace[f] == a.trace[f]);
        } else {
            assert(occ_find_from(t.trace[f].entries, name, 0) is None);
        }
    }
}

/// Allocation appends to the shadow chain: when the registry already
/// holds an entry for the RAP's name, the new RAP joins the end of that
/// entry's chain and every other entry stays as it was; when it holds
/// none, a new entry opens with a single-element chain.
pub proof fn lemma_reg_add_chain(reg: Seq<RegEntryView>, rap: RapView)
    ensures
        match reg_find(reg, rap_name(rap)) {
            Some(i) => {
                &&& reg_add(reg, rap).len() == reg.len()
                &&& reg_add(reg, rap)[i].raps == reg[i].raps.push(rap)
                &&& reg_add(reg, rap)[i].name == reg[i].name
                &&& forall|j: int|
                    0 <= j < reg.len() && j != i ==> #[trigger] reg_add(reg, rap)[j] == reg[j]
            },
            None => {
                &&& reg_add(reg, rap).len() == reg.len() + 1
                &&& reg_add(reg, rap).last() == (RegEntryView {
                    name: rap_name(rap),
                    raps: seq![rap],
                })
                &&& forall|j: int| 0 <= j < reg.len() ==> #[trigger] reg_add(reg, rap)[j] == reg[j]
            },
        },
{
    lemma_reg_find_from_range(reg, rap_name(rap), 0);
}

/// The state after reserving `rap` in the arena: the RAP takes the next
/// 1-based id and nothing else changes yet. Reservation lets a `let`
/// binding take its id before its initializer is walked.
pub open spec fn spec_alloc_rap(a: AnalysisView, rap: RapView) -> AnalysisView {
    AnalysisView { arena: a.arena.push(rap), ..a }
}

/// The state after registering the already reserved `rap` under its name
/// and recording its introduction in frame `frame`.
pub open spec fn spec_register_alloc(
    a: AnalysisView,
    frame: int,
    info: Infoitem,
    rap: RapView,
) -> AnalysisView {
    spec_color_insert(
        AnalysisView { registry: reg_add(a.registry, rap), ..a },
        frame,
        rap_name(rap),
        StackItemView { info, rap },
    )
}

/// The state after the resolver's allocation path: `rap` enters the arena
/// and the registry, and its introduction is recorded in frame `frame`.
pub open spec fn spec_var_allo_insert(
    a: AnalysisView,
    frame: int,
    info: Infoitem,
    rap: RapView,
) -> AnalysisView {
    spec_register_alloc(spec_alloc_rap(a, rap), frame, info, rap)
}

/// The state after the resolver's use path for `name`. A known name
/// resolves to the most recent RAP of its chain. An unknown one either
/// self-registers a fresh `Function` RAP (callee-like uses) or, when no RAP
/// may be synthesized, leaves only an undefined-identifier report.
pub open spec fn spec_non_allo_insert(
    a: AnalysisView,
    frame: int,
    name: Seq<char>,
    info: Infoitem,
    register: bool,
) -> AnalysisView {
    match reg_find(a.registry, name) {
        Some(i) => spec_color_insert(
            a,
            frame,
            name,
            StackItemView { info, rap: a.registry[i].raps.last() },
        ),
        None => {
            if register {
                let rap = RapView::Function { name: name, id: (a.arena.len() + 1) as usize };
                spec_var_allo_insert(a, frame, info, rap)
            } else {
                AnalysisView {
                    reports: a.reports.push(ReportView::UndefinedIdentifier { name: name }),
                    ..a
                }
            }
        },
    }
}

/// The state after registering the declared field `field_name` of struct
/// type `ty_name`: a declaration RAP enters the arena and the template (a
/// re-declared field replaces its slot), and the declaration is recorded
/// in frame `frame`.
pub open spec fn spec_struct_def_insert(
    a: AnalysisView,
    frame: int,
    ty_name: Seq<char>,
    field_name: Seq<char>,
    span: Span,
) -> AnalysisView {
    let rap = RapView::Struct {
        name: field_name,
        id: (a.arena.len() + 1) as usize,
        owner_id: (a.arena.len() + 1) as usize,
        is_mut: false,
        is_member: false,
    };
    let tpl2 = spec_tpl_add(a.template, ty_name, field_name, rap);
    spec_color_insert(
        AnalysisView { arena: a.arena.push(rap), template: tpl2, ..a },
        frame,
        field_name,
        StackItemView { info: Infoitem::Struct { span }, rap },
    )
}

/// The state after resolving the struct-literal field `field_name` of an
/// instance with id `owner_id` against the template of `ty_name`. On a
/// template hit, a fresh member RAP (owned by the instance) enters arena
/// and registry, and the occurrence resolves to the declaration RAP of the
/// field; on a miss, only a report is added.
pub open spec fn spec_struct_field_insert(
    a: AnalysisView,
    frame: int,
    ty_name: Seq<char>,
    field_name: Seq<char>,
    span: Span,
    owner_id: usize,
) -> AnalysisView {
    let miss = AnalysisView {
        reports: a.reports.push(
            ReportView::TemplateMiss { ty_name: ty_name, field: field_name },
        ),
        ..a
    };
    match tpl_find(a.template, ty_name) {
        None => miss,
        Some(i) => match slot_find(a.template[i].fields, field_name) {
            None => miss,
            Some(k) => {
                let decl = a.template[i].fields[k].rap;
                let member = RapView::Struct {
                    name: field_name,
                    id: (a.arena.len() + 1) as usize,
                    owner_id: owner_id,
                    is_mut: false,
                    is_member: true,
                };
                let a1 = AnalysisView {
                    arena: a.arena.push(member),
                    registry: reg_add(a.registry, member),
                    ..a
                };
                spec_color_insert(
                    a1,
                    frame,
                    field_name,
                    StackItemView { info: Infoitem::ExprStruct { span }, rap: decl },
                )
            },
        },
    }
}

/// The state with one more (empty) scope frame.
pub open spec fn spec_push_frame(a: AnalysisView) -> AnalysisView {
    AnalysisView { trace: a.trace.push(FrameView { entries: Seq::empty() }), ..a }
}

/// The state with one more report.
pub open spec fn spec_push_report(a: AnalysisView, rep: ReportView) -> AnalysisView {
    AnalysisView { reports: a.reports.push(rep), ..a }
}

/// Records occurrence `item` of `name` in frame `frame` of the trace.
pub fn color_insert(ctx: &mut Analysis, frame: usize, name: &String, item: StackItem)
    requires
        a_wf(old(ctx)@),
        frame < old(ctx)@.trace.len(),
        rap_from_arena(old(ctx)@.arena, item@.rap),
    ensures
        final(ctx)@ == spec_color_insert(old(ctx)@, frame as int, name@, item@),
        a_wf(final(ctx)@),
        arena_extends(old(ctx)@.arena, final(ctx)@.arena),
        final(ctx)@.trace.len() >= old(ctx)@.trace.len(),
{
    let ghost a0 = ctx@;
    let idx = occ_find_exec(&ctx.trace[frame].entries, name);
    match idx {
        Some(i) => {
            let e: &mut NameOccs = &mut ctx.trace[frame].entries[i];
            e.occs.push(item);
        },
        None => {
            let mut occs: Vec<StackItem> = Vec::new();
            occs.push(item);
            ctx.trace[frame].entries.push(NameOccs { name: name.clone(), occs });
        },
    }
    proof {
        assert(ctx@ =~~= spec_color_insert(a0, frame as int, name@, item@));
        let a2 = ctx@;
        assert forall|f: int, e: int, o: int|
            0 <= f < a2.trace.len() && 0 <= e < a2.trace[f].entries.len() && 0 <= o
                < a2.trace[f].entries[e].occs.len() implies rap_from_arena(
            a2.arena,
            (#[trigger] a2.trace[f].entries[e].occs[o]).rap,
        ) by {
            if f == frame {
                let old_entries = a0.trace[f].entries;
                if e < old_entries.len() && o < old_entries[e].occs.len() {
                    assert(rap_from_arena(a0.arena, a0.trace[f].entries[e].occs[o].rap));
                }
            } else {
                assert(rap_from_arena(a0.arena, a0.trace[f].entries[e].occs[o].rap));
            }
        }
    }
}

/// Reserves `rap` in the arena: it takes the next 1-based id, and
/// nothing else changes yet. A `let` binding is reserved before its
/// initializer is walked, so the binding's id precedes the ids of
/// everything the initializer registers.
pub fn alloc_rap(ctx: &mut Analysis, rap: Rap)
    requires
        a_wf(old(ctx)@),
        rap_id(rap@) as int == old(ctx)@.arena.len() + 1,
        !is_struct_member(rap@),
    ensures
        final(ctx)@ == spec_alloc_rap(old(ctx)@, rap@),
        a_wf(final(ctx)@),
        arena_extends(old(ctx)@.arena, final(ctx)@.arena),
        final(ctx)@.trace.len() >= old(ctx)@.trace.len(),
        rap_from_arena(final(ctx)@.arena, rap@),
{
    let ghost a0 = ctx@;
    let ghost rv = rap@;
    ctx.arena.push(rap);
    proof {
        assert(ctx@ =~~= spec_alloc_rap(a0, rv));
        lemma_wf_after_alloc_only(a0, rv);
    }
}

/// Registers the already reserved `rap` under its name (appending to
/// the name's shadow chain, or opening a new entry) and records its
/// introduction occurrence in frame `frame`.
pub fn register_alloc(ctx: &mut Analysis, frame: usize, info: Infoitem, rap: Rap)
    requires
        a_wf(old(ctx)@),
        frame < old(ctx)@.trace.len(),
        rap_from_arena(old(ctx)@.arena, rap@),
    ensures
        final(ctx)@ == spec_register_alloc(old(ctx)@, frame as int, info, rap@),
        a_wf(final(ctx)@),
        arena_extends(old(ctx)@.arena, final(ctx)@.arena),
        final(ctx)@.trace.len() >= old(ctx)@.trace.len(),
{
    let ghost a0 = ctx@;
    let name = rap.name().clone();
    let rap_for_occ = rap.dup();
    let rap_for_reg = rap;
    match reg_find_exec(&ctx.registry, &name) {
        Some(i) => {
            let e: &mut RegEntry = &mut ctx.registry[i];
            e.raps.push(rap_for_reg);
        },
        None => {
            let mut raps: Vec<Rap> = Vec::new();
            raps.push(rap_for_reg);
            ctx.registry.push(RegEntry { name: name.clone(), raps });
        },
    }
    proof {
        let a1 = AnalysisView { registry: reg_add(a0.registry, rap_for_occ@), ..a0 };
        assert(ctx@ =~~= a1);
        lemma_wf_after_register(a0, rap_for_occ@);
    }
    color_insert(ctx, frame, &name, StackItem { info, rap: rap_for_occ });
}

/// The resolver's allocation path: allocates `rap` (its id must be the
/// next 1-based arena slot), registers it under its name, and records
/// its introduction in frame `frame`.
pub fn var_allo_insert(ctx: &mut Analysis, frame: usize, info: Infoitem, rap: Rap)
    requires
        a_wf(old(ctx)@),
        frame < old(ctx)@.trace.len(),
        rap_id(rap@) as int == old(ctx)@.arena.len() + 1,
        !is_struct_member(rap@),
    ensures
        final(ctx)@ == spec_var_allo_insert(old(ctx)@, frame as int, info, rap@),
        a_wf(final(ctx)@),
        arena_extends(old(ctx)@.arena, final(ctx)@.arena),
        final(ctx)@.trace.len() >= old(ctx)@.trace.len(),
{
    let rap2 = rap.dup();
    alloc_rap(ctx, rap);
    register_alloc(ctx, frame, info, rap2);
}

/// The resolver's use path for `name` at an occurrence of kind `info`.
/// A known name resolves to the most recent RAP of its chain. An unknown
/// one self-registers a fresh `Function` RAP when `register` holds
/// (callee-like uses need not be pre-declared); otherwise the use is an
/// undefined-identifier condition: reported, with no occurrence recorded.
pub fn non_allo_insert(
    ctx: &mut Analysis,
    frame: usize,
    name: &String,
    info: Infoitem,
    register: bool,
)
    requires
        a_wf(old(ctx)@),
        frame < old(ctx)@.trace.len(),
    ensures
        final(ctx)@ == spec_non_allo_insert(old(ctx)@, frame as int, name@, info, register),
        a_wf(final(ctx)@),
        arena_extends(old(ctx)@.arena, final(ctx)@.arena),
        final(ctx)@.trace.len() >= old(ctx)@.trace.len(),
{
    let ghost a0 = ctx@;
    match reg_find_exec(&ctx.registry, name) {
        Some(i) => {
            let e = &ctx.registry[i];
            assert(e@.raps.len() > 0) by {
                assert(ctx@.registry[i as int].raps.len() > 0);
            }
            let rap = e.raps[e.raps.len() - 1].dup();
            proof {
                assert(rap@ == a0.registry[i as int].raps.last());
                assert(rap_from_arena(a0.arena, rap@));
            }
            color_insert(ctx, frame, name, StackItem { info, rap });
        },
        None => {
            if register {
                let id = ctx.next_id();
                let rap = Rap::Function { name: name.clone(), id };
                var_allo_insert(ctx, frame, info, rap);
            } else {
                ctx.reports.push(Report::UndefinedIdentifier { name: name.clone() });
                assert(ctx@ =~~= spec_non_allo_insert(a0, frame as int, name@, info, register));
            }
        },
    }
}

/// Reserving a non-member RAP with the next 1-based id preserves
/// well-formedness.
proof fn lemma_wf_after_alloc_only(a: AnalysisView, rap: RapView)
    requires
        a_wf(a),
        rap_id(rap) as int == a.arena.len() + 1,
        !is_struct_member(rap),
    ensures
        a_wf(spec_alloc_rap(a, rap)),
        rap_from_arena(a.arena.push(rap), rap),
{
    let arena2 = a.arena.push(rap);
    assert forall|i: int|
        0 <= i < arena2.len() && is_struct_member(#[trigger] arena2[i]) implies has_instance(
        arena2,
        rap_owner_id(arena2[i]),
    ) by {
        assert(arena2[i] == a.arena[i]);
        assert(has_instance(a.arena, rap_owner_id(a.arena[i])));
        let j = choose|j: int|
            0 <= j < a.arena.len() && is_struct_instance(#[trigger] a.arena[j]) && rap_id(
                a.arena[j],
            ) == rap_owner_id(a.arena[i]);
        assert(is_struct_instance(arena2[j]));
    }
    assert forall|i: int, k: int|
        0 <= i < a.registry.len() && 0 <= k < a.registry[i].raps.len() implies rap_from_arena(
        arena2,
        #[trigger] a.registry[i].raps[k],
    ) by {
        assert(rap_from_arena(a.arena, a.registry[i].raps[k]));
    }
    assert forall|i: int, k: int|
        0 <= i < a.template.len() && 0 <= k < a.template[i].fields.len() implies rap_from_arena(
        arena2,
        (#[trigger] a.template[i].fields[k]).rap,
    ) by {
        assert(rap_from_arena(a.arena, a.template[i].fields[k].rap));
    }
    assert forall|f: int, e: int, o: int|
        0 <= f < a.trace.len() && 0 <= e < a.trace[f].entries.len() && 0 <= o
            < a.trace[f].entries[e].occs.len() implies rap_from_arena(
        arena2,
        (#[trigger] a.trace[f].entries[e].occs[o]).rap,
    ) by {
        assert(rap_from_arena(a.arena, a.trace[f].entries[e].occs[o].rap));
    }
}

/// Registering an already reserved RAP preserves well-formedness into
/// the state that holds it in the registry too.
proof fn lemma_wf_after_register(a: AnalysisView, rap: RapView)
    requires
        a_wf(a),
        rap_from_arena(a.arena, rap),
    ensures
        a_wf(AnalysisView { registry: reg_add(a.registry, rap), ..a }),
{
    let reg2 = reg_add(a.registry, rap);
    lemma_reg_find_from_range(a.registry, rap_name(rap), 0);
    assert forall|i: int, k: int|
        0 <= i < reg2.len() && 0 <= k < reg2[i].raps.len() implies rap_from_arena(
        a.arena,
        #[trigger] reg2[i].raps[k],
    ) by {
        match reg_find(a.registry, rap_name(rap)) {
            Some(fi) => {
                if i == fi && k == reg2[i].raps.len() - 1 {
                    assert(reg2[i].raps[k] == rap);
                } else {
                    assert(reg2[i].raps[k] == a.registry[i].raps[k]);
                    assert(rap_from_arena(a.arena, a.registry[i].raps[k]));
                }
            },
            None => {
                if i == reg2.len() - 1 {
                    assert(reg2[i].raps[k] == rap);
                } else {
                    assert(rap_from_arena(a.arena, a.registry[i].raps[k]));
                }
            },
        }
    }
    assert forall|i: int| 0 <= i < reg2.len() implies (#[trigger] reg2[i].raps).len() > 0 by {
        match reg_find(a.registry, rap_name(rap)) {
            Some(fi) => {
                if i != fi {
                    assert(reg2[i] == a.registry[i]);
                }
            },
            None => {
                if i < reg2.len() - 1 {
                    assert(reg2[i] == a.registry[i]);
                }
            },
        }
    }
}

/// Registers the declared field `field_name` of struct type `ty_name`:
/// allocates a declaration RAP, stores it in the type's template (a
/// re-declared field name replaces its slot), and records the declaration
/// occurrence in frame `frame`.
pub fn struct_def_insert(
    ctx: &mut Analysis,
    frame: usize,
    ty_name: &String,
    field_name: &String,
    span: Span,
)
    requires
        a_wf(old(ctx)@),
        frame < old(ctx)@.trace.len(),
    ensures
        final(ctx)@ == spec_struct_def_insert(old(ctx)@, frame as int, ty_name@, field_name@, span),
        a_wf(final(ctx)@),
        arena_extends(old(ctx)@.arena, final(ctx)@.arena),
        final(ctx)@.trace.len() >= old(ctx)@.trace.len(),
{
    let ghost a0 = ctx@;
    let id = ctx.next_id();
    let rap = Rap::Struct {
        name: field_name.clone(),
        id,
        owner_id: id,
        is_mut: false,
        is_member: false,
    };
    let rap_for_occ = rap.dup();
    let rap_for_tpl = rap.dup();
    ctx.arena.push(rap);
    match tpl_find_exec(&ctx.template, ty_name) {
        Some(i) => {
            let k = slot_find_exec(&ctx.template[i].fields, field_name);
            let e: &mut TypeEntry = &mut ctx.template[i];
            match k {
                Some(k) => {
                    let s: &mut FieldSlot = &mut e.fields[k];
                    s.rap = rap_for_tpl;
                },
                None => {
                    e.fields.push(FieldSlot { name: field_name.clone(), rap: rap_for_tpl });
                },
            }
        },
        None => {
            let mut fields: Vec<FieldSlot> = Vec::new();
            fields.push(FieldSlot { name: field_name.clone(), rap: rap_for_tpl });
            ctx.template.push(TypeEntry { ty_name: ty_name.clone(), fields });
        },
    }
    proof {
        let rv = rap_for_occ@;
        let tpl2 = spec_tpl_add(a0.template, ty_name@, field_name@, rv);
        let a1 = AnalysisView { arena: a0.arena.push(rv), template: tpl2, ..a0 };
        assert(ctx@ =~~= a1);
        lemma_wf_after_def(a0, ty_name@, field_name@, rv);
    }
    color_insert(ctx, frame, field_name, StackItem { info: Infoitem::Struct { span }, rap: rap_for_occ });
}

/// The template after storing declaration RAP `rap` for field
/// `field_name` of type `ty_name`.
pub open spec fn spec_tpl_add(
    tpl: Seq<TypeEntryView>,
    ty_name: Seq<char>,
    field_name: Seq<char>,
    rap: RapView,
) -> Seq<TypeEntryView> {
    match tpl_find(tpl, ty_name) {
        Some(i) => {
            let slots = tpl[i].fields;
            let slots2 = match slot_find(slots, field_name) {
                Some(k) => slots.update(k, FieldSlotView { name: slots[k].name, rap: rap }),
                None => slots.push(FieldSlotView { name: field_name, rap: rap }),
            };
            tpl.update(i, TypeEntryView { ty_name: tpl[i].ty_name, fields: slots2 })
        },
        None => tpl.push(
            TypeEntryView {
                ty_name: ty_name,
                fields: seq![FieldSlotView { name: field_name, rap: rap }],
            },
        ),
    }
}

/// Allocating a non-member RAP into arena and template preserves
/// well-formedness.
proof fn lemma_wf_after_def(a: AnalysisView, ty_name: Seq<char>, field_name: Seq<char>, rap: RapView)
    requires
        a_wf(a),
        rap_id(rap) as int == a.arena.len() + 1,
        !is_struct_member(rap),
    ensures
        a_wf(
            AnalysisView {
                arena: a.arena.push(rap),
                template: spec_tpl_add(a.template, ty_name, field_name, rap),
                ..a
            },
        ),
        rap_from_arena(a.arena.push(rap), rap),
{
    let arena2 = a.arena.push(rap);
    let tpl2 = spec_tpl_add(a.template, ty_name, field_name, rap);
    lemma_tpl_find_from_range(a.template, ty_name, 0);
    assert forall|i: int|
        0 <= i < arena2.len() && is_struct_member(#[trigger] arena2[i]) implies has_instance(
        arena2,
        rap_owner_id(arena2[i]),
    ) by {
        assert(arena2[i] == a.arena[i]);
        assert(has_instance(a.arena, rap_owner_id(a.arena[i])));
        let j = choose|j: int|
            0 <= j < a.arena.len() && is_struct_instance(#[trigger] a.arena[j]) && rap_id(
                a.arena[j],
            ) == rap_owner_id(a.arena[i]);
        assert(is_struct_instance(arena2[j]));
    }
    assert forall|i: int, k: int|
        0 <= i < a.registry.len() && 0 <= k < a.registry[i].raps.len() implies rap_from_arena(
        arena2,
        #[trigger] a.registry[i].raps[k],
    ) by {
        assert(rap_from_arena(a.arena, a.registry[i].raps[k]));
    }
    assert forall|i: int, k: int|
        0 <= i < tpl2.len() && 0 <= k < tpl2[i].fields.len() implies rap_from_arena(
        arena2,
        (#[trigger] tpl2[i].fields[k]).rap,
    ) by {
        match tpl_find(a.template, ty_name) {
            Some(fi) => {
                lemma_slot_find_from_range(a.template[fi].fields, field_name, 0);
                if i == fi {
                    match slot_find(a.template[fi].fields, field_name) {
                        Some(sk) => {
                            if k == sk {
                                assert(tpl2[i].fields[k].rap == rap);
                            } else {
                                assert(tpl2[i].fields[k] == a.template[i].fields[k]);
                                assert(rap_from_arena(a.arena, a.template[i].fields[k].rap));
                            }
                        },
                        None => {
                            if k == tpl2[i].fields.len() - 1 {
                                assert(tpl2[i].fields[k].rap == rap);
                            } else {
                                assert(tpl2[i].fields[k] == a.template[i].fields[k]);
                                assert(rap_from_arena(a.arena, a.template[i].fields[k].rap));
                            }
                        },
                    }
                } else {
                    assert(tpl2[i] == a.template[i]);
                    assert(rap_from_arena(a.arena, a.template[i].fields[k].rap));
                }
            },
            None => {
                if i == tpl2.len() - 1 {
                    assert(tpl2[i].fields[k].rap == rap);
                } else {
                    assert(tpl2[i] == a.template[i]);
                    assert(rap_from_arena(a.arena, a.template[i].fields[k].rap));
                }
            },
        }
    }
    assert forall|f: int, e: int, o: int|
        0 <= f < a.trace.len() && 0 <= e < a.trace[f].entries.len() && 0 <= o
            < a.trace[f].entries[e].occs.len() implies rap_from_arena(
        arena2,
        (#[trigger] a.trace[f].entries[e].occs[o]).rap,
    ) by {
        assert(rap_from_arena(a.arena, a.trace[f].entries[e].occs[o].rap));
    }
}

/// Resolves the struct-literal field `field_name` of an instance with id
/// `owner_id` against the template of `ty_name`. On a hit, a fresh member
/// RAP owned by the instance enters arena and registry and the occurrence
/// resolves to the field's declaration RAP; on a miss the field is
/// skipped and reported.
pub fn struct_field_insert(
    ctx: &mut Analysis,
    frame: usize,
    ty_name: &String,
    field_name: &String,
    span: Span,
    owner_id: usize,
)
    requires
        a_wf(old(ctx)@),
        frame < old(ctx)@.trace.len(),
        has_instance(old(ctx)@.arena, owner_id),
    ensures
        final(ctx)@ == spec_struct_field_insert(
            old(ctx)@,
            frame as int,
            ty_name@,
            field_name@,
            span,
            owner_id,
        ),
        a_wf(final(ctx)@),
        arena_extends(old(ctx)@.arena, final(ctx)@.arena),
        final(ctx)@.trace.len() >= old(ctx)@.trace.len(),
{
    let ghost a0 = ctx@;
    let found: Option<Rap> = match tpl_find_exec(&ctx.template, ty_name) {
        Some(i) => match slot_find_exec(&ctx.template[i].fields, field_name) {
            Some(k) => Some(ctx.template[i].fields[k].rap.dup()),
            None => None,
        },
        None => None,
    };
    match found {
        None => {
            ctx.reports.push(
                Report::TemplateMiss { ty_name: ty_name.clone(), field: field_name.clone() },
            );
            assert(ctx@ =~~= spec_struct_field_insert(
                a0,
                frame as int,
                ty_name@,
                field_name@,
                span,
                owner_id,
            ));
        },
        Some(decl) => {
            let id = ctx.next_id();
            let member = Rap::Struct {
                name: field_name.clone(),
                id,
                owner_id,
                is_mut: false,
                is_member: true,
            };
            let member_for_reg = member.dup();
            ctx.arena.push(member);
            match reg_find_exec(&ctx.registry, field_name) {
                Some(i) => {
                    let e: &mut RegEntry = &mut ctx.registry[i];
                    e.raps.push(member_for_reg);
                },
                None => {
                    let mut raps: Vec<Rap> = Vec::new();
                    raps.push(member_for_reg);
                    ctx.registry.push(RegEntry { name: field_name.clone(), raps });
                },
            }
            proof {
                let mv = RapView::Struct {
                    name: field_name@,
                    id: (a0.arena.len() + 1) as usize,
                    owner_id: owner_id,
                    is_mut: false,
                    is_member: true,
                };
                let a1 = AnalysisView {
                    arena: a0.arena.push(mv),
                    registry: reg_add(a0.registry, mv),
                    ..a0
                };
                assert(ctx@ =~~= a1);
                lemma_wf_after_member(a0, mv);
                assert(rap_from_arena(a0.arena, decl@));
                lemma_arena_extend(a0.arena, decl@, mv);
            }
            color_insert(
                ctx,
                frame,
                field_name,
                StackItem { info: Infoitem::ExprStruct { span }, rap: decl },
            );
        },
    }
}

/// Allocating a member RAP whose owner instance already stands in the
/// arena preserves well-formedness into the state that holds it in arena
/// and registry.
proof fn lemma_wf_after_member(a: AnalysisView, rap: RapView)
    requires
        a_wf(a),
        rap_id(rap) as int == a.arena.len() + 1,
        is_struct_member(rap),
        has_instance(a.arena, rap_owner_id(rap)),
    ensures
        a_wf(
            AnalysisView { arena: a.arena.push(rap), registry: reg_add(a.registry, rap), ..a },
        ),
        rap_from_arena(a.arena.push(rap), rap),
{
    let arena2 = a.arena.push(rap);
    let reg2 = reg_add(a.registry, rap);
    lemma_reg_find_from_range(a.registry, rap_name(rap), 0);
    assert forall|i: int|
        0 <= i < arena2.len() && is_struct_member(#[trigger] arena2[i]) implies has_instance(
        arena2,
        rap_owner_id(arena2[i]),
    ) by {
        if i < a.arena.len() {
            assert(arena2[i] == a.arena[i]);
            assert(has_instance(a.arena, rap_owner_id(a.arena[i])));
            let j = choose|j: int|
                0 <= j < a.arena.len() && is_struct_instance(#[trigger] a.arena[j]) && rap_id(
                    a.arena[j],
                ) == rap_owner_id(a.arena[i]);
            assert(is_struct_instance(arena2[j]));
        } else {
            assert(arena2[i] == rap);
            let j = choose|j: int|
                0 <= j < a.arena.len() && is_struct_instance(#[trigger] a.arena[j]) && rap_id(
                    a.arena[j],
                ) == rap_owner_id(rap);
            assert(is_struct_instance(arena2[j]));
        }
    }
    assert forall|i: int, k: int|
        0 <= i < reg2.len() && 0 <= k < reg2[i].raps.len() implies rap_from_arena(
        arena2,
        #[trigger] reg2[i].raps[k],
    ) by {
        match reg_find(a.registry, rap_name(rap)) {
            Some(fi) => {
                if i == fi && k == reg2[i].raps.len() - 1 {
                    assert(reg2[i].raps[k] == rap);
                } else {
                    assert(reg2[i].raps[k] == a.registry[i].raps[k]);
                    assert(rap_from_arena(a.arena, a.registry[i].raps[k]));
                }
            },
            None => {
                if i == reg2.len() - 1 {
                    assert(reg2[i].raps[k] == rap);
                } else {
                    assert(rap_from_arena(a.arena, a.registry[i].raps[k]));
                }
            },
        }
    }
    assert forall|i: int| 0 <= i < reg2.len() implies (#[trigger] reg2[i].raps).len() > 0 by {
        match reg_find(a.registry, rap_name(rap)) {
            Some(fi) => {
                if i != fi {
                    assert(reg2[i] == a.registry[i]);
                }
            },
            None => {
                if i < reg2.len() - 1 {
                    assert(reg2[i] == a.registry[i]);
                }
            },
        }
    }
    assert forall|i: int, k: int|
        0 <= i < a.template.len() && 0 <= k < a.template[i].fields.len() implies rap_from_arena(
        arena2,
        (#[trigger] a.template[i].fields[k]).rap,
    ) by {
        assert(rap_from_arena(a.arena, a.template[i].fields[k].rap));
    }
    assert forall|f: int, e: int, o: int|
        0 <= f < a.trace.len() && 0 <= e < a.trace[f].entries.len() && 0 <= o
            < a.trace[f].entries[e].occs.len() implies rap_from_arena(
        arena2,
        (#[trigger] a.trace[f].entries[e].occs[o]).rap,
    ) by {
        assert(rap_from_arena(a.arena, a.trace[f].entries[e].occs[o].rap));
    }
}

/// Opens a new scope frame and returns its index.
pub fn push_frame(ctx: &mut Analysis) -> (nf: usize)
    requires
        a_wf(old(ctx)@),
    ensures
        final(ctx)@ == spec_push_frame(old(ctx)@),
        nf == old(ctx)@.trace.len(),
        a_wf(final(ctx)@),
        arena_extends(old(ctx)@.arena, final(ctx)@.arena),
        final(ctx)@.trace.len() >= old(ctx)@.trace.len(),
{
    let ghost a0 = ctx@;
    let nf = ctx.trace.len();
    ctx.trace.push(Frame { entries: Vec::new() });
    proof {
        assert(ctx@ =~~= spec_push_frame(a0));
    }
    nf
}

/// Adds one report.
pub fn push_report(ctx: &mut Analysis, rep: Report)
    requires
        a_wf(old(ctx)@),
    ensures
        final(ctx)@ == spec_push_report(old(ctx)@, rep@),
        a_wf(final(ctx)@),
        arena_extends(old(ctx)@.arena, final(ctx)@.arena),
        final(ctx)@.trace.len() >= old(ctx)@.trace.len(),
{
    let ghost a0 = ctx@;
    ctx.reports.push(rep);
    proof {
        assert(ctx@ =~~= spec_push_report(a0, ctx@.reports.last()));
    }
}

} // verus!
