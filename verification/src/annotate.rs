//! The source-annotation emitter: a read-only projection of the scope
//! trace over the original source text. Every occurrence whose kind
//! carries a taggable span contributes an opening tag (carrying the RAP's
//! id) at its start position and a closing tag at its end position;
//! function- and macro-name occurrences use a distinguishing tag form.
//! The insertions are kept row-ordered, then column-ordered (a second
//! insertion at the same position replaces the first), and the output is
//! built by slicing the original text between successive recorded
//! positions and interleaving the markup — the source itself is never
//! changed, so recorded columns stay valid even though emitted lines
//! grow. An insertion whose position lies outside the text, or before an
//! already emitted position, is passed over.

use vstd::prelude::*;
use vstd::string::StrSliceExecFns;
use crate::model::{Infoitem, Span, StackItem, StackItemView, rap_id};
use crate::state::{Frame, FrameView, NameOccsView};
use crate::strutil::{spec_u64_string, u64_to_string};

verus! {

/// One pending markup insertion: a position in the original text and the
/// tag to insert there.
#[derive(Clone, Debug)]
pub struct Insertion {
    pub row: usize,
    pub col: usize,
    pub text: String,
}

/// Mathematical image of an `Insertion`.
#[verifier::ext_equal]
pub struct InsertionView {
    pub row: usize,
    pub col: usize,
    pub text: Seq<char>,
}

impl View for Insertion {
    type V = InsertionView;

    open spec fn view(&self) -> InsertionView {
        InsertionView { row: self.row, col: self.col, text: self.text@ }
    }
}

impl DeepView for Insertion {
    type V = InsertionView;

    open spec fn deep_view(&self) -> InsertionView {
        self.view()
    }
}

/// The opening tag of a plain occurrence, carrying the RAP's id.
pub open spec fn spec_open_tag(id: usize) -> Seq<char> {
    "<tspan data-hash=\""@ + spec_u64_string(id as u64) + "\">"@
}

/// The opening tag of a function- or macro-name occurrence.
pub open spec fn spec_fn_open_tag(id: usize) -> Seq<char> {
    "<tspan class=\"fn\" data-hash=\"0\" hash=\""@ + spec_u64_string(id as u64) + "\">"@
}

/// The closing tag.
pub open spec fn spec_close_tag() -> Seq<char> {
    "</tspan>"@
}

/// Whether position `(r1, c1)` comes strictly before `(r2, c2)` in row,
/// then column order.
pub open spec fn pos_lt(r1: usize, c1: usize, r2: usize, c2: usize) -> bool {
    r1 < r2 || (r1 == r2 && c1 < c2)
}

/// The index of the first insertion at or after position
/// `(row, col)`, searching from `i`; `list.len()` when there is none.
pub open spec fn ins_pos_from(list: Seq<InsertionView>, row: usize, col: usize, i: int) -> int
    decreases list.len() - i,
{
    if i < 0 || i >= list.len() {
        list.len() as int
    } else if !pos_lt(list[i].row, list[i].col, row, col) {
        i
    } else {
        ins_pos_from(list, row, col, i + 1)
    }
}

/// The insertion list after adding `ins`, keeping row-then-column order;
/// an insertion at an already recorded position replaces it.
pub open spec fn spec_ins_add(list: Seq<InsertionView>, ins: InsertionView) -> Seq<InsertionView> {
    let p = ins_pos_from(list, ins.row, ins.col, 0);
    if p < list.len() && list[p].row == ins.row && list[p].col == ins.col {
        list.update(p, ins)
    } else {
        list.insert(p, ins)
    }
}

/// The tag insertions one occurrence contributes: none for kinds without
/// a taggable span, else an opening tag at the span's start and a
/// closing tag at its end.
pub open spec fn occ_add(list: Seq<InsertionView>, occ: StackItemView) -> Seq<InsertionView> {
    let id = rap_id(occ.rap);
    match occ.info {
        Infoitem::Struct { span } => add_pair(list, span, spec_open_tag(id)),
        Infoitem::Func { span } => add_pair(list, span, spec_fn_open_tag(id)),
        Infoitem::FnArg { span } => add_pair(list, span, spec_open_tag(id)),
        Infoitem::Local { span } => add_pair(list, span, spec_open_tag(id)),
        Infoitem::Call { span } => add_pair(list, span, spec_open_tag(id)),
        Infoitem::MethodCall => list,
        Infoitem::Reference => list,
        Infoitem::ExprStruct { span } => add_pair(list, span, spec_open_tag(id)),
        Infoitem::Macro { span } => add_pair(list, span, spec_fn_open_tag(id)),
        Infoitem::Ident { span } => add_pair(list, span, spec_open_tag(id)),
    }
}

/// Adds an opening tag at the span's start and the closing tag at its
/// end.
pub open spec fn add_pair(list: Seq<InsertionView>, span: Span, open_text: Seq<char>) -> Seq<
    InsertionView,
> {
    let l1 = spec_ins_add(
        list,
        InsertionView { row: span.start_line, col: span.start_col, text: open_text },
    );
    spec_ins_add(
        l1,
        InsertionView { row: span.end_line, col: span.end_col, text: spec_close_tag() },
    )
}

/// The insertions of the first `o` occurrences of one group.
pub open spec fn occs_upto(occs: Seq<StackItemView>, list: Seq<InsertionView>, o: int) -> Seq<
    InsertionView,
>
    decreases o,
{
    if o <= 0 {
        list
    } else {
        occ_add(occs_upto(occs, list, o - 1), occs[o - 1])
    }
}

/// The insertions of the first `e` groups of one frame.
pub open spec fn entries_upto(
    entries: Seq<NameOccsView>,
    list: Seq<InsertionView>,
    e: int,
) -> Seq<InsertionView>
    decreases e,
{
    if e <= 0 {
        list
    } else {
        occs_upto(
            entries[e - 1].occs,
            entries_upto(entries, list, e - 1),
            entries[e - 1].occs.len() as int,
        )
    }
}

/// The insertions of the first `f` frames of the trace.
pub open spec fn frames_upto(trace: Seq<FrameView>, list: Seq<InsertionView>, f: int) -> Seq<
    InsertionView,
>
    decreases f,
{
    if f <= 0 {
        list
    } else {
        entries_upto(
            trace[f - 1].entries,
            frames_upto(trace, list, f - 1),
            trace[f - 1].entries.len() as int,
        )
    }
}

/// The ordered markup insertions of a whole trace.
pub open spec fn spec_color_gen(trace: Seq<FrameView>) -> Seq<InsertionView> {
    frames_upto(trace, Seq::empty(), trace.len() as int)
}

/// The character indexes at which the lines of `s` start: 0, and the
/// index after each newline, in order.
pub open spec fn spec_starts_upto(s: Seq<char>, i: int) -> Seq<int>
    decreases i,
{
    if i <= 0 {
        seq![0]
    } else {
        let pre = spec_starts_upto(s, i - 1);
        if s[i - 1] == '\n' {
            pre.push(i)
        } else {
            pre
        }
    }
}

/// All line-start indexes of `s`.
pub open spec fn spec_line_starts(s: Seq<char>) -> Seq<int> {
    spec_starts_upto(s, s.len() as int)
}

/// Line starts begin at 0, increase strictly, and stay within `[0, i]`.
pub proof fn lemma_starts_props(s: Seq<char>, i: int)
    requires
        0 <= i,
    ensures
        spec_starts_upto(s, i).len() >= 1,
        spec_starts_upto(s, i)[0] == 0,
        forall|j: int, k: int|
            0 <= j < k < spec_starts_upto(s, i).len() ==> spec_starts_upto(s, i)[j]
                < spec_starts_upto(s, i)[k],
        forall|j: int|
            0 <= j < spec_starts_upto(s, i).len() ==> 0 <= #[trigger] spec_starts_upto(s, i)[j]
                <= i,
    decreases i,
{
    if i > 0 {
        lemma_starts_props(s, i - 1);
    }
}

/// The character index of 1-based row `row`, 0-based column `col` in
/// `s`: the row's start plus the column, provided the row exists and the
/// column does not run past the row's content.
pub open spec fn spec_pos_of(s: Seq<char>, row: int, col: int) -> Option<int> {
    let st = spec_line_starts(s);
    if 1 <= row <= st.len() {
        let start = st[row - 1];
        let lend = if row < st.len() {
            st[row] - 1
        } else {
            s.len() as int
        };
        if col <= lend - start {
            Some(start + col)
        } else {
            None
        }
    } else {
        None
    }
}

/// The spliced text and cursor after applying the first `i` insertions:
/// each one whose position is valid and not before the cursor appends
/// the source slice from the cursor to its position, then its tag.
pub open spec fn spec_splice_upto(s: Seq<char>, list: Seq<InsertionView>, i: int) -> (Seq<char>, int)
    decreases i,
{
    if i <= 0 {
        (Seq::empty(), 0)
    } else {
        let (acc, cur) = spec_splice_upto(s, list, i - 1);
        let ins = list[i - 1];
        match spec_pos_of(s, ins.row as int, ins.col as int) {
            Some(p) => {
                if cur <= p <= s.len() {
                    (acc + s.subrange(cur, p) + ins.text, p)
                } else {
                    (acc, cur)
                }
            },
            None => (acc, cur),
        }
    }
}

/// The annotated text of `s` under the insertions `list`: the splice of
/// every insertion, followed by the rest of the source.
pub open spec fn spec_asource(s: Seq<char>, list: Seq<InsertionView>) -> Seq<char> {
    let r = spec_splice_upto(s, list, list.len() as int);
    r.0 + s.subrange(r.1, s.len() as int)
}

/// With no insertions at all, the annotated text is the original,
/// character for character, lines untouched.
pub proof fn lemma_asource_round_trip(s: Seq<char>, list: Seq<InsertionView>)
    requires
        list.len() == 0,
    ensures
        spec_asource(s, list) =~= s,
{
}

/// An empty trace contributes no insertions.
pub proof fn lemma_color_gen_empty(trace: Seq<FrameView>)
    requires
        trace.len() == 0,
    ensures
        spec_color_gen(trace).len() == 0,
{
}

/// An occurrence kind that the markup emission excludes.
pub open spec fn untagged(info: Infoitem) -> bool {
    info == Infoitem::MethodCall || info == Infoitem::Reference
}

/// Every occurrence of the trace is of an untaggable kind.
pub open spec fn trace_untagged(trace: Seq<FrameView>) -> bool {
    forall|f: int, e: int, o: int|
        0 <= f < trace.len() && 0 <= e < trace[f].entries.len() && 0 <= o
            < trace[f].entries[e].occs.len() ==> untagged(
            (#[trigger] trace[f].entries[e].occs[o]).info,
        )
}

/// Untaggable occurrences leave the insertion list unchanged.
proof fn lemma_occs_untagged(occs: Seq<StackItemView>, list: Seq<InsertionView>, o: int)
    requires
        forall|k: int| 0 <= k < occs.len() ==> untagged((#[trigger] occs[k]).info),
        o <= occs.len(),
    ensures
        occs_upto(occs, list, o) == list,
    decreases o,
{
    if o > 0 {
        lemma_occs_untagged(occs, list, o - 1);
    }
}

/// A frame of untaggable occurrences leaves the insertion list
/// unchanged.
proof fn lemma_entries_untagged(entries: Seq<NameOccsView>, list: Seq<InsertionView>, e: int)
    requires
        forall|j: int, k: int|
            0 <= j < entries.len() && 0 <= k < entries[j].occs.len() ==> untagged(
                (#[trigger] entries[j].occs[k]).info,
            ),
        e <= entries.len(),
    ensures
        entries_upto(entries, list, e) == list,
    decreases e,
{
    if e > 0 {
        lemma_entries_untagged(entries, list, e - 1);
        lemma_occs_untagged(
            entries[e - 1].occs,
            entries_upto(entries, list, e - 1),
            entries[e - 1].occs.len() as int,
        );
    }
}

/// A trace with no taggable occurrence at all contributes no insertions.
pub proof fn lemma_color_gen_untagged(trace: Seq<FrameView>)
    requires
        trace_untagged(trace),
    ensures
        spec_color_gen(trace).len() == 0,
{
    lemma_frames_untagged(trace, Seq::empty(), trace.len() as int);
}

/// Frames of untaggable occurrences leave the insertion list unchanged.
proof fn lemma_frames_untagged(trace: Seq<FrameView>, list: Seq<InsertionView>, f: int)
    requires
        trace_untagged(trace),
        f <= trace.len(),
    ensures
        frames_upto(trace, list, f) == list,
    decreases f,
{
    if f > 0 {
        lemma_frames_untagged(trace, list, f - 1);
        lemma_entries_untagged(
            trace[f - 1].entries,
            frames_upto(trace, list, f - 1),
            trace[f - 1].entries.len() as int,
        );
    }
}

/// Applied to a source whose trace holds no taggable occurrence, the
/// emitter reproduces the original text, character for character.
pub proof fn lemma_asource_identity_untagged(s: Seq<char>, trace: Seq<FrameView>)
    requires
        trace_untagged(trace),
    ensures
        spec_asource(s, spec_color_gen(trace)) =~= s,
{
    lemma_color_gen_untagged(trace);
    lemma_asource_round_trip(s, spec_color_gen(trace));
}

/// The insertions are in strictly increasing row-then-column order (so
/// no position is recorded twice).
pub open spec fn strictly_sorted(list: Seq<InsertionView>) -> bool {
    forall|i: int, j: int|
        0 <= i < j < list.len() ==> pos_lt(
            (#[trigger] list[i]).row,
            list[i].col,
            (#[trigger] list[j]).row,
            list[j].col,
        )
}

/// Every insertion before the found position comes strictly before the
/// sought position, and the found one (if any) does not.
proof fn lemma_ins_pos_split(list: Seq<InsertionView>, row: usize, col: usize, i: int)
    requires
        0 <= i <= list.len(),
    ensures
        i <= ins_pos_from(list, row, col, i) <= list.len(),
        forall|k: int|
            i <= k < ins_pos_from(list, row, col, i) ==> pos_lt(
                (#[trigger] list[k]).row,
                list[k].col,
                row,
                col,
            ),
        ins_pos_from(list, row, col, i) < list.len() ==> !pos_lt(
            list[ins_pos_from(list, row, col, i)].row,
            list[ins_pos_from(list, row, col, i)].col,
            row,
            col,
        ),
    decreases list.len() - i,
{
    if i < list.len() && pos_lt(list[i].row, list[i].col, row, col) {
        lemma_ins_pos_split(list, row, col, i + 1);
    }
}

/// Adding an insertion keeps the list strictly ordered.
proof fn lemma_ins_add_sorted(list: Seq<InsertionView>, ins: InsertionView)
    requires
        strictly_sorted(list),
    ensures
        strictly_sorted(spec_ins_add(list, ins)),
{
    lemma_ins_pos_split(list, ins.row, ins.col, 0);
    let p = ins_pos_from(list, ins.row, ins.col, 0);
    let out = spec_ins_add(list, ins);
    if p < list.len() && list[p].row == ins.row && list[p].col == ins.col {
        assert forall|i: int, j: int| 0 <= i < j < out.len() implies pos_lt(
            (#[trigger] out[i]).row,
            out[i].col,
            (#[trigger] out[j]).row,
            out[j].col,
        ) by {
            assert(out[i].row == list[i].row && out[i].col == list[i].col);
            assert(out[j].row == list[j].row && out[j].col == list[j].col);
        }
    } else {
        assert forall|i: int, j: int| 0 <= i < j < out.len() implies pos_lt(
            (#[trigger] out[i]).row,
            out[i].col,
            (#[trigger] out[j]).row,
            out[j].col,
        ) by {
            if i < p && j < p {
                assert(out[i] == list[i] && out[j] == list[j]);
            } else if i < p && j == p {
                assert(out[i] == list[i] && out[j] == ins);
            } else if i < p && j > p {
                assert(out[i] == list[i] && out[j] == list[j - 1]);
            } else if i == p && j > p {
                assert(out[i] == ins && out[j] == list[j - 1]);
                assert(!pos_lt(list[p].row, list[p].col, ins.row, ins.col));
                assert(!(list[p].row == ins.row && list[p].col == ins.col));
                assert(pos_lt(ins.row, ins.col, list[p].row, list[p].col));
                if j - 1 > p {
                    assert(pos_lt(list[p].row, list[p].col, list[j - 1].row, list[j - 1].col));
                }
            } else {
                assert(out[i] == list[i - 1] && out[j] == list[j - 1]);
            }
        }
    }
}

/// Recording one occurrence keeps the insertion list strictly ordered.
proof fn lemma_occ_add_sorted(list: Seq<InsertionView>, occ: StackItemView)
    requires
        strictly_sorted(list),
    ensures
        strictly_sorted(occ_add(list, occ)),
{
    let id = rap_id(occ.rap);
    match occ.info {
        Infoitem::Struct { span } => lemma_add_pair_sorted(list, span, spec_open_tag(id)),
        Infoitem::Func { span } => lemma_add_pair_sorted(list, span, spec_fn_open_tag(id)),
        Infoitem::FnArg { span } => lemma_add_pair_sorted(list, span, spec_open_tag(id)),
        Infoitem::Local { span } => lemma_add_pair_sorted(list, span, spec_open_tag(id)),
        Infoitem::Call { span } => lemma_add_pair_sorted(list, span, spec_open_tag(id)),
        Infoitem::MethodCall => {},
        Infoitem::Reference => {},
        Infoitem::ExprStruct { span } => lemma_add_pair_sorted(list, span, spec_open_tag(id)),
        Infoitem::Macro { span } => lemma_add_pair_sorted(list, span, spec_fn_open_tag(id)),
        Infoitem::Ident { span } => lemma_add_pair_sorted(list, span, spec_open_tag(id)),
    }
}

/// Adding a tag pair keeps the insertion list strictly ordered.
proof fn lemma_add_pair_sorted(list: Seq<InsertionView>, span: Span, open_text: Seq<char>)
    requires
        strictly_sorted(list),
    ensures
        strictly_sorted(add_pair(list, span, open_text)),
{
    let first = InsertionView { row: span.start_line, col: span.start_col, text: open_text };
    lemma_ins_add_sorted(list, first);
    lemma_ins_add_sorted(
        spec_ins_add(list, first),
        InsertionView { row: span.end_line, col: span.end_col, text: spec_close_tag() },
    );
}

/// The first `o` occurrences of a group keep the list strictly ordered.
proof fn lemma_occs_sorted(occs: Seq<StackItemView>, list: Seq<InsertionView>, o: int)
    requires
        strictly_sorted(list),
    ensures
        strictly_sorted(occs_upto(occs, list, o)),
    decreases o,
{
    if o > 0 {
        lemma_occs_sorted(occs, list, o - 1);
        lemma_occ_add_sorted(occs_upto(occs, list, o - 1), occs[o - 1]);
    }
}

/// The first `e` groups of a frame keep the list strictly ordered.
proof fn lemma_entries_sorted(entries: Seq<NameOccsView>, list: Seq<InsertionView>, e: int)
    requires
        strictly_sorted(list),
    ensures
        strictly_sorted(entries_upto(entries, list, e)),
    decreases e,
{
    if e > 0 {
        lemma_entries_sorted(entries, list, e - 1);
        lemma_occs_sorted(
            entries[e - 1].occs,
            entries_upto(entries, list, e - 1),
            entries[e - 1].occs.len() as int,
        );
    }
}

/// The first `f` frames keep the list strictly ordered.
proof fn lemma_frames_sorted(trace: Seq<FrameView>, list: Seq<InsertionView>, f: int)
    requires
        strictly_sorted(list),
    ensures
        strictly_sorted(frames_upto(trace, list, f)),
    decreases f,
{
    if f > 0 {
        lemma_frames_sorted(trace, list, f - 1);
        lemma_entries_sorted(
            trace[f - 1].entries,
            frames_upto(trace, list, f - 1),
            trace[f - 1].entries.len() as int,
        );
    }
}

/// The markup insertions of any trace come out row-ordered, then
/// column-ordered, strictly: a later tag at the same position replaces
/// the earlier one instead of standing beside it.
pub proof fn lemma_color_gen_sorted(trace: Seq<FrameView>)
    ensures
        strictly_sorted(spec_color_gen(trace)),
{
    lemma_frames_sorted(trace, Seq::empty(), trace.len() as int);
}

/// Builds the opening tag of a plain occurrence.
fn open_tag(id: usize) -> (r: String)
    ensures
        r@ == spec_open_tag(id),
{
    let mut t: String = "<tspan data-hash=\"".to_owned();
    t.append(u64_to_string(id as u64).as_str());
    t.append("\">");
    t
}

/// Builds the opening tag of a function- or macro-name occurrence.
fn fn_open_tag(id: usize) -> (r: String)
    ensures
        r@ == spec_fn_open_tag(id),
{
    let mut t: String = "<tspan class=\"fn\" data-hash=\"0\" hash=\"".to_owned();
    t.append(u64_to_string(id as u64).as_str());
    t.append("\">");
    t
}

/// Finds the index of the first insertion at or after `(row, col)`.
fn ins_pos_exec(list: &Vec<Insertion>, row: usize, col: usize) -> (r: usize)
    ensures
        r as int == ins_pos_from(list.deep_view(), row, col, 0),
        r <= list@.len(),
{
    let ghost lv = list.deep_view();
    let mut j: usize = 0;
    while j < list.len()
        invariant
            j <= list@.len(),
            lv == list.deep_view(),
            lv.len() == list@.len(),
            ins_pos_from(lv, row, col, 0) == ins_pos_from(lv, row, col, j as int),
        decreases list@.len() - j,
    {
        assert(lv[j as int] == list@[j as int]@);
        if !(list[j].row < row || (list[j].row == row && list[j].col < col)) {
            return j;
        }
        j = j + 1;
    }
    list.len()
}

/// Adds one insertion to the ordered list, replacing an insertion at the
/// same position.
fn ins_add(list: &mut Vec<Insertion>, ins: Insertion)
    ensures
        final(list).deep_view() == spec_ins_add(old(list).deep_view(), ins@),
{
    let ghost lv = list.deep_view();
    let ghost iv = ins@;
    let j = ins_pos_exec(list, ins.row, ins.col);
    if j < list.len() {
        assert(lv[j as int] == list@[j as int]@);
        if list[j].row == ins.row && list[j].col == ins.col {
            let e: &mut Insertion = &mut list[j];
            *e = ins;
            assert(list.deep_view() =~= lv.update(j as int, iv));
            return ;
        }
    }
    list.insert(j, ins);
    assert(list.deep_view() =~= lv.insert(j as int, iv));
}

/// Adds the tag insertions of one occurrence.
fn add_occ(list: &mut Vec<Insertion>, occ: &StackItem)
    ensures
        final(list).deep_view() == occ_add(old(list).deep_view(), occ@),
{
    let id = occ.rap.id();
    let pair: Option<(Span, bool)> = match occ.info {
        Infoitem::Struct { span } => Some((span, false)),
        Infoitem::Func { span } => Some((span, true)),
        Infoitem::FnArg { span } => Some((span, false)),
        Infoitem::Local { span } => Some((span, false)),
        Infoitem::Call { span } => Some((span, false)),
        Infoitem::MethodCall => None,
        Infoitem::Reference => None,
        Infoitem::ExprStruct { span } => Some((span, false)),
        Infoitem::Macro { span } => Some((span, true)),
        Infoitem::Ident { span } => Some((span, false)),
    };
    match pair {
        Some((span, is_fn)) => {
            let open = if is_fn {
                fn_open_tag(id)
            } else {
                open_tag(id)
            };
            ins_add(list, Insertion { row: span.start_line, col: span.start_col, text: open });
            ins_add(
                list,
                Insertion { row: span.end_line, col: span.end_col, text: "</tspan>".to_owned() },
            );
        },
        None => {},
    }
}

/// Collects the ordered markup insertions of the whole trace.
pub fn color_gen(trace: &Vec<Frame>) -> (r: Vec<Insertion>)
    ensures
        r.deep_view() == spec_color_gen(trace.deep_view()),
{
    let ghost tv = trace.deep_view();
    let mut r: Vec<Insertion> = Vec::new();
    let mut f: usize = 0;
    while f < trace.len()
        invariant
            f <= trace@.len(),
            tv == trace.deep_view(),
            tv.len() == trace@.len(),
            r.deep_view() == frames_upto(tv, Seq::empty(), f as int),
        decreases trace@.len() - f,
    {
        assert(tv[f as int] == trace@[f as int]@);
        let ghost base = r.deep_view();
        let ne = trace[f].entries.len();
        let mut e: usize = 0;
        while e < ne
            invariant
                e <= ne,
                f < trace@.len(),
                ne == trace@[f as int].entries@.len(),
                tv == trace.deep_view(),
                tv.len() == trace@.len(),
                tv[f as int] == trace@[f as int]@,
                r.deep_view() == entries_upto(tv[f as int].entries, base, e as int),
            decreases ne - e,
        {
            assert(tv[f as int].entries[e as int] == trace@[f as int].entries@[e as int]@);
            let ghost ebase = r.deep_view();
            let no = trace[f].entries[e].occs.len();
            let mut o: usize = 0;
            while o < no
                invariant
                    o <= no,
                    f < trace@.len(),
                    e < trace@[f as int].entries@.len(),
                    no == trace@[f as int].entries@[e as int].occs@.len(),
                    tv == trace.deep_view(),
                    tv.len() == trace@.len(),
                    tv[f as int] == trace@[f as int]@,
                    tv[f as int].entries[e as int] == trace@[f as int].entries@[e as int]@,
                    r.deep_view() == occs_upto(tv[f as int].entries[e as int].occs, ebase, o as int),
                decreases no - o,
            {
                assert(tv[f as int].entries[e as int].occs[o as int] == trace@[f as int].entries@[
                    e as int].occs@[o as int]@);
                add_occ(&mut r, &trace[f].entries[e].occs[o]);
                o = o + 1;
            }
            e = e + 1;
        }
        f = f + 1;
    }
    r
}

/// Computes all line-start indexes of `s`.
fn line_starts(s: &str) -> (r: Vec<usize>)
    ensures
        r@.len() == spec_line_starts(s@).len(),
        forall|j: int| 0 <= j < r@.len() ==> r@[j] as int == spec_line_starts(s@)[j],
{
    let n = s.unicode_len();
    let mut r: Vec<usize> = Vec::new();
    r.push(0);
    let mut i: usize = 0;
    while i < n
        invariant
            i <= n,
            n == s@.len(),
            r@.len() == spec_starts_upto(s@, i as int).len(),
            forall|j: int| 0 <= j < r@.len() ==> r@[j] as int == spec_starts_upto(s@, i as int)[j],
        decreases n - i,
    {
        let c = s.get_char(i);
        if c == '\n' {
            r.push(i + 1);
        }
        i = i + 1;
    }
    r
}

/// Resolves a recorded position to a character index of `s`, if it lies
/// within the text.
fn pos_of(s: &str, sts: &Vec<usize>, row: usize, col: usize) -> (r: Option<usize>)
    requires
        sts@.len() == spec_line_starts(s@).len(),
        forall|j: int| 0 <= j < sts@.len() ==> sts@[j] as int == spec_line_starts(s@)[j],
    ensures
        match r {
            Some(p) => spec_pos_of(s@, row as int, col as int) == Some(p as int) && p <= s@.len(),
            None => spec_pos_of(s@, row as int, col as int) is None,
        },
{
    proof {
        lemma_starts_props(s@, s@.len() as int);
    }
    let n = s.unicode_len();
    if row >= 1 && row <= sts.len() {
        let start = sts[row - 1];
        let lend = if row < sts.len() {
            sts[row] - 1
        } else {
            n
        };
        assert(start as int <= lend as int);
        if col <= lend - start {
            Some(start + col)
        } else {
            None
        }
    } else {
        None
    }
}

/// Emits the annotated source: the original text of `source` with the
/// trace's markup insertions interleaved at their recorded positions.
pub fn asource_gen(source: &str, trace: &Vec<Frame>) -> (r: String)
    ensures
        r@ == spec_asource(source@, spec_color_gen(trace.deep_view())),
{
    let inserts = color_gen(trace);
    let ghost lv = inserts.deep_view();
    let sts = line_starts(source);
    let n = source.unicode_len();
    let mut out = String::new();
    let mut cursor: usize = 0;
    let mut i: usize = 0;
    while i < inserts.len()
        invariant
            i <= inserts@.len(),
            lv == inserts.deep_view(),
            lv.len() == inserts@.len(),
            n == source@.len(),
            sts@.len() == spec_line_starts(source@).len(),
            forall|j: int|
                0 <= j < sts@.len() ==> sts@[j] as int == spec_line_starts(source@)[j],
            cursor <= n,
            (out@, cursor as int) == spec_splice_upto(source@, lv, i as int),
        decreases inserts@.len() - i,
    {
        assert(lv[i as int] == inserts@[i as int]@);
        let ins = &inserts[i];
        match pos_of(source, &sts, ins.row, ins.col) {
            Some(p) => {
                if p >= cursor {
                    out.append(source.substring_char(cursor, p));
                    out.append(ins.text.as_str());
                    cursor = p;
                }
            },
            None => {},
        }
        i = i + 1;
    }
    out.append(source.substring_char(cursor, n));
    out
}

} // verus!
