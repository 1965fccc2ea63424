//! The declaration-summary emitter: a read-only projection of the
//! finished identity registry into a text block bounded by a fixed marker
//! pair, one line per RAP by a fixed per-kind template. A `Function` RAP
//! literally named `main` is suppressed. A struct-instance line gathers
//! the member RAPs whose `owner_id` matches the instance's id, in
//! registry order; an instance with no members at all is an inconsistent
//! model and is reported.

use vstd::prelude::*;
use crate::model::{Rap, RapView, Report, ReportView, is_struct_member, rap_name, rap_owner_id};
use crate::state::{RegEntry, RegEntryView};
use crate::strutil::{join_strings, spec_join};

verus! {

/// The member names owned by instance id `oid` among the first `k` RAPs
/// of one registry chain.
pub open spec fn members_entry_upto(raps: Seq<RapView>, oid: usize, k: int) -> Seq<Seq<char>>
    decreases k,
{
    if k <= 0 {
        Seq::empty()
    } else {
        let pre = members_entry_upto(raps, oid, k - 1);
        if is_struct_member(raps[k - 1]) && rap_owner_id(raps[k - 1]) == oid {
            pre.push(rap_name(raps[k - 1]))
        } else {
            pre
        }
    }
}

/// The member names owned by instance id `oid` over the first `i`
/// registry entries.
pub open spec fn members_upto(reg: Seq<RegEntryView>, oid: usize, i: int) -> Seq<Seq<char>>
    decreases i,
{
    if i <= 0 {
        Seq::empty()
    } else {
        members_upto(reg, oid, i - 1) + members_entry_upto(
            reg[i - 1].raps,
            oid,
            reg[i - 1].raps.len() as int,
        )
    }
}

/// The member names owned by instance id `oid`, in registry order.
pub open spec fn spec_members_of(reg: Seq<RegEntryView>, oid: usize) -> Seq<Seq<char>> {
    members_upto(reg, oid, reg.len() as int)
}

/// The summary line of one RAP. A `Function` named `main` and a struct
/// member contribute nothing; a struct instance lists its members'
/// names, comma-joined, in braces.
pub open spec fn spec_rap_line(rap: RapView, reg: Seq<RegEntryView>) -> Seq<char> {
    match rap {
        RapView::Function { name, .. } => {
            if name == "main"@ {
                Seq::empty()
            } else {
                "Function "@ + name + "();\n"@
            }
        },
        RapView::StaticRef { name, .. } => "StaticRef "@ + name + ";\n"@,
        RapView::MutRef { name, .. } => "MutRef "@ + name + ";\n"@,
        RapView::Owner { name, is_mut, .. } => {
            if is_mut {
                "Owner mut "@ + name + ";\n"@
            } else {
                "Owner "@ + name + ";\n"@
            }
        },
        RapView::Struct { name, id, is_member, .. } => {
            if is_member {
                Seq::empty()
            } else {
                "Struct "@ + name + "{"@ + spec_join(spec_members_of(reg, id), ","@) + "};\n"@
            }
        },
    }
}

/// The summary lines of the first `k` RAPs of one registry chain.
pub open spec fn entry_lines_upto(
    raps: Seq<RapView>,
    reg: Seq<RegEntryView>,
    k: int,
) -> Seq<char>
    decreases k,
{
    if k <= 0 {
        Seq::empty()
    } else {
        entry_lines_upto(raps, reg, k - 1) + spec_rap_line(raps[k - 1], reg)
    }
}

/// The summary lines of the first `i` registry entries.
pub open spec fn lines_upto(reg: Seq<RegEntryView>, i: int) -> Seq<char>
    decreases i,
{
    if i <= 0 {
        Seq::empty()
    } else {
        lines_upto(reg, i - 1) + entry_lines_upto(
            reg[i - 1].raps,
            reg,
            reg[i - 1].raps.len() as int,
        )
    }
}

/// The whole declaration summary of a registry: the begin marker, one
/// line per RAP in registry order, the end marker.
pub open spec fn spec_header(reg: Seq<RegEntryView>) -> Seq<char> {
    "/* --- BEGIN Variable Definitions ---\n"@ + lines_upto(reg, reg.len() as int)
        + "--- END Variable Definitions --- */\n"@
}

/// The inconsistency reports of the first `k` RAPs of one chain: one for
/// each struct instance that owns no member RAP anywhere in the registry.
pub open spec fn issues_entry_upto(
    raps: Seq<RapView>,
    reg: Seq<RegEntryView>,
    k: int,
) -> Seq<ReportView>
    decreases k,
{
    if k <= 0 {
        Seq::empty()
    } else {
        let pre = issues_entry_upto(raps, reg, k - 1);
        match raps[k - 1] {
            RapView::Struct { name, id, is_member, .. } => {
                if !is_member && spec_members_of(reg, id).len() == 0 {
                    pre.push(ReportView::InconsistentStruct { name })
                } else {
                    pre
                }
            },
            _ => pre,
        }
    }
}

/// The inconsistency reports of the first `i` registry entries.
pub open spec fn issues_upto(reg: Seq<RegEntryView>, i: int) -> Seq<ReportView>
    decreases i,
{
    if i <= 0 {
        Seq::empty()
    } else {
        issues_upto(reg, i - 1) + issues_entry_upto(
            reg[i - 1].raps,
            reg,
            reg[i - 1].raps.len() as int,
        )
    }
}

/// The inconsistency reports of a whole registry.
pub open spec fn spec_header_issues(reg: Seq<RegEntryView>) -> Seq<ReportView> {
    issues_upto(reg, reg.len() as int)
}

/// A `Function` RAP named `main` contributes no line to the summary,
/// whatever the registry holds.
pub proof fn lemma_no_main_line(rap: RapView, reg: Seq<RegEntryView>)
    requires
        rap matches RapView::Function { .. },
        rap_name(rap) == "main"@,
    ensures
        spec_rap_line(rap, reg) == Seq::<char>::empty(),
{
}

/// Gathers the names of the member RAPs owned by instance id `oid`, in
/// registry order.
pub fn members_of(reg: &Vec<RegEntry>, oid: usize) -> (r: Vec<String>)
    ensures
        r.deep_view() == spec_members_of(reg.deep_view(), oid),
{
    let ghost rv = reg.deep_view();
    let mut r: Vec<String> = Vec::new();
    let mut i: usize = 0;
    while i < reg.len()
        invariant
            i <= reg@.len(),
            rv == reg.deep_view(),
            rv.len() == reg@.len(),
            r.deep_view() == members_upto(rv, oid, i as int),
        decreases reg@.len() - i,
    {
        assert(rv[i as int] == reg@[i as int]@);
        let n = reg[i].raps.len();
        let mut k: usize = 0;
        while k < n
            invariant
                k <= n,
                i < reg@.len(),
                n == reg@[i as int].raps@.len(),
                rv == reg.deep_view(),
                rv.len() == reg@.len(),
                rv[i as int] == reg@[i as int]@,
                r.deep_view() == members_upto(rv, oid, i as int) + members_entry_upto(
                    rv[i as int].raps,
                    oid,
                    k as int,
                ),
            decreases n - k,
        {
            assert(rv[i as int].raps[k as int] == reg@[i as int].raps@[k as int]@);
            let ghost pre = r.deep_view();
            match &reg[i].raps[k] {
                Rap::Struct { name, owner_id, is_member, .. } => {
                    if *is_member && *owner_id == oid {
                        r.push(name.clone());
                        assert(r.deep_view() =~= pre.push(name@));
                    }
                },
                _ => {},
            }
            k = k + 1;
        }
        i = i + 1;
    }
    r
}

/// Emits the declaration summary of the finished registry, with the
/// inconsistency reports met while emitting: one for each struct
/// instance with no member RAPs.
pub fn header_gen_str(reg: &Vec<RegEntry>) -> (r: (String, Vec<Report>))
    ensures
        r.0@ == spec_header(reg.deep_view()),
        r.1.deep_view() == spec_header_issues(reg.deep_view()),
{
    let ghost rv = reg.deep_view();
    let mut h: String = "/* --- BEGIN Variable Definitions ---\n".to_owned();
    let mut issues: Vec<Report> = Vec::new();
    let mut i: usize = 0;
    while i < reg.len()
        invariant
            i <= reg@.len(),
            rv == reg.deep_view(),
            rv.len() == reg@.len(),
            h@ == "/* --- BEGIN Variable Definitions ---\n"@ + lines_upto(rv, i as int),
            issues.deep_view() == issues_upto(rv, i as int),
        decreases reg@.len() - i,
    {
        assert(rv[i as int] == reg@[i as int]@);
        let n = reg[i].raps.len();
        let mut k: usize = 0;
        while k < n
            invariant
                k <= n,
                i < reg@.len(),
                n == reg@[i as int].raps@.len(),
                rv == reg.deep_view(),
                rv.len() == reg@.len(),
                rv[i as int] == reg@[i as int]@,
                h@ == "/* --- BEGIN Variable Definitions ---\n"@ + lines_upto(rv, i as int)
                    + entry_lines_upto(rv[i as int].raps, rv, k as int),
                issues.deep_view() == issues_upto(rv, i as int) + issues_entry_upto(
                    rv[i as int].raps,
                    rv,
                    k as int,
                ),
            decreases n - k,
        {
            assert(rv[i as int].raps[k as int] == reg@[i as int].raps@[k as int]@);
            let ghost pre_issues = issues.deep_view();
            match &reg[i].raps[k] {
                Rap::Function { name, .. } => {
                    if !crate::strutil::str_is(name, "main") {
                        h.append("Function ");
                        h.append(name.as_str());
                        h.append("();\n");
                    }
                },
                Rap::StaticRef { name, .. } => {
                    h.append("StaticRef ");
                    h.append(name.as_str());
                    h.append(";\n");
                },
                Rap::MutRef { name, .. } => {
                    h.append("MutRef ");
                    h.append(name.as_str());
                    h.append(";\n");
                },
                Rap::Owner { name, is_mut, .. } => {
                    if *is_mut {
                        h.append("Owner mut ");
                    } else {
                        h.append("Owner ");
                    }
                    h.append(name.as_str());
                    h.append(";\n");
                },
                Rap::Struct { name, id, is_member, .. } => {
                    if !*is_member {
                        let members = members_of(reg, *id);
                        let joined = join_strings(&members, ",");
                        h.append("Struct ");
                        h.append(name.as_str());
                        h.append("{");
                        h.append(joined.as_str());
                        h.append("};\n");
                        if members.len() == 0 {
                            issues.push(Report::InconsistentStruct { name: name.clone() });
                            assert(issues.deep_view() =~= pre_issues.push(
                                ReportView::InconsistentStruct { name: name@ },
                            ));
                        }
                    }
                },
            }
            k = k + 1;
        }
        i = i + 1;
    }
    h.append("--- END Variable Definitions --- */\n");
    (h, issues)
}

} // verus!
