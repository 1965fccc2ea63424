//! Small verified text helpers: decimal rendering of ids and joining of
//! name segments with a separator, as in the `a::b::c` form of a callee
//! path.

use vstd::prelude::*;
use vstd::string::StringExecFns;

verus! {

/// The single decimal digit character sequence for `d`.
pub open spec fn spec_digit(d: u64) -> Seq<char> {
    if d == 0 {
        "0"@
    } else if d == 1 {
        "1"@
    } else if d == 2 {
        "2"@
    } else if d == 3 {
        "3"@
    } else if d == 4 {
        "4"@
    } else if d == 5 {
        "5"@
    } else if d == 6 {
        "6"@
    } else if d == 7 {
        "7"@
    } else if d == 8 {
        "8"@
    } else if d == 9 {
        "9"@
    } else {
        Seq::empty()
    }
}

/// The decimal rendering of `n`, most significant digit first.
pub open spec fn spec_u64_string(n: u64) -> Seq<char>
    decreases n,
{
    if n < 10 {
        spec_digit(n)
    } else {
        spec_u64_string(n / 10) + spec_digit(n % 10)
    }
}

/// One decimal digit as a string slice.
fn digit_str(d: u64) -> (r: &'static str)
    requires
        d < 10,
    ensures
        r@ == spec_digit(d),
{
    if d == 0 {
        "0"
    } else if d == 1 {
        "1"
    } else if d == 2 {
        "2"
    } else if d == 3 {
        "3"
    } else if d == 4 {
        "4"
    } else if d == 5 {
        "5"
    } else if d == 6 {
        "6"
    } else if d == 7 {
        "7"
    } else {
        if d == 8 {
            "8"
        } else {
            "9"
        }
    }
}

/// Renders `n` in decimal.
pub fn u64_to_string(n: u64) -> (r: String)
    ensures
        r@ == spec_u64_string(n),
    decreases n,
{
    if n < 10 {
        digit_str(n).to_owned()
    } else {
        u64_to_string(n / 10).concat(digit_str(n % 10))
    }
}

/// Whether `name` holds exactly the characters of `lit`.
pub fn str_is(name: &String, lit: &str) -> (r: bool)
    ensures
        r == (name@ == lit@),
{
    *name == lit.to_owned()
}

/// The first `i` of `segs` joined by `sep`.
pub open spec fn spec_join_upto(segs: Seq<Seq<char>>, sep: Seq<char>, i: int) -> Seq<char>
    decreases i,
{
    if i <= 0 {
        Seq::empty()
    } else if i == 1 {
        segs[0]
    } else {
        spec_join_upto(segs, sep, i - 1) + sep + segs[i - 1]
    }
}

/// All of `segs` joined by `sep`.
pub open spec fn spec_join(segs: Seq<Seq<char>>, sep: Seq<char>) -> Seq<char> {
    spec_join_upto(segs, sep, segs.len() as int)
}

/// Joins the strings of `segs` with `sep` between each two.
pub fn join_strings(segs: &Vec<String>, sep: &str) -> (r: String)
    ensures
        r@ == spec_join(segs.deep_view(), sep@),
{
    let mut r = String::new();
    let mut i: usize = 0;
    while i < segs.len()
        invariant
            i <= segs.len(),
            r@ == spec_join_upto(segs.deep_view(), sep@, i as int),
        decreases segs.len() - i,
    {
        if i > 0 {
            r.append(sep);
        }
        r.append(segs[i].as_str());
        assert(segs.deep_view()[i as int] == segs@[i as int]@);
        i = i + 1;
    }
    r
}

/// The formatted form of a nonempty callee path: segments joined by `::`;
/// of an empty path, the empty string.
pub open spec fn spec_path_fmt(segs: Seq<Seq<char>>) -> Seq<char> {
    spec_join(segs, "::"@)
}

/// Formats a callee path, as in `a::b::c`.
pub fn path_fmt(segs: &Vec<String>) -> (r: String)
    ensures
        r@ == spec_path_fmt(segs.deep_view()),
{
    join_strings(segs, "::")
}

} // verus!
