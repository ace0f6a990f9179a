//! Scanning of command-line arguments for `--flag` options.
//!
//! Every scan stops at the first argument that is exactly `--`: what follows
//! it belongs to the program that `cargo fdep` eventually runs, not to cargo.

use vstd::prelude::*;
use crate::text::{ends_with, skip_chars, starts_with, str_equals};

verus! {

/// The index of the first `--` at or after `i`, or the number of arguments if none follows.
pub open spec fn region_end_from(args: Seq<Seq<char>>, i: nat) -> nat
    decreases args.len() - i,
{
    if i >= args.len() {
        args.len()
    } else if args[i as int] == "--"@ {
        i
    } else {
        region_end_from(args, i + 1)
    }
}

/// The arguments before the first `--`.
pub open spec fn flag_region(args: Seq<Seq<char>>) -> Seq<Seq<char>> {
    args.take(region_end_from(args, 0) as int)
}

/// `--flag` is present: some argument before the first `--` equals `name`.
pub open spec fn spec_has_flag(args: Seq<Seq<char>>, name: Seq<char>) -> bool {
    flag_region(args).contains(name)
}

/// The value that `get_arg_flag_value` finds in `region`, scanning from position `i`:
/// an argument that begins with `name` is followed either by nothing (the value
/// is the next argument), by `=` (the value is the rest), or by anything else
/// (the argument is skipped).
pub open spec fn flag_value_from(region: Seq<Seq<char>>, name: Seq<char>, i: nat) -> Option<
    Seq<char>,
>
    decreases region.len() - i,
{
    if i >= region.len() {
        None
    } else if !name.is_prefix_of(region[i as int]) {
        flag_value_from(region, name, i + 1)
    } else {
        let suffix = region[i as int].skip(name.len() as int);
        if suffix.len() == 0 {
            if i + 1 < region.len() {
                Some(region[i + 1 as int])
            } else {
                None
            }
        } else if suffix[0] == '=' {
            Some(suffix.drop_first())
        } else {
            flag_value_from(region, name, i + 1)
        }
    }
}

/// The value of `--flag` in `args`.
pub open spec fn spec_flag_value(args: Seq<Seq<char>>, name: Seq<char>) -> Option<Seq<char>> {
    flag_value_from(flag_region(args), name, 0)
}

/// The values that `any_arg_flag` hands to its check, in order, scanning `region`
/// from position `i`. An argument that begins with `name` but continues with
/// neither nothing nor `=`, or a bare `name` with no argument after it, ends the scan.
pub open spec fn flag_candidates_from(region: Seq<Seq<char>>, name: Seq<char>, i: nat) -> Seq<
    Seq<char>,
>
    decreases region.len() - i,
{
    if i >= region.len() {
        Seq::empty()
    } else if !name.is_prefix_of(region[i as int]) {
        flag_candidates_from(region, name, i + 1)
    } else {
        let suffix = region[i as int].skip(name.len() as int);
        if suffix.len() == 0 {
            if i + 1 < region.len() {
                seq![region[(i + 1) as int]] + flag_candidates_from(region, name, i + 2)
            } else {
                Seq::empty()
            }
        } else if suffix[0] == '=' {
            seq![suffix.drop_first()] + flag_candidates_from(region, name, i + 1)
        } else {
            Seq::empty()
        }
    }
}

/// The values of `--flag` that `any_arg_flag` examines in `args`.
pub open spec fn flag_candidates(args: Seq<Seq<char>>, name: Seq<char>) -> Seq<Seq<char>> {
    flag_candidates_from(flag_region(args), name, 0)
}

/// The first argument before `--` that ends with `.rs`, scanning `region` from `i`.
pub open spec fn rs_arg_from(region: Seq<Seq<char>>, i: nat) -> Option<Seq<char>>
    decreases region.len() - i,
{
    if i >= region.len() {
        None
    } else if ".rs"@.is_suffix_of(region[i as int]) {
        Some(region[i as int])
    } else {
        rs_arg_from(region, i + 1)
    }
}

/// The first argument before `--` that ends with `.rs`.
pub open spec fn spec_first_rs_arg(args: Seq<Seq<char>>) -> Option<Seq<char>> {
    rs_arg_from(flag_region(args), 0)
}

/// The view of an optional string.
pub open spec fn opt_view(o: Option<String>) -> Option<Seq<char>> {
    match o {
        Some(s) => Some(s@),
        None => None,
    }
}

/// Whether `check` may answer `true` for a string whose characters are `v`.
pub open spec fn accepted_by<F: Fn(&str) -> bool>(check: F, v: Seq<char>) -> bool {
    exists|s: &str| s@ == v && #[trigger] check.ensures((s,), true)
}

/// Whether `check` may answer `false` for a string whose characters are `v`.
pub open spec fn rejected_by<F: Fn(&str) -> bool>(check: F, v: Seq<char>) -> bool {
    exists|s: &str| s@ == v && #[trigger] check.ensures((s,), false)
}

/// The region that starts at `i` ends at a `--` or at the end, and holds no `--`.
pub proof fn lemma_region_end(args: Seq<Seq<char>>, i: nat)
    requires
        i <= args.len(),
    ensures
        i <= region_end_from(args, i) <= args.len(),
        forall|j: int| i <= j < region_end_from(args, i) ==> args[j] != "--"@,
        region_end_from(args, i) < args.len() ==> args[region_end_from(args, i) as int] == "--"@,
    decreases args.len() - i,
{
    if i < args.len() && args[i as int] != "--"@ {
        lemma_region_end(args, i + 1);
    }
}

/// Without any `--`, every argument lies in the flag region.
pub proof fn lemma_region_without_separator(args: Seq<Seq<char>>)
    requires
        !args.contains("--"@),
    ensures
        flag_region(args) == args,
{
    lemma_region_end(args, 0);
    let e = region_end_from(args, 0);
    if e < args.len() {
        assert(args[e as int] == "--"@);
        assert(args.contains("--"@));
    }
    assert(flag_region(args) =~= args);
}

/// The values examined from position `a.len() + i` of `a + b` are those examined
/// in `b` from position `i`.
pub proof fn lemma_candidates_shift(a: Seq<Seq<char>>, b: Seq<Seq<char>>, name: Seq<char>, i: nat)
    ensures
        flag_candidates_from(a + b, name, a.len() + i) == flag_candidates_from(b, name, i),
    decreases b.len() - i,
{
    let s = a + b;
    let k = a.len() + i;
    if i < b.len() {
        assert(s[k as int] == b[i as int]);
        if i + 1 < b.len() {
            assert(s[(k + 1) as int] == b[(i + 1) as int]);
            lemma_candidates_shift(a, b, name, i + 2);
        }
        lemma_candidates_shift(a, b, name, i + 1);
    }
}

/// Arguments that do not begin with `name` are passed over by the scan for its values.
pub proof fn lemma_candidates_skip(s: Seq<Seq<char>>, name: Seq<char>, i: nat, j: nat)
    requires
        i <= j <= s.len(),
        forall|k: int| i <= k < j ==> !name.is_prefix_of(#[trigger] s[k]),
    ensures
        flag_candidates_from(s, name, i) == flag_candidates_from(s, name, j),
    decreases j - i,
{
    if i < j {
        assert(!name.is_prefix_of(s[i as int]));
        lemma_candidates_skip(s, name, i + 1, j);
    }
}

/// With no argument from `i` on that begins with `name`, the flag has no value.
pub proof fn lemma_value_absent(s: Seq<Seq<char>>, name: Seq<char>, i: nat)
    requires
        forall|k: int| i <= k < s.len() ==> !name.is_prefix_of(#[trigger] s[k]),
    ensures
        flag_value_from(s, name, i) is None,
    decreases s.len() - i,
{
    if i < s.len() {
        assert(!name.is_prefix_of(s[i as int]));
        lemma_value_absent(s, name, i + 1);
    }
}

/// Position `j` of `s` gives `name` a value: it is `name` with an argument after
/// it, or it begins with `name=`.
pub open spec fn gives_value(s: Seq<Seq<char>>, name: Seq<char>, j: int) -> bool {
    (s[j] == name && j + 1 < s.len()) || (name + seq!['=']).is_prefix_of(s[j])
}

/// Some position from `i` on gives the flag a value, so the scan from `i` finds one.
pub proof fn lemma_value_found(s: Seq<Seq<char>>, name: Seq<char>, i: nat, j: nat)
    requires
        i <= j < s.len(),
        gives_value(s, name, j as int),
    ensures
        flag_value_from(s, name, i) is Some,
    decreases j - i,
{
    let a = s[i as int];
    if name.is_prefix_of(a) {
        let suffix = a.skip(name.len() as int);
        if i == j {
            if a == name {
                assert(suffix.len() == 0);
            } else {
                let eq = name + seq!['='];
                assert(eq.is_prefix_of(a));
                assert(suffix[0] == a[name.len() as int]);
                assert(eq[name.len() as int] == '=');
                assert(a[name.len() as int] == eq[name.len() as int]);
            }
        } else {
            if suffix.len() == 0 {
            } else if suffix[0] == '=' {
            } else {
                lemma_value_found(s, name, i + 1, j);
            }
        }
    } else {
        if i == j {
            if a == name {
                assert(name.is_prefix_of(a));
            } else {
                let eq = name + seq!['='];
                assert(eq.is_prefix_of(a));
                assert(name =~= a.subrange(0, name.len() as int)) by {
                    assert forall|t: int| 0 <= t < name.len() implies name[t] == a[t] by {
                        assert(eq[t] == name[t]);
                        assert(a[t] == eq[t]);
                    }
                }
            }
        } else {
            lemma_value_found(s, name, i + 1, j);
        }
    }
}

/// The number of arguments before the first `--`.
pub fn flag_region_len(args: &Vec<String>) -> (r: usize)
    ensures
        r == region_end_from(args.deep_view(), 0),
        r <= args.len(),
{
    proof {
        lemma_region_end(args.deep_view(), 0);
    }
    let n = args.len();
    let mut i: usize = 0;
    while i < n
        invariant
            n == args.len(),
            i <= n,
            region_end_from(args.deep_view(), 0) == region_end_from(args.deep_view(), i as nat),
        decreases n - i,
    {
        if str_equals(args[i].as_str(), "--") {
            return i;
        }
        i = i + 1;
    }
    i
}

/// Whether `--flag` `name` is present before the first `--`.
pub fn has_arg_flag(args: &Vec<String>, name: &str) -> (r: bool)
    ensures
        r == spec_has_flag(args.deep_view(), name@),
{
    let end = flag_region_len(args);
    let ghost region = flag_region(args.deep_view());
    let mut i: usize = 0;
    while i < end
        invariant
            end <= args.len(),
            region == args.deep_view().take(end as int),
            region == flag_region(args.deep_view()),
            i <= end,
            forall|j: int| 0 <= j < i ==> region[j] != name@,
        decreases end - i,
    {
        if str_equals(args[i].as_str(), name) {
            assert(region[i as int] == name@);
            return true;
        }
        i = i + 1;
    }
    false
}

/// The value of `--flag` `name`: the next argument after a bare `name`, or the
/// text after `name=`.
pub fn get_arg_flag_value(args: &Vec<String>, name: &str) -> (r: Option<String>)
    ensures
        opt_view(r) == spec_flag_value(args.deep_view(), name@),
{
    let end = flag_region_len(args);
    let ghost region = flag_region(args.deep_view());
    let name_len = name.unicode_len();
    let mut i: usize = 0;
    while i < end
        invariant
            end <= args.len(),
            region == args.deep_view().take(end as int),
            region == flag_region(args.deep_view()),
            region.len() == end,
            name_len == name@.len(),
            i <= end,
            flag_value_from(region, name@, 0) == flag_value_from(region, name@, i as nat),
        decreases end - i,
    {
        let arg = args[i].as_str();
        assert(region[i as int] == arg@);
        if starts_with(arg, name) {
            let suffix = skip_chars(arg, name_len);
            let suffix_len = suffix.as_str().unicode_len();
            if suffix_len == 0 {
                if i + 1 < end {
                    assert(region[i + 1] == args[i + 1]@);
                    return Some(args[i + 1].clone());
                } else {
                    return None;
                }
            } else if suffix.as_str().get_char(0) == '=' {
                return Some(skip_chars(suffix.as_str(), 1));
            }
        }
        i = i + 1;
    }
    None
}

/// Whether some value of `--flag` `name` passes `check`. A bare `name` takes the
/// next argument as its value; `name=value` gives the value directly. The scan
/// ends, answering `false`, at a bare `name` with nothing after it and at an
/// argument that begins with `name` followed by anything else.
pub fn any_arg_flag<F: Fn(&str) -> bool>(args: &Vec<String>, name: &str, check: F) -> (r: bool)
    requires
        forall|s: &str| #[trigger] check.requires((s,)),
    ensures
        r ==> exists|k: int|
            0 <= k < flag_candidates(args.deep_view(), name@).len() && accepted_by(
                check,
                #[trigger] flag_candidates(args.deep_view(), name@)[k],
            ),
        !r ==> forall|k: int|
            0 <= k < flag_candidates(args.deep_view(), name@).len() ==> rejected_by(
                check,
                #[trigger] flag_candidates(args.deep_view(), name@)[k],
            ),
{
    let end = flag_region_len(args);
    let ghost region = flag_region(args.deep_view());
    let ghost all = flag_candidates_from(region, name@, 0);
    let name_len = name.unicode_len();
    let mut i: usize = 0;
    let ghost mut seen: Seq<Seq<char>> = Seq::empty();
    while i < end
        invariant
            forall|s: &str| #[trigger] check.requires((s,)),
            end <= args.len(),
            region == args.deep_view().take(end as int),
            region == flag_region(args.deep_view()),
            region.len() == end,
            name_len == name@.len(),
            i <= end,
            all == seen + flag_candidates_from(region, name@, i as nat),
            all == flag_candidates(args.deep_view(), name@),
            forall|k: int| 0 <= k < seen.len() ==> rejected_by(check, #[trigger] seen[k]),
        decreases end - i,
    {
        let arg = args[i].as_str();
        assert(region[i as int] == arg@);
        if starts_with(arg, name) {
            let suffix = skip_chars(arg, name_len);
            let suffix_len = suffix.as_str().unicode_len();
            let value: String;
            if suffix_len == 0 {
                if i + 1 < end {
                    assert(region[i + 1] == args[i + 1]@);
                    value = args[i + 1].clone();
                    i = i + 2;
                } else {
                    assert(all == seen);
                    return false;
                }
            } else if suffix.as_str().get_char(0) == '=' {
                value = skip_chars(suffix.as_str(), 1);
                i = i + 1;
            } else {
                assert(all == seen);
                return false;
            }
            let ok = check(value.as_str());
            if ok {
                assert(all[seen.len() as int] == value@);
                assert(accepted_by(check, all[seen.len() as int]));
                return true;
            }
            proof {
                assert(rejected_by(check, value@));
                seen = seen.push(value@);
                assert(all == seen + flag_candidates_from(region, name@, i as nat));
            }
        } else {
            i = i + 1;
        }
    }
    assert(all == seen);
    false
}

/// The first argument before `--` that ends with `.rs`.
pub fn get_first_arg_with_rs_suffix(args: &Vec<String>) -> (r: Option<String>)
    ensures
        opt_view(r) == spec_first_rs_arg(args.deep_view()),
{
    let end = flag_region_len(args);
    let ghost region = flag_region(args.deep_view());
    let mut i: usize = 0;
    while i < end
        invariant
            end <= args.len(),
            region == args.deep_view().take(end as int),
            region == flag_region(args.deep_view()),
            region.len() == end,
            i <= end,
            rs_arg_from(region, 0) == rs_arg_from(region, i as nat),
        decreases end - i,
    {
        assert(region[i as int] == args[i as int]@);
        if ends_with(args[i].as_str(), ".rs") {
            return Some(args[i].clone());
        }
        i = i + 1;
    }
    None
}

} // verus!
