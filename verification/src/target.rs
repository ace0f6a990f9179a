//! Kinds of cargo targets and the order in which they are checked.

use vstd::prelude::*;
use crate::text::{owned, str_equals};

verus! {

/// Whether a crate-type or target-kind name denotes a library.
pub open spec fn spec_is_lib_str(s: Seq<char>) -> bool {
    s == "lib"@ || s == "rlib"@ || s == "staticlib"@
}

/// The kind of a cargo target, as far as `cargo fdep` distinguishes them.
#[derive(Clone, Copy, Debug, PartialEq, Eq, Structural)]
pub enum TargetKind {
    Library,
    Bin,
    Unknown,
}

/// The kind of a target whose cargo kind names are `kinds`: a library as soon as
/// one name is a library kind, a binary when the first name is `bin`, and
/// unknown otherwise.
pub open spec fn spec_target_kind(kinds: Seq<Seq<char>>) -> TargetKind {
    if exists|i: int| 0 <= i < kinds.len() && spec_is_lib_str(#[trigger] kinds[i]) {
        TargetKind::Library
    } else if kinds.len() > 0 && kinds[0] == "bin"@ {
        TargetKind::Bin
    } else {
        TargetKind::Unknown
    }
}

/// The position of a kind in the checking order: libraries before binaries
/// before everything else.
pub open spec fn spec_rank(k: TargetKind) -> nat {
    match k {
        TargetKind::Library => 0,
        TargetKind::Bin => 1,
        TargetKind::Unknown => 2,
    }
}

/// The name under which a kind is shown.
pub open spec fn spec_kind_name(k: TargetKind) -> Seq<char> {
    match k {
        TargetKind::Library => "lib"@,
        TargetKind::Bin => "bin"@,
        TargetKind::Unknown => "unknown"@,
    }
}

impl TargetKind {
    /// Whether `s` is one of the library kinds `lib`, `rlib` or `staticlib`.
    pub fn is_lib_str(s: &str) -> (r: bool)
        ensures
            r == spec_is_lib_str(s@),
    {
        str_equals(s, "lib") || str_equals(s, "rlib") || str_equals(s, "staticlib")
    }

    /// The kind of a target whose cargo kind names are `kinds`.
    pub fn from_kind_names(kinds: &Vec<String>) -> (r: TargetKind)
        ensures
            r == spec_target_kind(kinds.deep_view()),
    {
        let n = kinds.len();
        let ghost k = kinds.deep_view();
        let mut i: usize = 0;
        while i < n
            invariant
                n == kinds.len(),
                k == kinds.deep_view(),
                i <= n,
                forall|j: int| 0 <= j < i ==> !spec_is_lib_str(#[trigger] k[j]),
            decreases n - i,
        {
            assert(k[i as int] == kinds[i as int]@);
            if TargetKind::is_lib_str(kinds[i].as_str()) {
                return TargetKind::Library;
            }
            i = i + 1;
        }
        if n > 0 {
            assert(k[0] == kinds[0]@);
            if str_equals(kinds[0].as_str(), "bin") {
                return TargetKind::Bin;
            }
        }
        TargetKind::Unknown
    }

    /// The position of this kind in the checking order.
    pub fn rank(&self) -> (r: u8)
        ensures
            r == spec_rank(*self),
    {
        match self {
            TargetKind::Library => 0,
            TargetKind::Bin => 1,
            TargetKind::Unknown => 2,
        }
    }

    /// The name under which this kind is shown: `lib`, `bin` or `unknown`.
    pub fn name(&self) -> (r: String)
        ensures
            r@ == spec_kind_name(*self),
    {
        match self {
            TargetKind::Library => owned("lib"),
            TargetKind::Bin => owned("bin"),
            TargetKind::Unknown => owned("unknown"),
        }
    }
}

/// The number of positions `j < i` whose kind has rank `r`.
pub open spec fn count_rank(kinds: Seq<TargetKind>, r: nat, i: int) -> nat
    decreases i,
{
    if i <= 0 {
        0
    } else {
        count_rank(kinds, r, i - 1) + if spec_rank(kinds[i - 1]) == r {
            1nat
        } else {
            0nat
        }
    }
}

/// `order` lists the positions of `kinds` sorted by rank, keeping the original
/// order among positions of equal rank: ordered by (rank, position), strictly.
pub open spec fn lex_sorted(kinds: Seq<TargetKind>, order: Seq<usize>) -> bool {
    forall|p: int, q: int|
        #![trigger order[p], order[q]]
        0 <= p < q < order.len() ==> {
            let a = order[p] as int;
            let b = order[q] as int;
            spec_rank(kinds[a]) < spec_rank(kinds[b]) || (spec_rank(kinds[a]) == spec_rank(
                kinds[b],
            ) && a < b)
        }
}

/// `order` is the stable sort by rank of the positions of `kinds`: a permutation
/// of the positions, ranks never decrease along it, and positions of equal rank
/// keep their original order.
pub open spec fn is_stable_kind_order(kinds: Seq<TargetKind>, order: Seq<usize>) -> bool {
    &&& order.len() == kinds.len()
    &&& forall|p: int| 0 <= p < order.len() ==> (#[trigger] order[p]) < kinds.len()
    &&& forall|j: usize| j < kinds.len() ==> #[trigger] order.contains(j)
    &&& forall|p: int, q: int| 0 <= p < q < order.len() ==> order[p] != order[q]
    &&& forall|p: int, q: int|
        0 <= p < q < order.len() ==> spec_rank(kinds[order[p] as int]) <= spec_rank(
            kinds[order[q] as int],
        )
    &&& forall|p: int, q: int|
        0 <= p < q < order.len() && spec_rank(kinds[order[p] as int]) == spec_rank(
            kinds[order[q] as int],
        ) ==> order[p] < order[q]
}

proof fn lemma_count_rank_total(kinds: Seq<TargetKind>, i: int)
    requires
        0 <= i <= kinds.len(),
    ensures
        count_rank(kinds, 0, i) + count_rank(kinds, 1, i) + count_rank(kinds, 2, i) == i,
    decreases i,
{
    if i > 0 {
        lemma_count_rank_total(kinds, i - 1);
    }
}

/// The order in which targets of the given kinds are checked: libraries first,
/// then binaries, then the rest, each group in its original order.
pub fn check_order(kinds: &Vec<TargetKind>) -> (order: Vec<usize>)
    ensures
        is_stable_kind_order(kinds@, order@),
{
    let n = kinds.len();
    let mut order: Vec<usize> = Vec::new();
    let mut r: u8 = 0;
    while r < 3
        invariant
            n == kinds.len(),
            r <= 3,
            forall|p: int| 0 <= p < order.len() ==> (#[trigger] order@[p]) < n,
            forall|p: int| 0 <= p < order.len() ==> spec_rank(kinds@[#[trigger] order@[p] as int]) < r,
            forall|j: int|
                0 <= j < n && spec_rank(#[trigger] kinds@[j]) < r ==> order@.contains(j as usize),
            lex_sorted(kinds@, order@),
            order.len() == (if r >= 1 { count_rank(kinds@, 0, n as int) } else { 0 }) + (if r
                >= 2 {
                count_rank(kinds@, 1, n as int)
            } else {
                0
            }) + (if r >= 3 {
                count_rank(kinds@, 2, n as int)
            } else {
                0
            }),
        decreases 3 - r,
    {
        let ghost base = order.len();
        let mut i: usize = 0;
        while i < n
            invariant
                n == kinds.len(),
                r < 3,
                i <= n,
                base <= order.len(),
                order.len() == base + count_rank(kinds@, r as nat, i as int),
                forall|p: int| 0 <= p < order.len() ==> (#[trigger] order@[p]) < n,
                forall|p: int|
                    0 <= p < base ==> spec_rank(kinds@[#[trigger] order@[p] as int]) < r,
                forall|p: int|
                    base <= p < order.len() ==> spec_rank(kinds@[#[trigger] order@[p] as int])
                        == r && order@[p] < i,
                forall|j: int|
                    0 <= j < n && spec_rank(#[trigger] kinds@[j]) < r ==> order@.contains(
                        j as usize,
                    ),
                forall|j: int|
                    0 <= j < i && spec_rank(#[trigger] kinds@[j]) == r ==> order@.contains(
                        j as usize,
                    ),
                lex_sorted(kinds@, order@),
            decreases n - i,
        {
            if kinds[i].rank() == r {
                let ghost prev = order@;
                order.push(i);
                assert forall|j: int|
                    0 <= j < n && spec_rank(#[trigger] kinds@[j]) < r implies order@.contains(
                    j as usize,
                ) by {
                    let k = choose|k: int| 0 <= k < prev.len() && prev[k] == j as usize;
                    assert(order@[k] == j as usize);
                }
                assert forall|j: int|
                    0 <= j < i + 1 && spec_rank(#[trigger] kinds@[j]) == r implies order@.contains(
                    j as usize,
                ) by {
                    if j < i {
                        let k = choose|k: int| 0 <= k < prev.len() && prev[k] == j as usize;
                        assert(order@[k] == j as usize);
                    } else {
                        assert(order@[prev.len() as int] == j as usize);
                    }
                }
            }
            i = i + 1;
        }
        r = r + 1;
    }
    proof {
        lemma_count_rank_total(kinds@, n as int);
        assert forall|p: int, q: int| 0 <= p < q < order.len() implies order@[p] != order@[q] by {
            assert(lex_sorted(kinds@, order@));
        }
        assert forall|j: usize| j < n implies #[trigger] order@.contains(j) by {
            assert(spec_rank(kinds@[j as int]) < 3);
        }
        assert forall|p: int, q: int| 0 <= p < q < order.len() implies spec_rank(
            kinds@[order@[p] as int],
        ) <= spec_rank(kinds@[order@[q] as int]) by {
            assert(lex_sorted(kinds@, order@));
        }
        assert forall|p: int, q: int|
            0 <= p < q < order.len() && spec_rank(kinds@[order@[p] as int]) == spec_rank(
                kinds@[order@[q] as int],
            ) implies order@[p] < order@[q] by {
            assert(lex_sorted(kinds@, order@));
        }
    }
    order
}

} // verus!
