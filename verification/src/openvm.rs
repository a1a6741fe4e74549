//! OpenVM cost estimation: which component an AIR belongs to, the trace rows
//! a run fills, and what each component costs in trace cells.

use vstd::prelude::*;

use crate::text::{contains_seq, str_contains};

verus! {

/// Component an AIR's cost is charged to.
#[derive(Clone, Copy, Debug, PartialEq, Eq, Structural)]
pub enum Component {
    /// Accelerated chips, such as Keccak, SHA-2 and modular arithmetic.
    Precompile,
    /// Plain RISC-V instructions.
    Rv64,
    /// Tables both groups share, plus fixed VM overhead.
    System,
}

/// AIR name patterns of the tables both groups share.
pub open spec fn system_patterns() -> Seq<Seq<char>> {
    seq![
        "BitwiseOperationLookupAir"@,
        "MemoryMerkleAir"@,
        "PersistentBoundaryAir"@,
        "Poseidon2PeripheryAir"@,
        "ProgramAir"@,
        "RangeTupleCheckerAir"@,
        "VariableRangeCheckerAir"@,
        "VmConnectorAir"@,
    ]
}

/// AIR name patterns of the accelerated chips.
pub open spec fn precompile_patterns() -> Seq<Seq<char>> {
    seq!["Keccakf"@, "Rv64IsEqualModU16"@, "Rv64VecHeap"@, "Sha2"@, "Xorin"@]
}

/// Whether `name` contains one of `patterns`.
pub open spec fn matches_any(name: Seq<char>, patterns: Seq<Seq<char>>) -> bool {
    exists|i: int| 0 <= i < patterns.len() && #[trigger] contains_seq(name, patterns[i])
}

/// The component of an AIR, by its name.
pub open spec fn spec_classify(name: Seq<char>) -> Component {
    if matches_any(name, system_patterns()) {
        Component::System
    } else if matches_any(name, precompile_patterns()) {
        Component::Precompile
    } else {
        Component::Rv64
    }
}

/// Name of a component in the cost table.
pub open spec fn component_name(c: Component) -> Seq<char> {
    match c {
        Component::Precompile => "precompile"@,
        Component::Rv64 => "rv64"@,
        Component::System => "system"@,
    }
}

/// Whether `name` contains one of `patterns`.
fn contains_any(name: &str, patterns: &Vec<&'static str>) -> (r: bool)
    ensures
        r == exists|i: int| 0 <= i < patterns@.len() && #[trigger] contains_seq(name@, patterns@[i]@),
{
    let mut i: usize = 0;
    while i < patterns.len()
        invariant
            0 <= i <= patterns.len(),
            forall|k: int| 0 <= k < i ==> !#[trigger] contains_seq(name@, patterns@[k]@),
        decreases patterns.len() - i,
    {
        if str_contains(name, patterns[i]) {
            return true;
        }
        i = i + 1;
    }
    false
}

impl Component {
    /// An AIR name carries its adapter and core in generics, so each entry is
    /// a pattern. The lookups, the range checkers and the memory argument
    /// serve both the precompiles and plain RISC-V work, so they form their own
    /// component.
    pub fn classify(air_name: &str) -> (c: Component)
        ensures
            c == spec_classify(air_name@),
    {
        let system: Vec<&'static str> = vec![
            "BitwiseOperationLookupAir",
            "MemoryMerkleAir",
            "PersistentBoundaryAir",
            "Poseidon2PeripheryAir",
            "ProgramAir",
            "RangeTupleCheckerAir",
            "VariableRangeCheckerAir",
            "VmConnectorAir",
        ];
        let precompile: Vec<&'static str> = vec![
            "Keccakf",
            "Rv64IsEqualModU16",
            "Rv64VecHeap",
            "Sha2",
            "Xorin",
        ];
        let ghost sys = system@.map_values(|p: &'static str| p@);
        let ghost pre = precompile@.map_values(|p: &'static str| p@);
        assert(sys =~= system_patterns());
        assert(pre =~= precompile_patterns());
        let in_system = contains_any(air_name, &system);
        proof {
            if in_system {
                let i = choose|i: int| 0 <= i < system@.len() && #[trigger] contains_seq(air_name@, system@[i]@);
                assert(contains_seq(air_name@, system_patterns()[i]));
            } else {
                assert forall|i: int| 0 <= i < system_patterns().len() implies !#[trigger] contains_seq(air_name@, system_patterns()[i]) by {
                    assert(system_patterns()[i] == system@[i]@);
                }
            }
        }
        if in_system {
            return Component::System;
        }
        let in_precompile = contains_any(air_name, &precompile);
        proof {
            if in_precompile {
                let i = choose|i: int| 0 <= i < precompile@.len() && #[trigger] contains_seq(air_name@, precompile@[i]@);
                assert(contains_seq(air_name@, precompile_patterns()[i]));
            } else {
                assert forall|i: int| 0 <= i < precompile_patterns().len() implies !#[trigger] contains_seq(air_name@, precompile_patterns()[i]) by {
                    assert(precompile_patterns()[i] == precompile@[i]@);
                }
            }
        }
        if in_precompile {
            Component::Precompile
        } else {
            Component::Rv64
        }
    }

    /// Name of the component in the cost table.
    pub fn as_str(&self) -> (s: &'static str)
        ensures
            s@ == component_name(*self),
    {
        match self {
            Component::Precompile => "precompile",
            Component::Rv64 => "rv64",
            Component::System => "system",
        }
    }
}

/// An AIR whose name contains one of the shared tables
/// `BitwiseOperationLookupAir`, `MemoryMerkleAir`, `PersistentBoundaryAir`,
/// `Poseidon2PeripheryAir`, `ProgramAir`, `RangeTupleCheckerAir`,
/// `VariableRangeCheckerAir` or `VmConnectorAir` is charged to the system;
/// any other that contains `Keccakf`, `Rv64IsEqualModU16`, `Rv64VecHeap`,
/// `Sha2` or `Xorin` to the precompiles; every other AIR to plain RISC-V.
pub proof fn lemma_classify_by_patterns(name: Seq<char>)
    ensures
        ({
            let shared = contains_seq(name, "BitwiseOperationLookupAir"@)
                || contains_seq(name, "MemoryMerkleAir"@)
                || contains_seq(name, "PersistentBoundaryAir"@)
                || contains_seq(name, "Poseidon2PeripheryAir"@)
                || contains_seq(name, "ProgramAir"@)
                || contains_seq(name, "RangeTupleCheckerAir"@)
                || contains_seq(name, "VariableRangeCheckerAir"@)
                || contains_seq(name, "VmConnectorAir"@);
            let accelerated = contains_seq(name, "Keccakf"@)
                || contains_seq(name, "Rv64IsEqualModU16"@)
                || contains_seq(name, "Rv64VecHeap"@)
                || contains_seq(name, "Sha2"@)
                || contains_seq(name, "Xorin"@);
            &&& shared ==> spec_classify(name) == Component::System
            &&& !shared && accelerated ==> spec_classify(name) == Component::Precompile
            &&& !shared && !accelerated ==> spec_classify(name) == Component::Rv64
        }),
{
    let sys = system_patterns();
    let pre = precompile_patterns();
    assert(sys.len() == 8);
    assert(pre.len() == 5);
    let shared = contains_seq(name, "BitwiseOperationLookupAir"@)
        || contains_seq(name, "MemoryMerkleAir"@)
        || contains_seq(name, "PersistentBoundaryAir"@)
        || contains_seq(name, "Poseidon2PeripheryAir"@)
        || contains_seq(name, "ProgramAir"@)
        || contains_seq(name, "RangeTupleCheckerAir"@)
        || contains_seq(name, "VariableRangeCheckerAir"@)
        || contains_seq(name, "VmConnectorAir"@);
    let accelerated = contains_seq(name, "Keccakf"@)
        || contains_seq(name, "Rv64IsEqualModU16"@)
        || contains_seq(name, "Rv64VecHeap"@)
        || contains_seq(name, "Sha2"@)
        || contains_seq(name, "Xorin"@);
    if shared {
        if contains_seq(name, sys[0]) {
        } else if contains_seq(name, sys[1]) {
        } else if contains_seq(name, sys[2]) {
        } else if contains_seq(name, sys[3]) {
        } else if contains_seq(name, sys[4]) {
        } else if contains_seq(name, sys[5]) {
        } else if contains_seq(name, sys[6]) {
        } else {
            assert(contains_seq(name, sys[7]));
        }
        assert(matches_any(name, sys));
    } else {
        assert forall|i: int| 0 <= i < sys.len() implies !#[trigger] contains_seq(name, sys[i]) by {
            if i == 0 {} else if i == 1 {} else if i == 2 {} else if i == 3 {}
            else if i == 4 {} else if i == 5 {} else if i == 6 {} else {}
        }
        assert(!matches_any(name, sys));
        if accelerated {
            if contains_seq(name, pre[0]) {
            } else if contains_seq(name, pre[1]) {
            } else if contains_seq(name, pre[2]) {
            } else if contains_seq(name, pre[3]) {
            } else {
                assert(contains_seq(name, pre[4]));
            }
            assert(matches_any(name, pre));
        } else {
            assert forall|i: int| 0 <= i < pre.len() implies !#[trigger] contains_seq(name, pre[i]) by {
                if i == 0 {} else if i == 1 {} else if i == 2 {} else if i == 3 {} else {}
            }
            assert(!matches_any(name, pre));
        }
    }
}

/// Height segment `seg` gives AIR `a`; zero past its last AIR.
pub open spec fn seg_height(seg: Seq<u32>, a: int) -> int {
    if 0 <= a < seg.len() {
        seg[a] as int
    } else {
        0
    }
}

/// Rows AIR `a` fills over the first `k` segments.
pub open spec fn rows_over(segments: Seq<Seq<u32>>, k: int, a: int) -> int
    decreases k,
{
    if k <= 0 {
        0
    } else {
        rows_over(segments, k - 1, a) + seg_height(segments[k - 1], a)
    }
}

/// The heights of each segment.
pub open spec fn segments_view(segments: Seq<Vec<u32>>) -> Seq<Seq<u32>> {
    segments.map_values(|s: Vec<u32>| s@)
}

proof fn lemma_rows_over_monotone(segments: Seq<Seq<u32>>, j: int, k: int, a: int)
    requires
        0 <= j <= k,
    ensures
        rows_over(segments, j, a) <= rows_over(segments, k, a),
    decreases k - j,
{
    if j < k {
        lemma_rows_over_monotone(segments, j, k - 1, a);
    }
}

/// Rows each of `n` AIRs fills over a run: trace heights are per segment, so
/// a run costs their sum.
pub fn trace_rows(segments: &Vec<Vec<u32>>, n: usize) -> (rows: Vec<u64>)
    requires
        forall|s: int| 0 <= s < segments@.len() ==> (#[trigger] segments@[s])@.len() <= n,
        forall|a: int|
            0 <= a < n ==> #[trigger] rows_over(segments_view(segments@), segments@.len() as int, a)
                <= u64::MAX,
    ensures
        rows@.len() == n,
        forall|a: int|
            0 <= a < n ==> #[trigger] rows@[a] == rows_over(
                segments_view(segments@),
                segments@.len() as int,
                a,
            ),
{
    let ghost segs = segments_view(segments@);
    let mut rows: Vec<u64> = Vec::new();
    let mut a: usize = 0;
    while a < n
        invariant
            0 <= a <= n,
            rows@.len() == a,
            forall|b: int| 0 <= b < a ==> #[trigger] rows@[b] == 0,
        decreases n - a,
    {
        rows.push(0);
        a = a + 1;
    }
    let mut s: usize = 0;
    while s < segments.len()
        invariant
            0 <= s <= segments@.len(),
            segs == segments_view(segments@),
            rows@.len() == n,
            forall|t: int| 0 <= t < segments@.len() ==> (#[trigger] segments@[t])@.len() <= n,
            forall|b: int|
                0 <= b < n ==> #[trigger] rows_over(segs, segments@.len() as int, b) <= u64::MAX,
            forall|b: int| 0 <= b < n ==> #[trigger] rows@[b] == rows_over(segs, s as int, b),
        decreases segments.len() - s,
    {
        let seg = &segments[s];
        assert(segs[s as int] == seg@);
        let mut j: usize = 0;
        while j < seg.len()
            invariant
                0 <= j <= seg@.len() <= n,
                s < segments@.len(),
                segs == segments_view(segments@),
                segs[s as int] == seg@,
                rows@.len() == n,
                forall|b: int|
                    0 <= b < n ==> #[trigger] rows_over(segs, segments@.len() as int, b) <= u64::MAX,
                forall|b: int|
                    0 <= b < n ==> #[trigger] rows@[b] == rows_over(segs, s as int, b) + (if b < j {
                        seg_height(seg@, b)
                    } else {
                        0
                    }),
            decreases seg.len() - j,
        {
            proof {
                lemma_rows_over_monotone(segs, s + 1, segments@.len() as int, j as int);
                assert(rows_over(segs, s + 1, j as int) == rows_over(segs, s as int, j as int) + seg_height(seg@, j as int));
            }
            let h = seg[j] as u64;
            rows.set(j, rows[j] + h);
            j = j + 1;
        }
        s = s + 1;
    }
    rows
}

/// Cells component `c` costs over the first `k` AIRs: rows times width of
/// each AIR charged to it.
pub open spec fn component_cells(
    components: Seq<Component>,
    rows: Seq<u64>,
    widths: Seq<usize>,
    c: Component,
    k: int,
) -> int
    decreases k,
{
    if k <= 0 {
        0
    } else {
        component_cells(components, rows, widths, c, k - 1) + if components[k - 1] == c {
            rows[k - 1] * widths[k - 1]
        } else {
            0
        }
    }
}

/// Cells all AIRs cost over the first `k` of them.
pub open spec fn total_cells(rows: Seq<u64>, widths: Seq<usize>, k: int) -> int
    decreases k,
{
    if k <= 0 {
        0
    } else {
        total_cells(rows, widths, k - 1) + rows[k - 1] * widths[k - 1]
    }
}

/// Whether some AIR is charged to `c`.
pub open spec fn has_component(components: Seq<Component>, c: Component) -> bool {
    exists|i: int| 0 <= i < components.len() && components[i] == c
}

/// The cost table: each component some AIR is charged to, ascending by name,
/// with the cells charged to it.
pub open spec fn spec_component_costs(
    components: Seq<Component>,
    rows: Seq<u64>,
    widths: Seq<usize>,
) -> Seq<(Seq<char>, u64)> {
    let n = components.len() as int;
    let entry = |c: Component|
        if has_component(components, c) {
            seq![(component_name(c), component_cells(components, rows, widths, c, n) as u64)]
        } else {
            Seq::empty()
        };
    entry(Component::Precompile) + entry(Component::Rv64) + entry(Component::System)
}

proof fn lemma_component_cells_monotone(
    components: Seq<Component>,
    rows: Seq<u64>,
    widths: Seq<usize>,
    c: Component,
    j: int,
    k: int,
)
    requires
        0 <= j <= k,
    ensures
        component_cells(components, rows, widths, c, j) <= component_cells(
            components,
            rows,
            widths,
            c,
            k,
        ),
    decreases k - j,
{
    if j < k {
        lemma_component_cells_monotone(components, rows, widths, c, j, k - 1);
        assert(rows[k - 1] * widths[k - 1] >= 0) by (nonlinear_arith);
    }
}

/// The components' cells add up to the cells of all AIRs.
pub proof fn lemma_costs_cover_all_cells(
    components: Seq<Component>,
    rows: Seq<u64>,
    widths: Seq<usize>,
    k: int,
)
    requires
        0 <= k <= components.len(),
    ensures
        component_cells(components, rows, widths, Component::Precompile, k) + component_cells(
            components,
            rows,
            widths,
            Component::Rv64,
            k,
        ) + component_cells(components, rows, widths, Component::System, k) == total_cells(
            rows,
            widths,
            k,
        ),
    decreases k,
{
    if k > 0 {
        lemma_costs_cover_all_cells(components, rows, widths, k - 1);
    }
}

/// Cost table of a run: the cells of each component, rows times width summed
/// over the AIRs charged to it, for the components some AIR is charged to.
pub fn component_costs(components: &Vec<Component>, rows: &Vec<u64>, widths: &Vec<usize>) -> (cost:
    Vec<(String, u64)>)
    requires
        components@.len() <= rows@.len(),
        components@.len() <= widths@.len(),
        component_cells(components@, rows@, widths@, Component::Precompile, components@.len() as int)
            <= u64::MAX,
        component_cells(components@, rows@, widths@, Component::Rv64, components@.len() as int)
            <= u64::MAX,
        component_cells(components@, rows@, widths@, Component::System, components@.len() as int)
            <= u64::MAX,
    ensures
        crate::cost::cost_view(cost@) == spec_component_costs(components@, rows@, widths@),
{
    let n = components.len();
    let ghost cs = components@;
    let mut precompile: u64 = 0;
    let mut rv64: u64 = 0;
    let mut system: u64 = 0;
    let mut has_p = false;
    let mut has_r = false;
    let mut has_s = false;
    let mut air: usize = 0;
    while air < n
        invariant
            0 <= air <= n,
            n == components@.len(),
            n <= rows@.len(),
            n <= widths@.len(),
            cs == components@,
            component_cells(cs, rows@, widths@, Component::Precompile, n as int) <= u64::MAX,
            component_cells(cs, rows@, widths@, Component::Rv64, n as int) <= u64::MAX,
            component_cells(cs, rows@, widths@, Component::System, n as int) <= u64::MAX,
            precompile == component_cells(cs, rows@, widths@, Component::Precompile, air as int),
            rv64 == component_cells(cs, rows@, widths@, Component::Rv64, air as int),
            system == component_cells(cs, rows@, widths@, Component::System, air as int),
            has_p == exists|i: int| 0 <= i < air && cs[i] == Component::Precompile,
            has_r == exists|i: int| 0 <= i < air && cs[i] == Component::Rv64,
            has_s == exists|i: int| 0 <= i < air && cs[i] == Component::System,
        decreases n - air,
    {
        let c = components[air];
        proof {
            lemma_component_cells_monotone(cs, rows@, widths@, c, air + 1, n as int);
            assert(rows@[air as int] * widths@[air as int] >= 0) by (nonlinear_arith);
        }
        let cells = rows[air] * (widths[air] as u64);
        match c {
            Component::Precompile => {
                precompile = precompile + cells;
                has_p = true;
            },
            Component::Rv64 => {
                rv64 = rv64 + cells;
                has_r = true;
            },
            Component::System => {
                system = system + cells;
                has_s = true;
            },
        }
        air = air + 1;
    }
    let mut cost: Vec<(String, u64)> = Vec::new();
    if has_p {
        cost.push((String::from_str(Component::Precompile.as_str()), precompile));
    }
    if has_r {
        cost.push((String::from_str(Component::Rv64.as_str()), rv64));
    }
    if has_s {
        cost.push((String::from_str(Component::System.as_str()), system));
    }
    assert(crate::cost::cost_view(cost@) =~= spec_component_costs(components@, rows@, widths@));
    cost
}

/// The heap above the heap symbol, up to the end of guest memory, when the
/// symbol lies below it.
pub fn heap_range_below(heap_start: Option<u64>, mem_size: u64) -> (r: Option<(u64, u64)>)
    ensures
        r == match heap_start {
            Some(s) => if s < mem_size {
                Some((s, mem_size))
            } else {
                None
            },
            None => None,
        },
{
    match heap_start {
        Some(s) => if s < mem_size {
            Some((s, mem_size))
        } else {
            None
        },
        None => None,
    }
}

/// Heap symbol used when `ERE_COST_ESTIMATION_HEAP_START` names none: the end
/// of the program's data.
pub const DEFAULT_HEAP_START: &'static str = "_end";

/// The heap of `elf` from the symbol named by `start_symbol` (by default
/// `_end`) up to the end of guest memory at `mem_size`, when the symbol
/// exists and lies below it.
pub fn heap_range_of_elf(elf: &[u8], start_symbol: Option<String>, mem_size: u64) -> (r: Option<
    (u64, u64),
>)
    ensures
        ({
            let start = match start_symbol {
                Some(c) => c@,
                None => DEFAULT_HEAP_START@,
            };
            r == match crate::cost::elf_symbol(elf@, start) {
                Some(s) => if s < mem_size {
                    Some((s, mem_size))
                } else {
                    None
                },
                None => None,
            }
        }),
{
    let start = match start_symbol {
        Some(c) => c,
        None => String::from_str(DEFAULT_HEAP_START),
    };
    heap_range_below(crate::cost::symbol_address(elf, start.as_str()), mem_size)
}

} // verus!
