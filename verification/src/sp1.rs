//! SP1: gas-based cost estimation, the heap measures of its two executors,
//! how many runs may go at once, and the network prover's settings.

use vstd::prelude::*;

use crate::cost::{cost_view, CostEstimation};
use crate::text::{chars_of, parse_u64_chars, spec_parse_u64};

verus! {

/// `std::io::Error`, carried by a failed read of guest memory.
#[verifier::external_type_specification]
#[verifier::external_body]
pub struct ExIoError(std::io::Error);

/// Weight of a trace cell against a unit of chip complexity.
pub const TRACE_AREA_WEIGHT: u64 = 3;

/// Errors of SP1 cost estimation.
#[derive(Debug)]
pub enum EstimateCostError {
    /// Gas estimation of a trace chunk failed, with its message.
    Gas(String),
    /// Execution failed, with its message.
    Execute(String),
    /// The priced chips exceed the total cost.
    Mismatch(u64),
    /// Guest memory could not be read.
    Memory(std::io::Error),
}

/// Errors of the SP1 backend that this library decides.
#[derive(Debug)]
pub enum Error {
    /// No API key in the config nor in `NETWORK_PRIVATE_KEY`.
    MissingApiKey,
    /// The program ended with a non-success exit code.
    ExecutionFailed(u32),
    /// Cost estimation failed.
    EstimateCost(EstimateCostError),
    /// The proof carries no exit code.
    ExitCodeExtractionFailed,
}

/// Running totals of one estimate.
#[derive(Clone, Copy, Debug, Default)]
pub struct Charges {
    /// Total cost: trace area times its weight, plus complexity.
    pub cost: u64,
    /// Cost of the syscall chips.
    pub syscall: u64,
    /// Cost of the system chips.
    pub system: u64,
    /// Exit codes of the chunks, or-ed together.
    pub exit_code: u64,
}

/// Sum of `weights[air] * count` over `rows`.
pub open spec fn rows_cost(rows: Seq<(usize, u64)>, weights: Seq<u64>) -> int
    decreases rows.len(),
{
    if rows.len() == 0 {
        0
    } else {
        rows_cost(rows.drop_last(), weights) + weights[rows.last().0 as int] * rows.last().1
    }
}

/// Every AIR of `rows` has a weight.
pub open spec fn rows_weighted(rows: Seq<(usize, u64)>, weights: Seq<u64>) -> bool {
    forall|i: int| 0 <= i < rows.len() ==> (#[trigger] rows[i]).0 < weights.len()
}

proof fn lemma_rows_cost_monotone(rows: Seq<(usize, u64)>, weights: Seq<u64>, k: int)
    requires
        0 <= k <= rows.len(),
    ensures
        0 <= rows_cost(rows.take(k), weights) <= rows_cost(rows, weights),
    decreases rows.len(),
{
    if k < rows.len() {
        assert(rows.drop_last().take(k) =~= rows.take(k));
        lemma_rows_cost_monotone(rows.drop_last(), weights, k);
        let w = weights[rows.last().0 as int];
        let c = rows.last().1;
        assert(w * c >= 0) by (nonlinear_arith)
            requires
                w >= 0,
                c >= 0,
        ;
    } else {
        assert(rows.take(k) =~= rows);
        if rows.len() > 0 {
            lemma_rows_cost_monotone(rows.drop_last(), weights, 0);
            assert(rows.drop_last().take(0) =~= rows.take(0));
            let w = weights[rows.last().0 as int];
            let c = rows.last().1;
            assert(w * c >= 0) by (nonlinear_arith)
                requires
                    w >= 0,
                    c >= 0,
            ;
        }
    }
}

/// Cost of `rows` of chip counts under `weights`.
fn cost_of_rows(rows: &Vec<(usize, u64)>, weights: &Vec<u64>) -> (c: u64)
    requires
        rows_weighted(rows@, weights@),
        rows_cost(rows@, weights@) <= u64::MAX,
    ensures
        c == rows_cost(rows@, weights@),
{
    let mut c: u64 = 0;
    let mut i: usize = 0;
    while i < rows.len()
        invariant
            0 <= i <= rows@.len(),
            rows_weighted(rows@, weights@),
            rows_cost(rows@, weights@) <= u64::MAX,
            c == rows_cost(rows@.take(i as int), weights@),
        decreases rows.len() - i,
    {
        let (air, count) = rows[i];
        proof {
            lemma_rows_cost_monotone(rows@, weights@, i + 1);
            assert(rows@.take(i + 1).drop_last() =~= rows@.take(i as int));
            assert(rows@[i as int].0 < weights@.len());
            let w = weights@[air as int];
            assert(w * count >= 0) by (nonlinear_arith)
                requires
                    w >= 0,
                    count >= 0,
            ;
        }
        c = c + weights[air] * count;
        i = i + 1;
    }
    assert(rows@.take(rows@.len() as int) =~= rows@);
    c
}

/// Charges of one trace chunk added to `charges`: its trace area, weighted,
/// plus its complexity to the total; the weighted syscall and system chip
/// counts to theirs; and its exit code or-ed in.
pub fn charge(
    charges: &mut Charges,
    complexity: u64,
    trace_area: u64,
    syscall_rows: &Vec<(usize, u64)>,
    system_rows: &Vec<(usize, u64)>,
    exit_code: u64,
    weights: &Vec<u64>,
)
    requires
        rows_weighted(syscall_rows@, weights@),
        rows_weighted(system_rows@, weights@),
        old(charges).cost + TRACE_AREA_WEIGHT * trace_area + complexity <= u64::MAX,
        old(charges).syscall + rows_cost(syscall_rows@, weights@) <= u64::MAX,
        old(charges).system + rows_cost(system_rows@, weights@) <= u64::MAX,
    ensures
        final(charges).cost == old(charges).cost + TRACE_AREA_WEIGHT * trace_area + complexity,
        final(charges).syscall == old(charges).syscall + rows_cost(syscall_rows@, weights@),
        final(charges).system == old(charges).system + rows_cost(system_rows@, weights@),
        final(charges).exit_code == old(charges).exit_code | exit_code,
{
    proof {
        lemma_rows_cost_monotone(syscall_rows@, weights@, 0);
        lemma_rows_cost_monotone(system_rows@, weights@, 0);
    }
    charges.cost = charges.cost + TRACE_AREA_WEIGHT * trace_area + complexity;
    charges.syscall = charges.syscall + cost_of_rows(syscall_rows, weights);
    charges.system = charges.system + cost_of_rows(system_rows, weights);
    charges.exit_code = charges.exit_code | exit_code;
}

/// The cost table of a finished estimate: the opcode cost is what the total
/// leaves after the syscall and system chips.
pub open spec fn charges_cost(ch: Charges) -> Seq<(Seq<char>, u64)> {
    seq![
        ("opcode"@, (ch.cost - (ch.syscall + ch.system)) as u64),
        ("syscall"@, ch.syscall),
        ("system"@, ch.system),
    ]
}

/// Result of an estimate from its charges: a non-zero exit code fails the
/// run, priced chips beyond the total fail the estimate, and otherwise the
/// cost splits into opcode, syscall and system.
pub fn finish_estimate(charges: Charges, public_values: Vec<u8>, peak_heap_bytes: Option<u64>) -> (r:
    Result<(Vec<u8>, CostEstimation), Error>)
    requires
        charges.syscall + charges.system <= u64::MAX,
    ensures
        charges.exit_code != 0 ==> (r matches Err(Error::ExecutionFailed(code)) && code
            == charges.exit_code as u32),
        charges.exit_code == 0 && charges.cost < charges.syscall + charges.system ==> (r matches Err(
            Error::EstimateCost(EstimateCostError::Mismatch(total)),
        ) && total == charges.cost),
        charges.exit_code == 0 && charges.cost >= charges.syscall + charges.system ==> (r matches Ok(
            (pv, est),
        ) && pv@ == public_values@ && cost_view(est.cost@) == charges_cost(charges)
            && est.peak_heap_bytes == peak_heap_bytes),
{
    if charges.exit_code != 0 {
        return Err(Error::ExecutionFailed(charges.exit_code as u32));
    }
    let opcode = match charges.cost.checked_sub(charges.syscall + charges.system) {
        Some(v) => v,
        None => return Err(Error::EstimateCost(EstimateCostError::Mismatch(charges.cost))),
    };
    let cost = vec![
        (String::from_str("opcode"), opcode),
        (String::from_str("syscall"), charges.syscall),
        (String::from_str("system"), charges.system),
    ];
    assert(cost_view(cost@) =~= charges_cost(charges));
    Ok((public_values, CostEstimation { cost, peak_heap_bytes }))
}

/// The opcode, syscall and system costs add up to the total.
pub proof fn lemma_split_covers_total(ch: Charges)
    requires
        ch.syscall + ch.system <= ch.cost,
    ensures
        charges_cost(ch)[0].1 + charges_cost(ch)[1].1 + charges_cost(ch)[2].1 == ch.cost,
{
}

/// Success exit code of a guest program.
pub const SUCCESS_EXIT_CODE: u32 = 0;

/// A run succeeded only when its exit code is the success code.
pub fn check_exit_code(exit_code: u32) -> (r: Result<(), Error>)
    ensures
        r is Ok <==> exit_code == SUCCESS_EXIT_CODE,
        r matches Err(e) ==> (e matches Error::ExecutionFailed(c) && c == exit_code),
{
    if exit_code != SUCCESS_EXIT_CODE {
        Err(Error::ExecutionFailed(exit_code))
    } else {
        Ok(())
    }
}

/// Weight of one gas table entry `(air, complexity, cells)`: its cells,
/// weighted, plus its complexity.
pub open spec fn entry_weight(e: (usize, u64, Option<u64>)) -> int {
    TRACE_AREA_WEIGHT * match e.2 {
        Some(c) => c as int,
        None => 0,
    } + e.1
}

/// Length of the weight table of `entries`: one past the largest AIR index.
pub open spec fn weights_len(entries: Seq<(usize, u64, Option<u64>)>) -> int
    decreases entries.len(),
{
    if entries.len() == 0 {
        0
    } else {
        let rest = weights_len(entries.drop_last());
        let need = entries.last().0 + 1;
        if need > rest {
            need
        } else {
            rest
        }
    }
}

/// Weight of AIR `a`: that of the last entry for it, or zero.
pub open spec fn weight_of(entries: Seq<(usize, u64, Option<u64>)>, a: int) -> int
    decreases entries.len(),
{
    if entries.len() == 0 {
        0
    } else if entries.last().0 == a {
        entry_weight(entries.last())
    } else {
        weight_of(entries.drop_last(), a)
    }
}

/// Gas weight of each chip, indexed by AIR: its cells times the trace area
/// weight, plus its complexity.
pub fn weights(entries: &Vec<(usize, u64, Option<u64>)>) -> (w: Vec<u64>)
    requires
        forall|i: int| 0 <= i < entries@.len() ==> entry_weight(#[trigger] entries@[i]) <= u64::MAX,
        forall|i: int| 0 <= i < entries@.len() ==> (#[trigger] entries@[i]).0 < usize::MAX,
    ensures
        w@.len() == weights_len(entries@),
        forall|a: int| 0 <= a < w@.len() ==> #[trigger] w@[a] == weight_of(entries@, a),
{
    let mut w: Vec<u64> = Vec::new();
    let mut k: usize = 0;
    while k < entries.len()
        invariant
            0 <= k <= entries@.len(),
            forall|i: int| 0 <= i < entries@.len() ==> entry_weight(#[trigger] entries@[i]) <= u64::MAX,
            forall|i: int| 0 <= i < entries@.len() ==> (#[trigger] entries@[i]).0 < usize::MAX,
            w@.len() == weights_len(entries@.take(k as int)),
            forall|a: int| 0 <= a < w@.len() ==> #[trigger] w@[a] == weight_of(entries@.take(k as int), a),
        decreases entries.len() - k,
    {
        let (air, complexity, cells) = entries[k];
        let ghost before = entries@.take(k as int);
        assert(entries@.take(k + 1).drop_last() =~= before);
        assert(entries@.take(k + 1).last() == entries@[k as int]);
        while w.len() <= air
            invariant
                air < usize::MAX,
                weights_len(before) <= w@.len(),
                w@.len() == weights_len(before) || w@.len() <= air + 1,
                forall|a: int| 0 <= a < weights_len(before) ==> #[trigger] w@[a] == weight_of(before, a),
                forall|a: int| weights_len(before) <= a < w@.len() ==> #[trigger] w@[a] == 0,
            decreases air + 1 - w.len(),
        {
            w.push(0);
        }
        let c: u64 = match cells {
            Some(c) => c,
            None => 0,
        };
        assert(entry_weight(entries@[k as int]) == TRACE_AREA_WEIGHT * c + complexity);
        w.set(air, TRACE_AREA_WEIGHT * c + complexity);
        proof {
            assert forall|a: int| 0 <= a < w@.len() implies #[trigger] w@[a] == weight_of(entries@.take(k + 1), a) by {
                if a != air && a >= weights_len(before) {
                    lemma_weight_of_beyond(before, a);
                }
            }
        }
        k = k + 1;
    }
    assert(entries@.take(entries@.len() as int) =~= entries@);
    w
}

/// The weight of a chip is set by the last gas table entry for its AIR: the
/// entry's trace cells (none counting as zero) times `TRACE_AREA_WEIGHT`,
/// plus its complexity.
pub proof fn lemma_weight_of_last_entry(entries: Seq<(usize, u64, Option<u64>)>, k: int)
    requires
        0 <= k < entries.len(),
        forall|j: int| k < j < entries.len() ==> (#[trigger] entries[j]).0 != entries[k].0,
    ensures
        weight_of(entries, entries[k].0 as int) == TRACE_AREA_WEIGHT * match entries[k].2 {
            Some(cells) => cells as int,
            None => 0int,
        } + entries[k].1,
    decreases entries.len(),
{
    if k < entries.len() - 1 {
        let rest = entries.drop_last();
        assert(entries[entries.len() - 1].0 != entries[k].0);
        assert forall|j: int| k < j < rest.len() implies (#[trigger] rest[j]).0 != rest[k].0 by {
            assert(rest[j] == entries[j]);
        }
        lemma_weight_of_last_entry(rest, k);
    }
}

/// A chip whose AIR has no gas table entry weighs nothing.
pub proof fn lemma_weight_of_absent(entries: Seq<(usize, u64, Option<u64>)>, a: int)
    requires
        forall|j: int| 0 <= j < entries.len() ==> (#[trigger] entries[j]).0 != a,
    ensures
        weight_of(entries, a) == 0,
    decreases entries.len(),
{
    if entries.len() > 0 {
        let rest = entries.drop_last();
        assert(entries[entries.len() - 1].0 != a);
        assert forall|j: int| 0 <= j < rest.len() implies (#[trigger] rest[j]).0 != a by {
            assert(rest[j] == entries[j]);
        }
        lemma_weight_of_absent(rest, a);
    }
}

proof fn lemma_weight_of_beyond(entries: Seq<(usize, u64, Option<u64>)>, a: int)
    requires
        a >= weights_len(entries),
    ensures
        weight_of(entries, a) == 0,
    decreases entries.len(),
{
    if entries.len() > 0 {
        lemma_weight_of_beyond(entries.drop_last(), a);
    }
}

/// Guest bytes per byte of the file behind guest memory: each 8-byte word
/// takes a 16-byte record, the clock then the value.
pub const FILE_BYTES_PER_GUEST_BYTE: u64 = 2;

/// Regions of file data in ascending order, none empty, none overlapping.
pub open spec fn regions_ordered(regions: Seq<(u64, u64)>) -> bool {
    &&& forall|i: int| 0 <= i < regions.len() ==> (#[trigger] regions[i]).0 < regions[i].1
    &&& forall|i: int, j: int| 0 <= i < j < regions.len() ==> (#[trigger] regions[i]).1 <= (#[trigger] regions[j]).0
}

/// Peak heap from the data regions of the file behind guest memory: the
/// topmost region is dropped when it holds the input, and the heap spans the
/// guest bytes from the start of the first region left to the end of the
/// last.
pub open spec fn spec_jit_peak_heap_bytes(regions: Seq<(u64, u64)>, top_holds_input: bool) -> Option<u64> {
    if regions.len() == 0 {
        None
    } else {
        let kept = if top_holds_input {
            regions.drop_last()
        } else {
            regions
        };
        if kept.len() == 0 {
            None
        } else {
            Some(
                ((kept.last().1 - 1) as u64 / FILE_BYTES_PER_GUEST_BYTE - kept[0].0 / FILE_BYTES_PER_GUEST_BYTE + 1) as u64,
            )
        }
    }
}

/// Peak heap in bytes from the data regions of the file behind guest memory,
/// given whether the topmost region holds the input.
pub fn jit_peak_heap_bytes(regions: &Vec<(u64, u64)>, top_holds_input: bool) -> (r: Option<u64>)
    requires
        regions_ordered(regions@),
    ensures
        r == spec_jit_peak_heap_bytes(regions@, top_holds_input),
{
    let n = regions.len();
    if n == 0 {
        return None;
    }
    let kept = if top_holds_input { n - 1 } else { n };
    if kept == 0 {
        return None;
    }
    let first = regions[0];
    let last = regions[kept - 1];
    let ghost k = if top_holds_input { regions@.drop_last() } else { regions@ };
    assert(k.last() == last && k[0] == first);
    proof {
        if kept > 1 {
            assert(regions@[0].1 <= regions@[kept - 1].0);
        }
    }
    assert((last.1 - 1) as u64 / FILE_BYTES_PER_GUEST_BYTE >= first.0 / FILE_BYTES_PER_GUEST_BYTE);
    Some((last.1 - 1) / FILE_BYTES_PER_GUEST_BYTE - first.0 / FILE_BYTES_PER_GUEST_BYTE + 1)
}

/// Bytes of a guest word.
pub const GUEST_WORD_BYTES: u64 = 8;

/// Addresses of `memory` at or above `heap_start` whose word is not zero.
pub open spec fn spec_filled_words(memory: Seq<(u64, u64)>, heap_start: u64) -> Seq<u64>
    decreases memory.len(),
{
    if memory.len() == 0 {
        Seq::empty()
    } else {
        let rest = spec_filled_words(memory.drop_last(), heap_start);
        let (addr, value) = memory.last();
        if addr >= heap_start && value != 0 {
            rest.push(addr)
        } else {
            rest
        }
    }
}

/// Every guest word at or above `heap_start` holding a value other than
/// zero, from the `(address, value)` entries of guest memory. The executor
/// records a word on read as well as on write, so the address alone does not
/// say the guest put anything there.
pub fn filled_words(memory: &Vec<(u64, u64)>, heap_start: u64) -> (filled: Vec<u64>)
    ensures
        filled@ == spec_filled_words(memory@, heap_start),
{
    let mut filled: Vec<u64> = Vec::new();
    let mut i: usize = 0;
    while i < memory.len()
        invariant
            0 <= i <= memory@.len(),
            filled@ == spec_filled_words(memory@.take(i as int), heap_start),
        decreases memory.len() - i,
    {
        assert(memory@.take(i + 1).drop_last() =~= memory@.take(i as int));
        let (addr, value) = memory[i];
        if addr >= heap_start && value != 0 {
            filled.push(addr);
        }
        i = i + 1;
    }
    assert(memory@.take(memory@.len() as int) =~= memory@);
    filled
}

/// Largest of `s`, or zero for none.
pub open spec fn seq_max(s: Seq<u64>) -> u64
    decreases s.len(),
{
    if s.len() == 0 {
        0
    } else {
        let m = seq_max(s.drop_last());
        if s.last() > m {
            s.last()
        } else {
            m
        }
    }
}

/// How many of `s` lie below `bound`.
pub open spec fn count_below(s: Seq<u64>, bound: int) -> nat
    decreases s.len(),
{
    if s.len() == 0 {
        0
    } else {
        count_below(s.drop_last(), bound) + if s.last() < bound {
            1nat
        } else {
            0nat
        }
    }
}

/// Bytes the input takes once rounded up to whole guest words.
pub open spec fn input_word_bytes(input_len: int) -> int {
    GUEST_WORD_BYTES * ((input_len + 7) / 8)
}

/// Peak heap of a portable run: the runtime places the input above the heap,
/// so the words below where the input starts, counting back from the highest
/// filled word, are heap.
pub open spec fn spec_portable_peak_heap_bytes(filled: Seq<u64>, input_len: int) -> Option<u64> {
    if filled.len() == 0 || seq_max(filled) < input_word_bytes(input_len) {
        None
    } else {
        let input_start = seq_max(filled) - input_word_bytes(input_len);
        let words = count_below(filled, input_start);
        if words > 0 {
            Some((GUEST_WORD_BYTES * words) as u64)
        } else {
            None
        }
    }
}

proof fn lemma_seq_max_is_greatest(s: Seq<u64>)
    ensures
        forall|i: int| 0 <= i < s.len() ==> s[i] <= seq_max(s),
        s.len() > 0 ==> s.contains(seq_max(s)),
    decreases s.len(),
{
    if s.len() > 0 {
        let rest = s.drop_last();
        lemma_seq_max_is_greatest(rest);
        assert forall|i: int| 0 <= i < s.len() implies s[i] <= seq_max(s) by {
            if i < s.len() - 1 {
                assert(s[i] == rest[i]);
            }
        }
        if s.last() <= seq_max(rest) && rest.len() > 0 {
            let j = choose|j: int| 0 <= j < rest.len() && rest[j] == seq_max(rest);
            assert(s[j] == rest[j]);
        } else {
            assert(s[s.len() - 1] == s.last());
        }
    }
}

proof fn lemma_count_below_is_filter(s: Seq<u64>, bound: int)
    ensures
        count_below(s, bound) == s.filter(|w: u64| w < bound).len(),
    decreases s.len(),
{
    reveal(Seq::filter);
    if s.len() > 0 {
        lemma_count_below_is_filter(s.drop_last(), bound);
    }
}

/// A portable run's peak heap is the filled words below where the input
/// starts, in bytes: the input takes its length rounded up to whole guest
/// words and ends at the highest filled word `top`, so every filled word
/// from `top` less that rounded length upwards belongs to the input. There
/// is none where the input would start below address zero or no word lies
/// below it.
pub proof fn lemma_portable_heap_excludes_input(filled: Seq<u64>, input_len: int, top: u64)
    requires
        0 <= input_len,
        filled.contains(top),
        forall|i: int| 0 <= i < filled.len() ==> filled[i] <= top,
    ensures
        ({
            let start = top - GUEST_WORD_BYTES * ((input_len + 7) / 8);
            let heap = filled.filter(|w: u64| w < start);
            spec_portable_peak_heap_bytes(filled, input_len) == if start >= 0 && heap.len() > 0 {
                Some((GUEST_WORD_BYTES * heap.len()) as u64)
            } else {
                None
            }
        }),
{
    lemma_seq_max_is_greatest(filled);
    assert(seq_max(filled) == top);
    let start = top - GUEST_WORD_BYTES * ((input_len + 7) / 8);
    lemma_count_below_is_filter(filled, start);
}

proof fn lemma_count_below_le(s: Seq<u64>, bound: int)
    ensures
        count_below(s, bound) <= s.len(),
    decreases s.len(),
{
    if s.len() > 0 {
        lemma_count_below_le(s.drop_last(), bound);
    }
}

/// Peak heap in bytes of a portable run from its filled words, counted in
/// whole words below the input.
pub fn portable_peak_heap_bytes(filled: &Vec<u64>, input_len: usize) -> (r: Option<u64>)
    requires
        input_len + 7 <= u64::MAX,
        GUEST_WORD_BYTES * filled@.len() <= u64::MAX,
    ensures
        r == spec_portable_peak_heap_bytes(filled@, input_len as int),
{
    let n = filled.len();
    if n == 0 {
        return None;
    }
    let mut max: u64 = 0;
    let mut i: usize = 0;
    while i < n
        invariant
            0 <= i <= n,
            n == filled@.len(),
            max == seq_max(filled@.take(i as int)),
        decreases n - i,
    {
        assert(filled@.take(i + 1).drop_last() =~= filled@.take(i as int));
        if filled[i] > max {
            max = filled[i];
        }
        i = i + 1;
    }
    assert(filled@.take(n as int) =~= filled@);
    let input_bytes = GUEST_WORD_BYTES * ((input_len as u64 + 7) / 8);
    let input_start = match max.checked_sub(input_bytes) {
        Some(s) => s,
        None => return None,
    };
    let mut words: u64 = 0;
    let mut j: usize = 0;
    while j < n
        invariant
            0 <= j <= n,
            n == filled@.len(),
            GUEST_WORD_BYTES * n <= u64::MAX,
            words == count_below(filled@.take(j as int), input_start as int),
        decreases n - j,
    {
        assert(filled@.take(j + 1).drop_last() =~= filled@.take(j as int));
        proof {
            lemma_count_below_le(filled@.take(j as int), input_start as int);
        }
        if filled[j] < input_start {
            words = words + 1;
        }
        j = j + 1;
    }
    assert(filled@.take(n as int) =~= filled@);
    proof {
        lemma_count_below_le(filled@, input_start as int);
    }
    if words > 0 {
        Some(GUEST_WORD_BYTES * words)
    } else {
        None
    }
}

/// Bytes of the input's prefix that a page is compared against.
pub const INPUT_PREFIX_BYTES: usize = 64;

/// Granularity of the file behind guest memory.
pub const HOST_PAGE_BYTES: u64 = 4096;

/// Last file offset at which an input of `input_len` bytes can start inside
/// the region `[start, end)`, or `None` when it does not fit or is empty.
pub open spec fn spec_input_scan_last(start: u64, end: u64, input_len: int) -> Option<u64> {
    let need = FILE_BYTES_PER_GUEST_BYTE * input_word_bytes(input_len);
    if end < need || end - need < start || input_len == 0 {
        None
    } else {
        Some((end - need) as u64)
    }
}

/// Where a page-aligned search for the input ends inside the region
/// `[start, end)`: a reserved input region starts on a page and holds the
/// input rounded up to whole guest words, so the input can start no later
/// than the region's end minus that. An empty input is nowhere.
pub fn input_scan_last(start: u64, end: u64, input_len: usize) -> (r: Option<u64>)
    requires
        FILE_BYTES_PER_GUEST_BYTE * input_word_bytes(input_len as int) <= u64::MAX,
    ensures
        r == spec_input_scan_last(start, end, input_len as int),
{
    let padded = GUEST_WORD_BYTES * ((input_len as u64 + 7) / 8);
    let need = FILE_BYTES_PER_GUEST_BYTE * padded;
    let last = match end.checked_sub(need) {
        Some(l) => l,
        None => return None,
    };
    if last < start {
        return None;
    }
    if input_len == 0 {
        return None;
    }
    Some(last)
}

/// The page after `at` in a search that ends at `last`.
pub fn next_page(at: u64, last: u64) -> (r: Option<u64>)
    ensures
        r == (if at + HOST_PAGE_BYTES <= last {
            Some((at + HOST_PAGE_BYTES) as u64)
        } else {
            None
        }),
{
    match at.checked_add(HOST_PAGE_BYTES) {
        Some(next) => if next <= last {
            Some(next)
        } else {
            None
        },
        None => None,
    }
}

/// The guest bytes that 128 bytes of file records hold: each 16-byte record
/// is a clock, then an 8-byte word.
pub fn guest_bytes_from_records(records: &[u8]) -> (bytes: Vec<u8>)
    requires
        records@.len() == 2 * INPUT_PREFIX_BYTES,
    ensures
        bytes@.len() == INPUT_PREFIX_BYTES,
        forall|i: int| 0 <= i < INPUT_PREFIX_BYTES ==> #[trigger] bytes@[i] == records@[16 * (i / 8) + 8 + i % 8],
{
    let mut bytes: Vec<u8> = Vec::new();
    let mut i: usize = 0;
    while i < INPUT_PREFIX_BYTES
        invariant
            0 <= i <= INPUT_PREFIX_BYTES,
            records@.len() == 2 * INPUT_PREFIX_BYTES,
            bytes@.len() == i,
            forall|j: int| 0 <= j < i ==> #[trigger] bytes@[j] == records@[16 * (j / 8) + 8 + j % 8],
        decreases INPUT_PREFIX_BYTES - i,
    {
        assert(16 * (i / 8) + 8 + i % 8 < 128) by (nonlinear_arith)
            requires
                i < 64,
        ;
        bytes.push(records[16 * (i / 8) + 8 + i % 8]);
        i = i + 1;
    }
    bytes
}

/// Bytes of the input a page is compared against: at most
/// `INPUT_PREFIX_BYTES`.
pub open spec fn prefix_len(input_len: int) -> int {
    if input_len < INPUT_PREFIX_BYTES {
        input_len
    } else {
        INPUT_PREFIX_BYTES as int
    }
}

/// Whether guest bytes start with the input's prefix.
pub open spec fn spec_page_holds_input(guest_bytes: Seq<u8>, input: Seq<u8>) -> bool {
    guest_bytes.take(prefix_len(input.len() as int)) == input.take(prefix_len(input.len() as int))
}

/// Whether the guest bytes of a page start with the input's prefix.
pub fn page_holds_input(guest_bytes: &[u8], input: &[u8]) -> (r: bool)
    requires
        guest_bytes@.len() == INPUT_PREFIX_BYTES,
    ensures
        r == spec_page_holds_input(guest_bytes@, input@),
{
    let p = if input.len() < INPUT_PREFIX_BYTES { input.len() } else { INPUT_PREFIX_BYTES };
    assert(p as int == prefix_len(input@.len() as int));
    let mut i: usize = 0;
    while i < p
        invariant
            0 <= i <= p,
            p as int == prefix_len(input@.len() as int),
            p <= input@.len(),
            p <= guest_bytes@.len(),
            forall|j: int| 0 <= j < i ==> guest_bytes@[j] == input@[j],
        decreases p - i,
    {
        if guest_bytes[i] != input[i] {
            assert(guest_bytes@.take(p as int)[i as int] != input@.take(p as int)[i as int]);
            return false;
        }
        i = i + 1;
    }
    assert(guest_bytes@.take(p as int) =~= input@.take(p as int));
    true
}

/// What a page-by-page input search does after reading one page.
#[derive(Clone, Copy, Debug, PartialEq, Eq, Structural)]
pub enum SearchStep {
    /// The page at this file offset starts with the input.
    Found(u64),
    /// Read the page at this file offset next.
    Next(u64),
    /// No page up to the search's end holds the input.
    NotFound,
}

/// The step after reading `guest_bytes` from the page at `at`, in a search
/// that ends at `last`.
pub open spec fn spec_search_step(at: u64, last: u64, guest_bytes: Seq<u8>, input: Seq<u8>) -> SearchStep {
    if spec_page_holds_input(guest_bytes, input) {
        SearchStep::Found(at)
    } else if at + HOST_PAGE_BYTES <= last {
        SearchStep::Next((at + HOST_PAGE_BYTES) as u64)
    } else {
        SearchStep::NotFound
    }
}

/// Decides one step of the search for the input, given the guest bytes read
/// from the page at `at`: stop where the page holds the input, else go on to
/// the next page while it lies within `last`.
pub fn input_search_step(at: u64, last: u64, guest_bytes: &[u8], input: &[u8]) -> (s: SearchStep)
    requires
        guest_bytes@.len() == INPUT_PREFIX_BYTES,
    ensures
        s == spec_search_step(at, last, guest_bytes@, input@),
{
    if page_holds_input(guest_bytes, input) {
        SearchStep::Found(at)
    } else {
        match next_page(at, last) {
            Some(next) => SearchStep::Next(next),
            None => SearchStep::NotFound,
        }
    }
}

/// Where a search that starts at `at` and ends at `last` stops, when the
/// `k`-th page it reads gives the guest bytes `reads[k]`; `None` where it
/// finds nothing before its end or before the reads run out.
pub open spec fn search_walk(at: u64, last: u64, reads: Seq<Seq<u8>>, input: Seq<u8>) -> Option<u64>
    decreases reads.len(),
{
    if reads.len() == 0 {
        None
    } else {
        match spec_search_step(at, last, reads[0], input) {
            SearchStep::Found(p) => Some(p),
            SearchStep::Next(n) => search_walk(n, last, reads.drop_first(), input),
            SearchStep::NotFound => None,
        }
    }
}

/// The search finds the least page that holds the input: where the `k`-th
/// page within the search's end holds it and no earlier page does, the
/// search stops at that page's offset; where no page within the end holds
/// it, the search finds nothing.
pub proof fn lemma_search_finds_least_page(at: u64, last: u64, reads: Seq<Seq<u8>>, input: Seq<u8>)
    requires
        at <= last,
    ensures
        forall|k: int|
            0 <= k < reads.len() && at + k * HOST_PAGE_BYTES <= last
                && spec_page_holds_input(#[trigger] reads[k], input)
                && (forall|j: int| 0 <= j < k ==> !spec_page_holds_input(reads[j], input))
                ==> search_walk(at, last, reads, input) == Some((at + k * HOST_PAGE_BYTES) as u64),
        (forall|k: int|
            0 <= k < reads.len() && at + k * HOST_PAGE_BYTES <= last
                ==> !spec_page_holds_input(#[trigger] reads[k], input))
            ==> search_walk(at, last, reads, input) is None,
    decreases reads.len(),
{
    if reads.len() > 0 && !spec_page_holds_input(reads[0], input) && at + HOST_PAGE_BYTES <= last {
        let next = (at + HOST_PAGE_BYTES) as u64;
        let rest = reads.drop_first();
        lemma_search_finds_least_page(next, last, rest, input);
        assert forall|k: int|
            0 <= k < reads.len() && at + k * HOST_PAGE_BYTES <= last
                && spec_page_holds_input(#[trigger] reads[k], input)
                && (forall|j: int| 0 <= j < k ==> !spec_page_holds_input(reads[j], input))
            implies search_walk(at, last, reads, input) == Some((at + k * HOST_PAGE_BYTES) as u64) by {
            assert(k != 0);
            assert(rest[k - 1] == reads[k]);
            assert forall|j: int| 0 <= j < k - 1 implies !spec_page_holds_input(rest[j], input) by {
                assert(rest[j] == reads[j + 1]);
            }
        }
        if forall|k: int|
            0 <= k < reads.len() && at + k * HOST_PAGE_BYTES <= last
                ==> !spec_page_holds_input(#[trigger] reads[k], input) {
            assert forall|k: int|
                0 <= k < rest.len() && next + k * HOST_PAGE_BYTES <= last
                implies !spec_page_holds_input(#[trigger] rest[k], input) by {
                assert(rest[k] == reads[k + 1]);
            }
        }
    } else if reads.len() > 0 && spec_page_holds_input(reads[0], input) {
        assert forall|k: int|
            0 <= k < reads.len() && at + k * HOST_PAGE_BYTES <= last
                && spec_page_holds_input(#[trigger] reads[k], input)
                && (forall|j: int| 0 <= j < k ==> !spec_page_holds_input(reads[j], input))
            implies search_walk(at, last, reads, input) == Some((at + k * HOST_PAGE_BYTES) as u64) by {
            if k > 0 {
                assert(!spec_page_holds_input(reads[0], input));
            }
        }
    }
}

/// Upper bound on the concurrency derived from available parallelism.
pub const MAX_CONCURRENCY: usize = 32;

/// The positive `usize` that decimal text `v` spells, if any.
pub open spec fn positive_usize(v: Seq<char>) -> Option<usize> {
    match spec_parse_u64(v) {
        Some(x) => if 0 < x <= usize::MAX {
            Some(x as usize)
        } else {
            None
        },
        None => None,
    }
}

/// A positive count stated in an environment variable's value.
fn stated_count(env_value: Option<&str>) -> (r: Option<usize>)
    ensures
        r == match env_value {
            Some(v) => positive_usize(v@),
            None => None,
        },
{
    match env_value {
        Some(v) => {
            let chars = chars_of(v);
            match parse_u64_chars(chars.as_slice()) {
                Some(x) => if 0 < x && x <= usize::MAX as u64 {
                    Some(x as usize)
                } else {
                    None
                },
                None => None,
            }
        },
        None => None,
    }
}

/// Executions that may run at once: what `ERE_SP1_EXECUTOR_CONCURRENCY`
/// states when it is a positive count, else the available parallelism
/// capped at `MAX_CONCURRENCY`.
pub fn execution_concurrency(env_value: Option<&str>, available_parallelism: Option<usize>) -> (n:
    usize)
    ensures
        n == match env_value {
            Some(v) => match positive_usize(v@) {
                Some(c) => c,
                None => vstd::math::min(
                    match available_parallelism {
                        Some(p) => p as int,
                        None => 1,
                    },
                    MAX_CONCURRENCY as int,
                ) as usize,
            },
            None => vstd::math::min(
                match available_parallelism {
                    Some(p) => p as int,
                    None => 1,
                },
                MAX_CONCURRENCY as int,
            ) as usize,
        },
{
    match stated_count(env_value) {
        Some(c) => c,
        None => {
            let p = match available_parallelism {
                Some(p) => p,
                None => 1,
            };
            if p < MAX_CONCURRENCY {
                p
            } else {
                MAX_CONCURRENCY
            }
        },
    }
}

/// Estimates that may run at once: what `ERE_SP1_ESTIMATOR_CONCURRENCY`
/// states when it is a positive count; else, since an estimate holds a trace
/// buffer of `per_run` bytes, as many as the free memory holds (at least
/// one), but no more than the execution concurrency.
pub fn estimator_concurrency(
    env_value: Option<&str>,
    per_run: u64,
    available_bytes: u64,
    execution: usize,
) -> (n: usize)
    requires
        per_run > 0,
    ensures
        n == match env_value {
            Some(v) => match positive_usize(v@) {
                Some(c) => c,
                None => vstd::math::min(
                    execution as int,
                    vstd::math::max((available_bytes / per_run) as int, 1) as usize as int,
                ) as usize,
            },
            None => vstd::math::min(
                execution as int,
                vstd::math::max((available_bytes / per_run) as int, 1) as usize as int,
            ) as usize,
        },
{
    match stated_count(env_value) {
        Some(c) => c,
        None => {
            let q = available_bytes / per_run;
            let fits = (if q > 1 { q } else { 1 }) as usize;
            if execution < fits {
                execution
            } else {
                fits
            }
        },
    }
}

/// The network prover's private key and RPC URL: the key from the config,
/// else from `NETWORK_PRIVATE_KEY`, else none, which fails; the URL from the
/// config's endpoint when it is not empty, else from `NETWORK_RPC_URL`, else
/// the SDK's default (`None`).
pub fn network_prover_settings(
    api_key: Option<String>,
    env_private_key: Option<String>,
    endpoint: String,
    env_rpc_url: Option<String>,
) -> (r: Result<(String, Option<String>), Error>)
    ensures
        api_key is None && env_private_key is None ==> (r matches Err(e) && e is MissingApiKey),
        api_key is Some || env_private_key is Some ==> (r matches Ok((key, url)) && key@ == match api_key {
            Some(k) => k@,
            None => env_private_key->0@,
        } && crate::encoding::opt_text(url) == if endpoint@.len() > 0 {
            Some(endpoint@)
        } else {
            crate::encoding::opt_text(env_rpc_url)
        }),
{
    let key = match api_key {
        Some(k) => k,
        None => match env_private_key {
            Some(k) => k,
            None => return Err(Error::MissingApiKey),
        },
    };
    let url = if endpoint.as_str().unicode_len() > 0 {
        Some(endpoint)
    } else {
        env_rpc_url
    };
    Ok((key, url))
}

} // verus!
