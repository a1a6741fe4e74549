//! ZisK: input framing, the emulator report's cost table, the heap range and
//! the decisions around an emulator run.

use vstd::prelude::*;

use crate::cost::{
    cost_view, elf_symbol, peak_heap_bytes, spec_peak_heap_bytes,
    symbol_address, CostEstimation,
};
use crate::text::{
    ascii_lower, chars_of, lower_equals, next_token, parse_u64_chars, spec_parse_u64, token_at,
};

verus! {

/// Errors of cost estimation from the emulator report.
#[derive(Debug)]
pub enum EstimateCostError {
    /// The report lacks these rows, comma separated.
    MissingRows(String),
    /// The components do not add up to the reported total.
    Mismatch { summed: u64, total: u64 },
}

/// Errors of an emulator run.
#[derive(Debug)]
pub enum Error {
    /// The emulation stopped before the program ended.
    EmulatorNotTerminated,
    /// The program ended in error.
    EmulatorError,
    /// The emulator panicked, with its message.
    EmulatorPanic(String),
    /// The cost table could not be read.
    EstimateCost(EstimateCostError),
    /// GPU proving was asked of a build without CUDA.
    CudaFeatureDisabled,
}

/// Index of the first line feed of `r`, or its length when it has none.
pub open spec fn line_end(r: Seq<char>) -> nat
    decreases r.len(),
{
    if r.len() == 0 || r[0] == '\n' {
        0
    } else {
        1 + line_end(r.drop_first())
    }
}

/// The row one report line holds: its first token, lowercased, and the
/// number its second token spells.
pub open spec fn line_entry(line: Seq<char>) -> Option<(Seq<char>, u64)> {
    match next_token(line) {
        Some((label, rest)) => match next_token(rest) {
            Some((value, _)) => match spec_parse_u64(value) {
                Some(v) => Some((ascii_lower(label), v)),
                None => None,
            },
            None => None,
        },
        None => None,
    }
}

/// The value of the first row of report `r` whose label is `label`.
pub open spec fn row_value(r: Seq<char>, label: Seq<char>) -> Option<u64>
    decreases r.len(),
{
    if r.len() == 0 {
        None
    } else {
        let e = line_end(r) as int;
        match line_entry(r.take(e)) {
            Some((l, v)) if l == label => Some(v),
            _ => if e < r.len() {
                row_value(r.skip(e + 1), label)
            } else {
                None
            },
        }
    }
}

proof fn lemma_line_end_step(r: Seq<char>, j: int)
    requires
        0 <= j < r.len(),
        r[j] != '\n',
    ensures
        line_end(r.skip(j)) == 1 + line_end(r.skip(j + 1)),
{
    assert(r.skip(j).drop_first() =~= r.skip(j + 1));
}

/// The row report line `chars[start..end]` holds: the bounds of its label and
/// its value.
fn line_row(chars: &Vec<char>, start: usize, end: usize) -> (r: Option<(usize, usize, u64)>)
    requires
        start <= end <= chars@.len(),
    ensures
        match line_entry(chars@.subrange(start as int, end as int)) {
            None => r is None,
            Some((label, v)) => r matches Some((ls, le, val)) && start <= ls <= le <= end
                && ascii_lower(chars@.subrange(ls as int, le as int)) == label && val == v,
        },
{
    let ghost line = chars@.subrange(start as int, end as int);
    match token_at(chars, start, end) {
        None => None,
        Some((ls, le)) => {
            let ghost rest = chars@.subrange(le as int, end as int);
            match token_at(chars, le, end) {
                None => None,
                Some((vs, ve)) => {
                    let digits = &chars.as_slice()[vs..ve];
                    assert(digits@ =~= chars@.subrange(vs as int, ve as int));
                    match parse_u64_chars(digits) {
                        Some(v) => Some((ls, le, v)),
                        None => None,
                    }
                },
            }
        },
    }
}

/// Value of each of `labels` in report `report`: that of the first line whose
/// first token, lowercased, is the label and whose second token is a number.
pub fn row_values(report: &str, labels: &Vec<Vec<char>>) -> (vals: Vec<Option<u64>>)
    ensures
        vals@.len() == labels@.len(),
        forall|k: int| 0 <= k < labels@.len() ==> #[trigger] vals@[k] == row_value(report@, labels@[k]@),
{
    let chars = chars_of(report);
    let n = chars.len();
    let mut vals: Vec<Option<u64>> = Vec::new();
    let mut k: usize = 0;
    while k < labels.len()
        invariant
            0 <= k <= labels.len(),
            vals@.len() == k,
            forall|t: int| 0 <= t < k ==> #[trigger] vals@[t] is None,
        decreases labels.len() - k,
    {
        vals.push(None);
        k = k + 1;
    }
    assert(chars@.skip(0) =~= chars@);
    let mut i: usize = 0;
    loop
        invariant
            0 <= i <= n,
            n == chars@.len(),
            chars@ == report@,
            vals@.len() == labels@.len(),
            forall|t: int|
                0 <= t < labels@.len() ==> (#[trigger] vals@[t] matches Some(v) ==> row_value(
                    report@,
                    labels@[t]@,
                ) == Some(v)),
            forall|t: int|
                0 <= t < labels@.len() ==> (#[trigger] vals@[t] is None ==> row_value(report@, labels@[t]@)
                    == row_value(report@.skip(i as int), labels@[t]@)),
        decreases n - i,
    {
        let ghost r = chars@.skip(i as int);
        if i == n {
            assert forall|t: int| 0 <= t < labels@.len() implies #[trigger] vals@[t] == row_value(
                report@,
                labels@[t]@,
            ) by {
                assert(r.len() == 0);
            }
            return vals;
        }
        let mut e = i;
        while e < n && chars[e] != '\n'
            invariant
                i <= e <= n,
                n == chars@.len(),
                r == chars@.skip(i as int),
                line_end(r) == (e - i) + line_end(chars@.skip(e as int)),
            decreases n - e,
        {
            proof {
                lemma_line_end_step(chars@, e as int);
            }
            e = e + 1;
        }
        proof {
            if e < n {
                assert(chars@.skip(e as int)[0] == '\n');
            }
            assert(line_end(chars@.skip(e as int)) == 0);
            assert(r.take(e - i) =~= chars@.subrange(i as int, e as int));
            if e < n {
                assert(r.skip(e - i + 1) =~= chars@.skip(e + 1));
            }
        }
        let ghost line = chars@.subrange(i as int, e as int);
        let row = line_row(&chars, i, e);
        let mut t: usize = 0;
        while t < labels.len()
            invariant
                0 <= t <= labels@.len(),
                0 <= i <= e <= n,
                n == chars@.len(),
                vals@.len() == labels@.len(),
                r == chars@.skip(i as int),
                r.len() > 0,
                line_end(r) == e - i,
                r.take(e - i) == line,
                e < n ==> r.skip(e - i + 1) == chars@.skip(e + 1),
                line == chars@.subrange(i as int, e as int),
                match line_entry(line) {
                    None => row is None,
                    Some((label, v)) => row matches Some((ls, le, val)) && i <= ls <= le <= e
                        && ascii_lower(chars@.subrange(ls as int, le as int)) == label && val == v,
                },
                forall|u: int|
                    0 <= u < labels@.len() ==> (#[trigger] vals@[u] matches Some(v) ==> row_value(
                        report@,
                        labels@[u]@,
                    ) == Some(v)),
                forall|u: int|
                    t <= u < labels@.len() ==> (#[trigger] vals@[u] is None ==> row_value(
                        report@,
                        labels@[u]@,
                    ) == row_value(r, labels@[u]@)),
                forall|u: int|
                    0 <= u < t ==> (#[trigger] vals@[u] is None ==> row_value(report@, labels@[u]@)
                        == row_value(r, labels@[u]@) && !(line_entry(line) matches Some((l, _)) && l
                        == labels@[u]@)),
            decreases labels.len() - t,
        {
            if vals[t].is_none() {
                match row {
                    Some((ls, le, v)) => {
                        if lower_equals(&chars, ls, le, &labels[t]) {
                            vals.set(t, Some(v));
                        }
                    },
                    None => {},
                }
            }
            t = t + 1;
        }
        if e == n {
            assert forall|t: int| 0 <= t < labels@.len() implies #[trigger] vals@[t] == row_value(
                report@,
                labels@[t]@,
            ) by {
                if vals@[t] is None {
                    assert(line_end(r) == e - i);
                }
            }
            return vals;
        }
        i = e + 1;
    }
}

/// Labels of the emulator report's summary rows that the cost table reads:
/// the five components, then the total.
pub open spec fn report_labels() -> Seq<Seq<char>> {
    seq!["base"@, "precompiles"@, "memory"@, "opcodes"@, "main"@, "total"@]
}

/// The labels among `labels` whose value is missing, in order.
pub open spec fn missing_labels(vals: Seq<Option<u64>>, labels: Seq<Seq<char>>) -> Seq<Seq<char>>
    decreases labels.len(),
{
    if labels.len() == 0 {
        Seq::empty()
    } else {
        let rest = missing_labels(vals, labels.drop_last());
        if vals[labels.len() - 1] is None {
            rest.push(labels.last())
        } else {
            rest
        }
    }
}

/// Where no label is missing, every value is there.
proof fn lemma_none_missing(vals: Seq<Option<u64>>, labels: Seq<Seq<char>>)
    requires
        missing_labels(vals, labels).len() == 0,
    ensures
        forall|k: int| 0 <= k < labels.len() ==> (#[trigger] vals[k]) is Some,
    decreases labels.len(),
{
    if labels.len() > 0 {
        lemma_none_missing(vals, labels.drop_last());
    }
}

/// `parts` joined with `", "`.
pub open spec fn join_comma(parts: Seq<Seq<char>>) -> Seq<char>
    decreases parts.len(),
{
    if parts.len() == 0 {
        Seq::empty()
    } else if parts.len() == 1 {
        parts[0]
    } else {
        join_comma(parts.drop_last()) + ", "@ + parts.last()
    }
}

/// The report's value of summary row `k`.
pub open spec fn report_row(report: Seq<char>, k: int) -> Option<u64> {
    row_value(report, report_labels()[k])
}

/// The summary rows the report lacks.
pub open spec fn report_missing(report: Seq<char>) -> Seq<Seq<char>> {
    missing_labels(Seq::new(6, |k: int| report_row(report, k)), report_labels())
}

/// Sum of the report's five components.
pub open spec fn component_sum(report: Seq<char>) -> int {
    report_row(report, 0)->0 + report_row(report, 1)->0 + report_row(report, 2)->0 + report_row(
        report,
        3,
    )->0 + report_row(report, 4)->0
}

/// The cost table a complete report gives, ascending by component name.
pub open spec fn report_cost(report: Seq<char>) -> Seq<(Seq<char>, u64)> {
    seq![
        ("base"@, report_row(report, 0)->0),
        ("main"@, report_row(report, 4)->0),
        ("memory"@, report_row(report, 2)->0),
        ("opcode"@, report_row(report, 3)->0),
        ("precompile"@, report_row(report, 1)->0),
    ]
}

/// When the report holds every summary row, its components fit in a `u64`
/// together.
pub open spec fn components_fit(report: Seq<char>) -> bool {
    report_missing(report).len() == 0 ==> component_sum(report) <= u64::MAX
}

/// Cost table of the emulator's statistics report. The components are the
/// summary rows `base`, `precompiles`, `memory`, `opcodes` and `main`, and
/// ZisK sums them into `total`.
pub fn parse(report: &str) -> (r: Result<Vec<(String, u64)>, EstimateCostError>)
    requires
        components_fit(report@),
    ensures
        report_missing(report@).len() > 0 ==> (r matches Err(EstimateCostError::MissingRows(m))
            && m@ == join_comma(report_missing(report@))),
        report_missing(report@).len() == 0 && component_sum(report@) != report_row(report@, 5)->0
            ==> (r matches Err(EstimateCostError::Mismatch { summed, total }) && summed
            == component_sum(report@) && total == report_row(report@, 5)->0),
        report_missing(report@).len() == 0 && component_sum(report@) == report_row(report@, 5)->0
            ==> (r matches Ok(cost) && cost_view(cost@) == report_cost(report@)),
{
    let names: Vec<&'static str> = vec!["base", "precompiles", "memory", "opcodes", "main", "total"];
    let mut labels: Vec<Vec<char>> = Vec::new();
    let mut k: usize = 0;
    while k < names.len()
        invariant
            0 <= k <= names.len(),
            names@.len() == 6,
            forall|t: int| 0 <= t < 6 ==> (#[trigger] names@[t])@ == report_labels()[t],
            labels@.len() == k,
            forall|t: int| 0 <= t < k ==> (#[trigger] labels@[t])@ == report_labels()[t],
        decreases names.len() - k,
    {
        labels.push(chars_of(names[k]));
        k = k + 1;
    }
    let vals = row_values(report, &labels);
    let ghost gv = Seq::new(6, |t: int| report_row(report@, t));
    assert(vals@ =~= gv);
    let mut missing = String::from_str("");
    let mut any = false;
    let mut t: usize = 0;
    proof {
        reveal_strlit("");
        reveal_strlit(", ");
    }
    while t < 6
        invariant
            0 <= t <= 6,
            names@.len() == 6,
            forall|u: int| 0 <= u < 6 ==> (#[trigger] names@[u])@ == report_labels()[u],
            vals@ == gv,
            vals@.len() == 6,
            missing@ == join_comma(missing_labels(gv, report_labels().take(t as int))),
            any == (missing_labels(gv, report_labels().take(t as int)).len() > 0),
        decreases 6 - t,
    {
        let ghost before = missing_labels(gv, report_labels().take(t as int));
        assert(report_labels().take(t + 1).drop_last() =~= report_labels().take(t as int));
        assert(report_labels().take(t + 1).last() == report_labels()[t as int]);
        if vals[t].is_none() {
            assert(missing_labels(gv, report_labels().take(t + 1)) == before.push(report_labels()[t as int]));
            assert(before.push(report_labels()[t as int]).drop_last() =~= before);
            if any {
                missing = missing.concat(", ");
            }
            missing = missing.concat(names[t]);
            any = true;
        }
        t = t + 1;
    }
    assert(report_labels().take(6) =~= report_labels());
    if any {
        return Err(EstimateCostError::MissingRows(missing));
    }
    proof {
        lemma_none_missing(gv, report_labels());
    }
    let base = vals[0].unwrap();
    let precompiles = vals[1].unwrap();
    let memory = vals[2].unwrap();
    let opcodes = vals[3].unwrap();
    let main = vals[4].unwrap();
    let total = vals[5].unwrap();
    let summed = base + precompiles + memory + opcodes + main;
    if summed != total {
        return Err(EstimateCostError::Mismatch { summed, total });
    }
    let cost = vec![
        (String::from_str("base"), base),
        (String::from_str("main"), main),
        (String::from_str("memory"), memory),
        (String::from_str("opcode"), opcodes),
        (String::from_str("precompile"), precompiles),
    ];
    assert(cost_view(cost@) =~= report_cost(report@));
    Ok(cost)
}

/// `n` rounded up to a multiple of 8.
pub open spec fn round_up_8(n: int) -> int {
    if n % 8 == 0 {
        n
    } else {
        n + 8 - n % 8
    }
}

/// The framed form of `data`: its length as a little-endian `u64`, the data,
/// then zeros up to a multiple of 8 bytes.
pub open spec fn spec_framed_stdin(data: Seq<u8>) -> Seq<u8> {
    vstd::bytes::spec_u64_to_le_bytes(data.len() as u64) + data + Seq::new(
        (round_up_8(8 + data.len() as int) - 8 - data.len()) as nat,
        |i: int| 0u8,
    )
}

/// The emulator reads the input back from its framing: the first 8 bytes
/// give its length, the input follows, and only zeros pad it.
pub proof fn lemma_framed_stdin_decodes(data: Seq<u8>)
    requires
        data.len() <= u64::MAX,
    ensures
        ({
            let buf = spec_framed_stdin(data);
            &&& vstd::bytes::spec_u64_from_le_bytes(buf.subrange(0, 8)) == data.len()
            &&& buf.subrange(8, 8 + data.len() as int) == data
            &&& forall|i: int| 8 + data.len() <= i < buf.len() ==> buf[i] == 0
            &&& buf.len() % 8 == 0
        }),
{
    vstd::bytes::lemma_auto_spec_u64_to_from_le_bytes();
    let buf = spec_framed_stdin(data);
    let n = data.len() as int;
    assert(buf.subrange(0, 8) =~= vstd::bytes::spec_u64_to_le_bytes(n as u64));
    assert(buf.subrange(8, 8 + n) =~= data);
}

/// Returns `data` with a little-endian `u64` length prefix and zero padding
/// to a multiple of 8 bytes, the framing the ZisK emulator and prover
/// runtime expect.
pub fn framed_stdin(data: &[u8]) -> (buf: Vec<u8>)
    requires
        data@.len() + 15 <= usize::MAX,
    ensures
        buf@ == spec_framed_stdin(data@),
        buf@.len() == round_up_8(8 + data@.len() as int),
        buf@.len() % 8 == 0,
{
    let total = 8 + data.len();
    let len = if total % 8 == 0 { total } else { total + 8 - total % 8 };
    let mut buf = vstd::bytes::u64_to_le_bytes(data.len() as u64);
    proof {
        vstd::bytes::lemma_auto_spec_u64_to_from_le_bytes();
    }
    let mut i: usize = 0;
    while i < data.len()
        invariant
            0 <= i <= data@.len(),
            buf@ == vstd::bytes::spec_u64_to_le_bytes(data@.len() as u64) + data@.take(i as int),
            buf@.len() == 8 + i,
        decreases data.len() - i,
    {
        buf.push(data[i]);
        i = i + 1;
        assert(buf@ =~= vstd::bytes::spec_u64_to_le_bytes(data@.len() as u64) + data@.take(i as int));
    }
    let ghost head = buf@;
    while buf.len() < len
        invariant
            total == 8 + data@.len(),
            len == round_up_8(total as int),
            total <= buf@.len() <= len,
            head.len() == total,
            buf@.subrange(0, total as int) == head,
            forall|j: int| total <= j < buf@.len() ==> buf@[j] == 0u8,
        decreases len - buf.len(),
    {
        buf.push(0u8);
    }
    assert(data@.take(data@.len() as int) =~= data@);
    assert(buf@ =~= spec_framed_stdin(data@));
    buf
}

/// The heap between the two heap symbols, when both exist, the bottom lies
/// below the top and the range fits emulator RAM.
pub fn heap_range(start: Option<u64>, end: Option<u64>, ram_addr: u64, ram_size: u64) -> (r: Option<
    (u64, u64),
>)
    requires
        ram_addr + ram_size <= u64::MAX,
    ensures
        r == match (start, end) {
            (Some(s), Some(e)) => if s < e && s >= ram_addr && e <= ram_addr + ram_size {
                Some((s, e))
            } else {
                None
            },
            _ => None,
        },
{
    match (start, end) {
        (Some(s), Some(e)) => if s < e && s >= ram_addr && e <= ram_addr + ram_size {
            Some((s, e))
        } else {
            None
        },
        _ => None,
    }
}

/// Heap symbol used when `ERE_COST_ESTIMATION_HEAP_START` names none.
pub const DEFAULT_HEAP_START: &'static str = "_heap_bottom";

/// Heap symbol used when `ERE_COST_ESTIMATION_HEAP_END` names none.
pub const DEFAULT_HEAP_END: &'static str = "_heap_top";

/// The name configured, or else the default.
fn name_or(configured: Option<String>, default: &'static str) -> (n: String)
    ensures
        n@ == match configured {
            Some(c) => c@,
            None => default@,
        },
{
    match configured {
        Some(c) => c,
        None => String::from_str(default),
    }
}

/// The heap of `elf` between the symbol named by `start_symbol` (by default
/// `_heap_bottom`) and the one named by `end_symbol` (by default
/// `_heap_top`), when both exist and the range fits the emulator's RAM of
/// `ram_size` bytes at `ram_addr`.
pub fn heap_range_of_elf(
    elf: &[u8],
    start_symbol: Option<String>,
    end_symbol: Option<String>,
    ram_addr: u64,
    ram_size: u64,
) -> (r: Option<(u64, u64)>)
    requires
        ram_addr + ram_size <= u64::MAX,
    ensures
        ({
            let start = match start_symbol {
                Some(c) => c@,
                None => DEFAULT_HEAP_START@,
            };
            let end = match end_symbol {
                Some(c) => c@,
                None => DEFAULT_HEAP_END@,
            };
            r == match (elf_symbol(elf@, start), elf_symbol(elf@, end)) {
                (Some(s), Some(e)) => if s < e && s >= ram_addr && e <= ram_addr + ram_size {
                    Some((s, e))
                } else {
                    None
                },
                _ => None,
            }
        }),
{
    let start = name_or(start_symbol, DEFAULT_HEAP_START);
    let end = name_or(end_symbol, DEFAULT_HEAP_END);
    let s = symbol_address(elf, start.as_str());
    if s.is_none() {
        return None;
    }
    let e = symbol_address(elf, end.as_str());
    heap_range(s, e, ram_addr, ram_size)
}

/// Default ZisK cluster prove timeout, in seconds.
pub const DEFAULT_ZISK_CLUSTER_PROVE_TIMEOUT_SECS: u64 = 600;

/// Cluster prove timeout in seconds: the value of
/// `ERE_ZISK_CLUSTER_PROVE_TIMEOUT_SECS` when it is a `u64`, else the default.
pub fn cluster_prove_timeout_secs(env_value: Option<&str>) -> (secs: u64)
    ensures
        secs == match env_value {
            Some(v) => match spec_parse_u64(v@) {
                Some(x) => x,
                None => DEFAULT_ZISK_CLUSTER_PROVE_TIMEOUT_SECS,
            },
            None => DEFAULT_ZISK_CLUSTER_PROVE_TIMEOUT_SECS,
        },
{
    match env_value {
        Some(v) => {
            let chars = chars_of(v);
            match parse_u64_chars(chars.as_slice()) {
                Some(x) => x,
                None => DEFAULT_ZISK_CLUSTER_PROVE_TIMEOUT_SECS,
            }
        },
        None => DEFAULT_ZISK_CLUSTER_PROVE_TIMEOUT_SECS,
    }
}

/// Output of an emulator run: the public values, unless the emulation did not
/// end or ended in error.
pub fn execution_outcome(terminated: bool, failed: bool, output: Vec<u8>) -> (r: Result<
    Vec<u8>,
    Error,
>)
    ensures
        !terminated ==> r matches Err(Error::EmulatorNotTerminated),
        terminated && failed ==> r matches Err(Error::EmulatorError),
        terminated && !failed ==> (r matches Ok(o) && o@ == output@),
{
    if !terminated {
        return Err(Error::EmulatorNotTerminated);
    }
    if failed {
        return Err(Error::EmulatorError);
    }
    Ok(output)
}

/// Public values and cost estimate of an emulator run made with statistics:
/// the cost table from `report`, and the peak heap from the heap image when
/// the heap could be read.
pub fn estimation_outcome(
    terminated: bool,
    failed: bool,
    report: &str,
    heap: Option<&[u8]>,
    output: Vec<u8>,
) -> (r: Result<(Vec<u8>, CostEstimation), Error>)
    requires
        terminated && !failed ==> components_fit(report@),
    ensures
        !terminated ==> r matches Err(Error::EmulatorNotTerminated),
        terminated && failed ==> r matches Err(Error::EmulatorError),
        terminated && !failed && report_missing(report@).len() > 0 ==> (r matches Err(
            Error::EstimateCost(EstimateCostError::MissingRows(m)),
        ) && m@ == join_comma(report_missing(report@))),
        terminated && !failed && report_missing(report@).len() == 0 && component_sum(report@)
            != report_row(report@, 5)->0 ==> (r matches Err(
            Error::EstimateCost(EstimateCostError::Mismatch { summed, total }),
        ) && summed == component_sum(report@) && total == report_row(report@, 5)->0),
        terminated && !failed && report_missing(report@).len() == 0 && component_sum(report@)
            == report_row(report@, 5)->0 ==> (r matches Ok((o, est)) && o@ == output@ && cost_view(
            est.cost@,
        ) == report_cost(report@) && est.peak_heap_bytes == match heap {
            Some(h) => spec_peak_heap_bytes(h@),
            None => None,
        }),
{
    if !terminated {
        return Err(Error::EmulatorNotTerminated);
    }
    if failed {
        return Err(Error::EmulatorError);
    }
    let cost = match parse(report) {
        Ok(c) => c,
        Err(e) => return Err(Error::EstimateCost(e)),
    };
    let peak = match heap {
        Some(h) => peak_heap_bytes(h),
        None => None,
    };
    Ok((output, CostEstimation { cost, peak_heap_bytes: peak }))
}

/// GPU proving needs a build with CUDA.
pub fn check_gpu_support(cuda_enabled: bool, gpu: bool) -> (r: Result<(), Error>)
    ensures
        r is Err <==> (gpu && !cuda_enabled),
        r matches Err(e) ==> e is CudaFeatureDisabled,
{
    if !cuda_enabled && gpu {
        Err(Error::CudaFeatureDisabled)
    } else {
        Ok(())
    }
}

/// The message of a panic whose payload is a `String` (`owned`) or a string
/// literal (`literal`), or a fixed text for any other payload.
pub fn panic_msg(owned: Option<String>, literal: Option<&str>) -> (m: String)
    ensures
        owned matches Some(o) ==> m@ == o@,
        owned is None ==> (literal matches Some(l) ==> m@ == l@),
        owned is None && literal is None ==> m@ == "unknown panic msg"@,
{
    match owned {
        Some(o) => o,
        None => match literal {
            Some(l) => String::from_str(l),
            None => String::from_str("unknown panic msg"),
        },
    }
}

} // verus!
