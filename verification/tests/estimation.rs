use ere::cost::{find_symbol, peak_heap_bytes, symbol_address, ElfSymbol};
use ere::openvm::{component_costs, heap_range_below, trace_rows, Component};
use ere::sp1::{
    charge, check_exit_code, execution_concurrency, estimator_concurrency, filled_words,
    finish_estimate, guest_bytes_from_records, input_scan_last, jit_peak_heap_bytes, network_prover_settings,
    input_search_step, next_page, page_holds_input, portable_peak_heap_bytes, weights, Charges,
    EstimateCostError as Sp1CostError, Error as Sp1Error, SearchStep,
};
use ere::zisk::{
    check_gpu_support, cluster_prove_timeout_secs, estimation_outcome, execution_outcome, framed_stdin,
    heap_range, heap_range_of_elf, panic_msg, parse, Error as ZiskError, EstimateCostError,
};

/// A little-endian ELF64 image whose `.symtab` holds, after the null entry,
/// one symbol per `(name, defined, value)`.
fn elf_with_symbols(symbols: &[(&str, bool, u64)]) -> Vec<u8> {
    let mut strtab = vec![0u8];
    let mut name_offsets = Vec::new();
    for (name, _, _) in symbols {
        name_offsets.push(strtab.len() as u32);
        strtab.extend_from_slice(name.as_bytes());
        strtab.push(0);
    }
    let mut symtab = vec![0u8; 24];
    for ((_, defined, value), off) in symbols.iter().zip(&name_offsets) {
        symtab.extend_from_slice(&off.to_le_bytes());
        symtab.push(0x10);
        symtab.push(0);
        symtab.extend_from_slice(&(if *defined { 1u16 } else { 0u16 }).to_le_bytes());
        symtab.extend_from_slice(&value.to_le_bytes());
        symtab.extend_from_slice(&0u64.to_le_bytes());
    }
    let strtab_off = 64u64;
    let symtab_off = (strtab_off + strtab.len() as u64 + 7) / 8 * 8;
    let shoff = symtab_off + symtab.len() as u64;

    let mut elf = vec![0x7f, b'E', b'L', b'F', 2, 1, 1, 0];
    elf.extend_from_slice(&[0; 8]);
    elf.extend_from_slice(&2u16.to_le_bytes());
    elf.extend_from_slice(&0xf3u16.to_le_bytes());
    elf.extend_from_slice(&1u32.to_le_bytes());
    elf.extend_from_slice(&0u64.to_le_bytes());
    elf.extend_from_slice(&0u64.to_le_bytes());
    elf.extend_from_slice(&shoff.to_le_bytes());
    elf.extend_from_slice(&0u32.to_le_bytes());
    elf.extend_from_slice(&64u16.to_le_bytes());
    elf.extend_from_slice(&56u16.to_le_bytes());
    elf.extend_from_slice(&0u16.to_le_bytes());
    elf.extend_from_slice(&64u16.to_le_bytes());
    elf.extend_from_slice(&3u16.to_le_bytes());
    elf.extend_from_slice(&0u16.to_le_bytes());
    assert_eq!(elf.len(), 64);
    elf.extend_from_slice(&strtab);
    elf.resize(symtab_off as usize, 0);
    elf.extend_from_slice(&symtab);

    let section = |kind: u32, offset: u64, size: u64, link: u32, entsize: u64| {
        let mut s = Vec::new();
        s.extend_from_slice(&0u32.to_le_bytes());
        s.extend_from_slice(&kind.to_le_bytes());
        s.extend_from_slice(&0u64.to_le_bytes());
        s.extend_from_slice(&0u64.to_le_bytes());
        s.extend_from_slice(&offset.to_le_bytes());
        s.extend_from_slice(&size.to_le_bytes());
        s.extend_from_slice(&link.to_le_bytes());
        s.extend_from_slice(&0u32.to_le_bytes());
        s.extend_from_slice(&1u64.to_le_bytes());
        s.extend_from_slice(&entsize.to_le_bytes());
        s
    };
    elf.extend_from_slice(&[0u8; 64]);
    elf.extend_from_slice(&section(3, strtab_off, strtab.len() as u64, 0, 0));
    elf.extend_from_slice(&section(2, symtab_off, symtab.len() as u64, 1, 24));
    elf
}

#[test]
fn peak_heap_spans_nonzero_bytes() {
    assert_eq!(peak_heap_bytes(&[]), None);
    assert_eq!(peak_heap_bytes(&[0, 0, 0]), None);
    assert_eq!(peak_heap_bytes(&[0, 1, 0, 0, 2, 0]), Some(4));
    assert_eq!(peak_heap_bytes(&[9]), Some(1));
}

#[test]
fn symbol_lookup_takes_first_defined() {
    let symbols = vec![
        ElfSymbol { undefined: true, name: Some("_end".to_string()), address: 1 },
        ElfSymbol { undefined: false, name: None, address: 2 },
        ElfSymbol { undefined: false, name: Some("_end".to_string()), address: 3 },
        ElfSymbol { undefined: false, name: Some("_end".to_string()), address: 4 },
    ];
    assert_eq!(find_symbol(&symbols, "_end"), Some(3));
    assert_eq!(find_symbol(&symbols, "_start"), None);
}

#[test]
fn symbol_address_reads_the_elf_symbol_table() {
    let elf = elf_with_symbols(&[
        ("_end", false, 5),
        ("_heap_bottom", true, 0xa001_0000),
        ("_heap_top", true, 0xa002_0000),
        ("_end", true, 0x1000),
    ]);
    assert_eq!(symbol_address(&elf, "_heap_bottom"), Some(0xa001_0000));
    assert_eq!(symbol_address(&elf, "_heap_top"), Some(0xa002_0000));
    assert_eq!(symbol_address(&elf, "_end"), Some(0x1000));
    assert_eq!(symbol_address(&elf, "_start"), None);
    assert_eq!(symbol_address(b"not an elf", "_end"), None);
}

#[test]
fn zisk_heap_range_from_elf() {
    let elf = elf_with_symbols(&[
        ("_heap_bottom", true, 0xa001_0000),
        ("_heap_top", true, 0xa002_0000),
        ("my_start", true, 0xa000_0000),
    ]);
    let ram = (0xa000_0000u64, 0x2000_0000u64);
    assert_eq!(heap_range_of_elf(&elf, None, None, ram.0, ram.1), Some((0xa001_0000, 0xa002_0000)));
    assert_eq!(
        heap_range_of_elf(&elf, Some("my_start".to_string()), None, ram.0, ram.1),
        Some((0xa000_0000, 0xa002_0000))
    );
    assert_eq!(heap_range_of_elf(&elf, Some("missing".to_string()), None, ram.0, ram.1), None);
    assert_eq!(heap_range_of_elf(&elf, None, None, 0xa001_8000, 0x1000), None);
    assert_eq!(heap_range(Some(10), Some(20), 0, 100), Some((10, 20)));
    assert_eq!(heap_range(Some(20), Some(10), 0, 100), None);
    assert_eq!(heap_range(Some(10), Some(200), 0, 100), None);
    assert_eq!(heap_range(None, Some(20), 0, 100), None);
}

#[test]
fn openvm_heap_range_from_elf() {
    let elf = elf_with_symbols(&[("_end", true, 0x4000)]);
    assert_eq!(ere::openvm::heap_range_of_elf(&elf, None, 0x10000), Some((0x4000, 0x10000)));
    assert_eq!(ere::openvm::heap_range_of_elf(&elf, None, 0x4000), None);
    assert_eq!(ere::openvm::heap_range_of_elf(&elf, Some("_stack".to_string()), 0x10000), None);
    assert_eq!(heap_range_below(Some(3), 10), Some((3, 10)));
    assert_eq!(heap_range_below(Some(10), 10), None);
    assert_eq!(heap_range_below(None, 10), None);
}

const REPORT: &str = "Statistics:\n  BASE        10 steps\n  PRECOMPILES 20\n  MEMORY      30\n  OPCODES     40\n  MAIN        50\n  TOTAL       150\n\nDetails:\n  base 99\n";

#[test]
fn zisk_report_parses_into_cost_table() {
    let cost = parse(REPORT).unwrap();
    let expected: Vec<(String, u64)> = vec![
        ("base".to_string(), 10),
        ("main".to_string(), 50),
        ("memory".to_string(), 30),
        ("opcode".to_string(), 40),
        ("precompile".to_string(), 20),
    ];
    assert_eq!(cost, expected);
    let summed: u64 = cost.iter().map(|(_, v)| *v).sum();
    assert_eq!(summed, 150);
}

#[test]
fn zisk_report_errors() {
    let missing = "BASE 1\nPRECOMPILES 2\nOPCODES 3\nMAIN 4\n";
    assert!(matches!(
        parse(missing),
        Err(EstimateCostError::MissingRows(ref m)) if m == "memory, total"
    ));
    let mismatch = "base 1\nprecompiles 2\nmemory 3\nopcodes 4\nmain 5\ntotal 16\n";
    assert!(matches!(
        parse(mismatch),
        Err(EstimateCostError::Mismatch { summed: 15, total: 16 })
    ));
    let not_a_number = "base x\nprecompiles 2\nmemory 3\nopcodes 4\nmain 5\ntotal 14\n";
    assert!(matches!(
        parse(not_a_number),
        Err(EstimateCostError::MissingRows(ref m)) if m == "base"
    ));
}

#[test]
fn zisk_stdin_framing() {
    assert_eq!(framed_stdin(&[]), vec![0; 8]);
    assert_eq!(
        framed_stdin(&[1, 2, 3]),
        vec![3, 0, 0, 0, 0, 0, 0, 0, 1, 2, 3, 0, 0, 0, 0, 0]
    );
    let eight = framed_stdin(&[7; 8]);
    assert_eq!(eight.len(), 16);
    assert_eq!(&eight[..8], &[8, 0, 0, 0, 0, 0, 0, 0]);
    for n in 0..40usize {
        let framed = framed_stdin(&vec![1u8; n]);
        assert_eq!(framed.len() % 8, 0);
        assert!(framed.len() >= 8 + n && framed.len() < 16 + n);
    }
}

#[test]
fn zisk_run_outcomes() {
    assert!(matches!(execution_outcome(false, false, vec![]), Err(ZiskError::EmulatorNotTerminated)));
    assert!(matches!(execution_outcome(true, true, vec![]), Err(ZiskError::EmulatorError)));
    assert_eq!(execution_outcome(true, false, vec![1, 2]).unwrap(), vec![1, 2]);

    let (pv, est) = estimation_outcome(true, false, REPORT, Some(&[0, 5, 0, 7, 0]), vec![9]).unwrap();
    assert_eq!(pv, vec![9]);
    assert_eq!(est.cost.len(), 5);
    assert_eq!(est.peak_heap_bytes, Some(3));
    let (_, est) = estimation_outcome(true, false, REPORT, None, vec![]).unwrap();
    assert_eq!(est.peak_heap_bytes, None);
    assert!(matches!(
        estimation_outcome(true, false, "base 1\n", None, vec![]),
        Err(ZiskError::EstimateCost(EstimateCostError::MissingRows(_)))
    ));
    assert!(matches!(
        estimation_outcome(false, false, REPORT, None, vec![]),
        Err(ZiskError::EmulatorNotTerminated)
    ));

    assert!(check_gpu_support(true, true).is_ok());
    assert!(check_gpu_support(false, false).is_ok());
    assert!(matches!(check_gpu_support(false, true), Err(ZiskError::CudaFeatureDisabled)));
}

#[test]
fn zisk_cluster_timeout() {
    assert_eq!(cluster_prove_timeout_secs(None), 600);
    assert_eq!(cluster_prove_timeout_secs(Some("42")), 42);
    assert_eq!(cluster_prove_timeout_secs(Some("+7")), 7);
    assert_eq!(cluster_prove_timeout_secs(Some("-1")), 600);
    assert_eq!(cluster_prove_timeout_secs(Some(" 42")), 600);
    assert_eq!(cluster_prove_timeout_secs(Some("18446744073709551616")), 600);
}

#[test]
fn openvm_component_classes() {
    assert_eq!(Component::classify("VmConnectorAir").as_str(), "system");
    assert_eq!(Component::classify("MemoryMerkleAir<8>").as_str(), "system");
    assert_eq!(Component::classify("KeccakfVmAir").as_str(), "precompile");
    assert_eq!(Component::classify("VmAirWrapper<Rv64VecHeapAdapterAir, Sha2Core>").as_str(), "precompile");
    assert_eq!(Component::classify("VmAirWrapper<Rv64BaseAluAdapterAir, BaseAluCoreAir>").as_str(), "rv64");
    assert!(Component::classify("ProgramAir") == Component::System);
}

#[test]
fn openvm_costs_sum_cells() {
    let segments = vec![vec![1, 2, 3], vec![4, 5]];
    let rows = trace_rows(&segments, 3);
    assert_eq!(rows, vec![5, 7, 3]);
    let components = vec![Component::Rv64, Component::System, Component::Rv64];
    let widths = vec![10, 100, 1];
    let cost = component_costs(&components, &rows, &widths);
    assert_eq!(cost, vec![("rv64".to_string(), 53), ("system".to_string(), 700)]);
    let total: u64 = cost.iter().map(|(_, v)| *v).sum();
    assert_eq!(total, 5 * 10 + 7 * 100 + 3 * 1);
    let cost = component_costs(&vec![Component::Precompile], &vec![2], &vec![3]);
    assert_eq!(cost, vec![("precompile".to_string(), 6)]);
}

#[test]
fn sp1_charges_and_estimate() {
    let w = weights(&vec![(0, 5, Some(2)), (2, 1, None), (0, 7, None)]);
    assert_eq!(w, vec![7, 0, 1]);
    let mut ch = Charges::default();
    charge(&mut ch, 10, 100, &vec![(2, 4)], &vec![(0, 1)], 0, &w);
    assert_eq!(ch.cost, 310);
    assert_eq!(ch.syscall, 4);
    assert_eq!(ch.system, 7);
    assert_eq!(ch.exit_code, 0);
    let (pv, est) = finish_estimate(ch, vec![1], Some(64)).unwrap();
    assert_eq!(pv, vec![1]);
    assert_eq!(
        est.cost,
        vec![("opcode".to_string(), 299), ("syscall".to_string(), 4), ("system".to_string(), 7)]
    );
    assert_eq!(est.peak_heap_bytes, Some(64));
    let total: u64 = est.cost.iter().map(|(_, v)| *v).sum();
    assert_eq!(total, ch.cost);

    let failed = Charges { cost: 10, syscall: 0, system: 0, exit_code: 3 };
    assert!(matches!(finish_estimate(failed, vec![], None), Err(Sp1Error::ExecutionFailed(3))));
    let over = Charges { cost: 1, syscall: 1, system: 1, exit_code: 0 };
    assert!(matches!(
        finish_estimate(over, vec![], None),
        Err(Sp1Error::EstimateCost(Sp1CostError::Mismatch(1)))
    ));
    assert!(check_exit_code(0).is_ok());
    assert!(matches!(check_exit_code(1), Err(Sp1Error::ExecutionFailed(1))));
}

#[test]
fn sp1_heap_measures() {
    assert_eq!(jit_peak_heap_bytes(&vec![], false), None);
    assert_eq!(jit_peak_heap_bytes(&vec![(0, 16), (32, 64)], false), Some(32));
    assert_eq!(jit_peak_heap_bytes(&vec![(0, 16), (32, 64)], true), Some(8));
    assert_eq!(jit_peak_heap_bytes(&vec![(0, 16)], true), None);

    let memory = vec![(0x10, 1), (0x100, 0), (0x108, 5), (0x200, 7)];
    assert_eq!(filled_words(&memory, 0x100), vec![0x108, 0x200]);
    assert_eq!(portable_peak_heap_bytes(&vec![], 0), None);
    assert_eq!(portable_peak_heap_bytes(&vec![0x108, 0x200], 0), Some(8));
    assert_eq!(portable_peak_heap_bytes(&vec![0x100, 0x108, 0x110, 0x200], 1), Some(24));
    assert_eq!(portable_peak_heap_bytes(&vec![0x200], 1), None);
}

#[test]
fn sp1_input_search() {
    assert_eq!(input_scan_last(0, 4096, 0), None);
    assert_eq!(input_scan_last(0, 4096, 1), Some(4096 - 16));
    assert_eq!(input_scan_last(0, 4096, 9), Some(4096 - 32));
    assert_eq!(input_scan_last(4096, 4100, 8), None);
    assert_eq!(next_page(0, 8192), Some(4096));
    assert_eq!(next_page(4096, 8191), None);
    assert_eq!(next_page(u64::MAX - 1, u64::MAX), None);

    let mut records = vec![0u8; 128];
    for i in 0..64usize {
        records[16 * (i / 8) + 8 + i % 8] = i as u8;
    }
    let bytes = guest_bytes_from_records(&records);
    assert_eq!(bytes, (0u8..64).collect::<Vec<u8>>());
    assert!(page_holds_input(&bytes, &[0, 1, 2]));
    assert!(!page_holds_input(&bytes, &[1, 1, 2]));
    assert!(page_holds_input(&bytes, &[]));
    let long: Vec<u8> = (0u8..100).collect();
    assert!(page_holds_input(&bytes, &long));
}

#[test]
fn sp1_search_stops_at_least_matching_page() {
    let input: Vec<u8> = vec![7, 7, 7];
    let empty = vec![0u8; 64];
    let mut holding = vec![0u8; 64];
    holding[..3].copy_from_slice(&input);
    // Pages 0 and 1 miss, page 2 holds the input, page 3 would too.
    let pages = [&empty, &empty, &holding, &holding];
    let last = 3 * 4096;
    let mut at = 0u64;
    let mut visited = Vec::new();
    let found = loop {
        visited.push(at);
        match input_search_step(at, last, pages[(at / 4096) as usize], &input) {
            SearchStep::Found(p) => break Some(p),
            SearchStep::Next(n) => at = n,
            SearchStep::NotFound => break None,
        }
    };
    assert_eq!(found, Some(2 * 4096));
    assert_eq!(visited, vec![0, 4096, 8192]);
    assert_eq!(input_search_step(4096, 4096, &empty, &input), SearchStep::NotFound);
    assert_eq!(input_search_step(4096, 8191, &empty, &input), SearchStep::NotFound);
    assert_eq!(input_search_step(4096, 8192, &empty, &input), SearchStep::Next(8192));
    assert_eq!(input_search_step(4096, 4096, &holding, &input), SearchStep::Found(4096));
}

#[test]
fn sp1_concurrency() {
    assert_eq!(execution_concurrency(Some("4"), Some(64)), 4);
    assert_eq!(execution_concurrency(Some("0"), Some(64)), 32);
    assert_eq!(execution_concurrency(None, Some(8)), 8);
    assert_eq!(execution_concurrency(None, None), 1);
    assert_eq!(estimator_concurrency(Some("3"), 10, 100, 8), 3);
    assert_eq!(estimator_concurrency(None, 10, 100, 8), 8);
    assert_eq!(estimator_concurrency(None, 10, 50, 8), 5);
    assert_eq!(estimator_concurrency(None, 10, 5, 8), 1);
}

#[test]
fn sp1_network_settings() {
    let r = network_prover_settings(Some("k".to_string()), Some("env".to_string()), String::new(), Some("rpc".to_string()));
    assert_eq!(r.unwrap(), ("k".to_string(), Some("rpc".to_string())));
    let r = network_prover_settings(None, Some("env".to_string()), "https://x".to_string(), None);
    assert_eq!(r.unwrap(), ("env".to_string(), Some("https://x".to_string())));
    let r = network_prover_settings(None, None, "https://x".to_string(), None);
    assert!(matches!(r, Err(Sp1Error::MissingApiKey)));
    let r = network_prover_settings(Some("k".to_string()), None, String::new(), None);
    assert_eq!(r.unwrap(), ("k".to_string(), None));
}

#[test]
fn zisk_panic_messages() {
    assert_eq!(panic_msg(Some("owned".to_string()), Some("literal")), "owned");
    assert_eq!(panic_msg(None, Some("literal")), "literal");
    assert_eq!(panic_msg(None, None), "unknown panic msg");
}
