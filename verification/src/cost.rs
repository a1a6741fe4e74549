//! Cost estimates shared by every backend, and the measurements they build
//! on: the span of a heap and the address of a symbol in the guest ELF.

use vstd::prelude::*;

use crate::text::str_eq;

verus! {

/// Environment variable naming the symbol at the bottom of the guest heap.
pub const ERE_COST_ESTIMATION_HEAP_START: &'static str = "ERE_COST_ESTIMATION_HEAP_START";

/// Environment variable naming the symbol at the top of the guest heap.
pub const ERE_COST_ESTIMATION_HEAP_END: &'static str = "ERE_COST_ESTIMATION_HEAP_END";

/// Cost and heap use of one execution.
#[derive(Clone, Debug, Default)]
pub struct CostEstimation {
    /// Cost per component, ascending by component name. Each zkVM defines the
    /// unit.
    pub cost: Vec<(String, u64)>,
    /// `None` if the estimator cannot read the heap.
    pub peak_heap_bytes: Option<u64>,
}

/// Component names and costs of a cost table.
pub open spec fn cost_view(cost: Seq<(String, u64)>) -> Seq<(Seq<char>, u64)> {
    cost.map_values(|e: (String, u64)| (e.0@, e.1))
}

/// Span of the non-zero bytes of `bytes`, from the lowest to the highest one,
/// or `None` when every byte is zero.
pub open spec fn spec_peak_heap_bytes(bytes: Seq<u8>) -> Option<u64> {
    if exists|i: int| 0 <= i < bytes.len() && bytes[i] != 0 {
        let lo = choose|lo: int|
            0 <= lo < bytes.len() && bytes[lo] != 0 && forall|k: int| 0 <= k < lo ==> bytes[k] == 0;
        let hi = choose|hi: int|
            0 <= hi < bytes.len() && bytes[hi] != 0 && forall|k: int| hi < k < bytes.len() ==> bytes[k]
                == 0;
        Some((hi - lo + 1) as u64)
    } else {
        None
    }
}

/// Span of the non-zero bytes of a heap image, from its lowest to its highest
/// non-zero byte, or `None` for a heap of zeros.
pub fn peak_heap_bytes(bytes: &[u8]) -> (r: Option<u64>)
    ensures
        r == spec_peak_heap_bytes(bytes@),
        r matches Some(n) ==> 1 <= n <= bytes@.len(),
{
    let n = bytes.len();
    let mut lo: usize = 0;
    while lo < n && bytes[lo] == 0
        invariant
            0 <= lo <= n,
            n == bytes@.len(),
            forall|k: int| 0 <= k < lo ==> bytes@[k] == 0,
        decreases n - lo,
    {
        lo = lo + 1;
    }
    if lo == n {
        return None;
    }
    let mut hi: usize = n - 1;
    while bytes[hi] == 0
        invariant
            lo <= hi < n,
            n == bytes@.len(),
            bytes@[lo as int] != 0,
            forall|k: int| hi < k < n ==> bytes@[k] == 0,
        decreases hi,
    {
        hi = hi - 1;
    }
    proof {
        let l = choose|l: int|
            0 <= l < bytes@.len() && bytes@[l] != 0 && forall|k: int| 0 <= k < l ==> bytes@[k] == 0;
        let h = choose|h: int|
            0 <= h < bytes@.len() && bytes@[h] != 0 && forall|k: int| h < k < bytes@.len()
                ==> bytes@[k] == 0;
        assert(l == lo as int) by {
            if l < lo {
            } else if l > lo {
            }
        }
        assert(h == hi as int) by {
            if h < hi {
            } else if h > hi {
            }
        }
    }
    Some((hi - lo + 1) as u64)
}

/// One entry of an ELF symbol table: whether the symbol is undefined, its name
/// when the string table yields one, and its value.
#[derive(Clone, Debug)]
pub struct ElfSymbol {
    pub undefined: bool,
    pub name: Option<String>,
    pub address: u64,
}

/// The plain value of a symbol table entry.
pub open spec fn symbol_view(s: ElfSymbol) -> (bool, Option<Seq<char>>, u64) {
    (
        s.undefined,
        match s.name {
            Some(n) => Some(n@),
            None => None,
        },
        s.address,
    )
}

/// The plain value of a symbol table that may be missing.
pub open spec fn symbol_table_view(t: Option<Vec<ElfSymbol>>) -> Option<Seq<(bool, Option<Seq<char>>, u64)>> {
    match t {
        Some(v) => Some(v@.map_values(|s: ElfSymbol| symbol_view(s))),
        None => None,
    }
}

/// The `.symtab` of an ELF image, entry by entry (whether it is undefined,
/// its name, its value), as the `elf` crate reads it; `None` when the image
/// does not parse or carries no symbol table.
pub uninterp spec fn elf_symbol_table(elf: Seq<u8>) -> Option<Seq<(bool, Option<Seq<char>>, u64)>>;

/// Reads the symbol table of an ELF image with `elf::ElfBytes::minimal_parse`
/// and `ElfBytes::symbol_table`, naming each entry through the string table
/// with `StringTable::get`.
///
/// Trusted: the result is the `elf` crate's reading of `elf`, which
/// `elf_symbol_table` names; nothing more is claimed of it.
#[verifier::external_body]
fn read_symbol_table(elf: &[u8]) -> (r: Option<Vec<ElfSymbol>>)
    ensures
        symbol_table_view(r) == elf_symbol_table(elf@),
{
    let file = ::elf::ElfBytes::<::elf::endian::AnyEndian>::minimal_parse(elf).ok()?;
    let (symbols, names) = file.symbol_table().ok()??;
    Some(
        symbols.iter().map(
            |s| ElfSymbol {
                undefined: s.is_undefined(),
                name: names.get(s.st_name as usize).ok().map(|n| n.to_string()),
                address: s.st_value,
            },
        ).collect(),
    )
}

/// Whether entry `e` is a defined symbol called `name`.
pub open spec fn symbol_matches(e: (bool, Option<Seq<char>>, u64), name: Seq<char>) -> bool {
    !e.0 && e.1 == Some(name)
}

/// Value of the first defined symbol called `name` in `table`.
pub open spec fn first_symbol_address(table: Seq<(bool, Option<Seq<char>>, u64)>, name: Seq<char>) -> Option<u64> {
    if exists|i: int| 0 <= i < table.len() && symbol_matches(table[i], name) {
        let i = choose|i: int|
            0 <= i < table.len() && symbol_matches(table[i], name) && forall|k: int|
                0 <= k < i ==> !symbol_matches(table[k], name);
        Some(table[i].2)
    } else {
        None
    }
}

/// Address of the first defined symbol called `name` among `symbols`.
pub fn find_symbol(symbols: &Vec<ElfSymbol>, name: &str) -> (r: Option<u64>)
    ensures
        r == first_symbol_address(symbols@.map_values(|s: ElfSymbol| symbol_view(s)), name@),
{
    let ghost t = symbols@.map_values(|s: ElfSymbol| symbol_view(s));
    let mut i: usize = 0;
    while i < symbols.len()
        invariant
            0 <= i <= symbols.len(),
            t == symbols@.map_values(|s: ElfSymbol| symbol_view(s)),
            forall|k: int| 0 <= k < i ==> !symbol_matches(#[trigger] t[k], name@),
        decreases symbols.len() - i,
    {
        let s = &symbols[i];
        let hit = match &s.name {
            Some(n) => !s.undefined && str_eq(n.as_str(), name),
            None => false,
        };
        if hit {
            proof {
                let j = choose|j: int|
                    0 <= j < t.len() && symbol_matches(t[j], name@) && forall|k: int|
                        0 <= k < j ==> !symbol_matches(t[k], name@);
                assert(symbol_matches(t[i as int], name@));
                if j < i {
                    assert(!symbol_matches(t[j], name@));
                } else if j > i {
                }
            }
            return Some(s.address);
        }
        assert(!symbol_matches(t[i as int], name@));
        i = i + 1;
    }
    None
}

/// Address of symbol `name` in ELF image `elf`: that of the first defined
/// symbol of that name, or `None` when there is none or no symbol table.
pub open spec fn elf_symbol(elf: Seq<u8>, name: Seq<char>) -> Option<u64> {
    match elf_symbol_table(elf) {
        Some(t) => first_symbol_address(t, name),
        None => None,
    }
}

/// Address of `name` in the guest ELF: that of the first defined symbol of
/// that name, or `None` when the ELF carries no such symbol or no symbol
/// table.
pub fn symbol_address(elf: &[u8], name: &str) -> (r: Option<u64>)
    ensures
        r == elf_symbol(elf@, name@),
{
    match read_symbol_table(elf) {
        Some(symbols) => find_symbol(&symbols, name),
        None => None,
    }
}

} // verus!
