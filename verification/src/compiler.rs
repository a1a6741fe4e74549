//! The settings of the ZisK guest compiler, which builds Rust guests for
//! RV64IMA with a stock nightly toolchain and ZisK's target specification.

use vstd::prelude::*;

verus! {

/// Compiler for Rust guest programs to the RV64IMA architecture, using a
/// stock nightly Rust toolchain with ZisK's target specification.
pub struct ZiskRustRv64ima;

/// Name of the target, `riscv64im-unknown-none-elf` with atomic
/// compare-and-swap.
pub const TARGET_NAME: &'static str = "riscv64ima-unknown-none-elf";

/// The toolchain used when none is configured.
pub const DEFAULT_TOOLCHAIN: &'static str = "nightly";

/// The flags the compiler passes to `rustc`.
pub open spec fn rustflags_spec() -> Seq<Seq<char>> {
    seq![
        "-C"@,
        "passes=lower-atomic"@,
        "-C"@,
        "panic=abort"@,
        "--cfg"@,
        "getrandom_backend=\"custom\""@,
    ]
}

/// The options the compiler passes to `cargo build`: bare metal needs `core`
/// and `alloc` built, and the target is a JSON specification.
pub open spec fn cargo_build_options_spec() -> Seq<Seq<char>> {
    seq!["-Zbuild-std=core,alloc"@, "-Zjson-target-spec"@]
}

/// The characters of each string.
pub open spec fn str_views(v: Seq<&'static str>) -> Seq<Seq<char>> {
    v.map_values(|s: &'static str| s@)
}

impl ZiskRustRv64ima {
    /// The toolchain to build with: the configured one, or `nightly`.
    pub fn toolchain(configured: Option<String>) -> (t: String)
        ensures
            configured matches Some(c) ==> t@ == c@,
            configured is None ==> t@ == DEFAULT_TOOLCHAIN@,
    {
        match configured {
            Some(c) => c,
            None => String::from_str(DEFAULT_TOOLCHAIN),
        }
    }

    /// The flags passed to `rustc`: atomics are lowered, panics abort, and
    /// `getrandom` uses a custom backend.
    pub fn rustflags() -> (v: Vec<&'static str>)
        ensures
            str_views(v@) == rustflags_spec(),
    {
        let v = vec![
            "-C",
            "passes=lower-atomic",
            "-C",
            "panic=abort",
            "--cfg",
            "getrandom_backend=\"custom\"",
        ];
        assert(str_views(v@) =~= rustflags_spec());
        v
    }

    /// The options passed to `cargo build`.
    pub fn cargo_build_options() -> (v: Vec<&'static str>)
        ensures
            str_views(v@) == cargo_build_options_spec(),
    {
        let v = vec!["-Zbuild-std=core,alloc", "-Zjson-target-spec"];
        assert(str_views(v@) =~= cargo_build_options_spec());
        v
    }
}

} // verus!
