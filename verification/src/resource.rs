//! Which kinds of proving resource each prover takes.

use vstd::prelude::*;

verus! {

/// A kind of proving resource: this machine's CPU or GPU, a proving network,
/// or a proving cluster.
#[derive(Clone, Copy, Debug, PartialEq, Eq, Structural)]
pub enum ResourceKind {
    Cpu,
    Gpu,
    Network,
    Cluster,
}

/// A resource of a kind that the prover does not take, with the kinds it
/// takes.
#[derive(Debug)]
pub struct UnsupportedResource {
    pub kind: ResourceKind,
    pub supported: Vec<ResourceKind>,
}

/// The kinds the OpenVM prover takes.
pub open spec fn openvm_kinds() -> Seq<ResourceKind> {
    seq![ResourceKind::Cpu, ResourceKind::Gpu]
}

/// The kinds the SP1 prover takes; the GPU only when built with CUDA.
pub open spec fn sp1_kinds(cuda: bool) -> Seq<ResourceKind> {
    if cuda {
        seq![ResourceKind::Cpu, ResourceKind::Gpu, ResourceKind::Network]
    } else {
        seq![ResourceKind::Cpu, ResourceKind::Network]
    }
}

/// The kinds the ZisK prover takes.
pub open spec fn zisk_kinds() -> Seq<ResourceKind> {
    seq![ResourceKind::Cpu, ResourceKind::Gpu, ResourceKind::Cluster]
}

/// The kinds the OpenVM prover takes.
pub fn openvm_resource_kinds() -> (v: Vec<ResourceKind>)
    ensures
        v@ == openvm_kinds(),
{
    let v = vec![ResourceKind::Cpu, ResourceKind::Gpu];
    assert(v@ =~= openvm_kinds());
    v
}

/// The kinds the SP1 prover takes, built with CUDA or without.
pub fn sp1_resource_kinds(cuda: bool) -> (v: Vec<ResourceKind>)
    ensures
        v@ == sp1_kinds(cuda),
{
    let v = if cuda {
        vec![ResourceKind::Cpu, ResourceKind::Gpu, ResourceKind::Network]
    } else {
        vec![ResourceKind::Cpu, ResourceKind::Network]
    };
    assert(v@ =~= sp1_kinds(cuda));
    v
}

/// The kinds the ZisK prover takes.
pub fn zisk_resource_kinds() -> (v: Vec<ResourceKind>)
    ensures
        v@ == zisk_kinds(),
{
    let v = vec![ResourceKind::Cpu, ResourceKind::Gpu, ResourceKind::Cluster];
    assert(v@ =~= zisk_kinds());
    v
}

/// Accepts a resource of `kind` if it is one of `supported`, and refuses it
/// otherwise, naming the kinds that are.
pub fn check_resource_kind(kind: ResourceKind, supported: Vec<ResourceKind>) -> (r: Result<
    (),
    UnsupportedResource,
>)
    ensures
        r is Ok <==> supported@.contains(kind),
        r matches Err(e) ==> e.kind == kind && e.supported@ == supported@,
{
    let mut i: usize = 0;
    while i < supported.len()
        invariant
            0 <= i <= supported@.len(),
            forall|j: int| 0 <= j < i ==> supported@[j] != kind,
        decreases supported.len() - i,
    {
        if supported[i] == kind {
            return Ok(());
        }
        i = i + 1;
    }
    Err(UnsupportedResource { kind, supported })
}

} // verus!
