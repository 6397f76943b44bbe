//! The proving index: a compiled constraint system bound to a shared SRS.
use vstd::prelude::*;

use std::rc::Rc;

use crate::constraints::{compile, compiled, compilable, lemma_compiled_domains_hold_circuit, ConstraintSystem};
use crate::gate::Fp;
use crate::gate_vector::CamlPastaFpPlonkGateVector;
use crate::IndexError;

verus! {

/// A structured reference string: the commitment parameters, large and built
/// once, of which this library reads the largest supported degree.
#[derive(Debug)]
pub struct Srs {
    pub max_degree: u64,
}

/// A proving index: it owns its compiled constraint system, holds a shared
/// reference to the SRS it was built against (the SRS lives as long as its
/// last holder), and the endomorphism scalar of the auxiliary curve.
#[derive(Debug)]
pub struct CamlPastaFpPlonkIndex {
    pub cs: ConstraintSystem,
    pub srs: Rc<Srs>,
    pub endo_q: Fp,
}

impl CamlPastaFpPlonkIndex {
    /// The index is built from a well-formed constraint system.
    pub open spec fn wf(&self) -> bool {
        self.cs@.wf()
    }

    /// Binds `cs` to a new shared reference to `urs`, with endomorphism scalar `endo_q`.
    pub fn bind(cs: ConstraintSystem, urs: &Rc<Srs>, endo_q: Fp) -> (r: CamlPastaFpPlonkIndex)
        ensures
            r.cs@ == cs@,
            *r.srs == **urs,
            r.endo_q == endo_q,
    {
        CamlPastaFpPlonkIndex { cs, srs: Rc::clone(urs), endo_q }
    }
}

/// Compiles a snapshot of `gates` with `public` public inputs and binds it to
/// `urs` and `endo_q`. Fails with `StructuralError` exactly when the gates
/// cannot be compiled.
pub fn caml_pasta_fp_plonk_5_wires_index_create(
    gates: &CamlPastaFpPlonkGateVector,
    public: u64,
    urs: &Rc<Srs>,
    endo_q: Fp,
) -> (r: Result<CamlPastaFpPlonkIndex, IndexError>)
    ensures
        compilable(gates@, public) ==> (r matches Ok(idx) && idx.cs@ == compiled(gates@, public)
            && *idx.srs == **urs && idx.endo_q == endo_q),
        r matches Ok(idx) ==> idx.wf(),
        !compilable(gates@, public) ==> r == Err::<CamlPastaFpPlonkIndex, IndexError>(
            IndexError::StructuralError,
        ),
{
    match compile(gates, public) {
        Ok(cs) => {
            proof {
                lemma_compiled_domains_hold_circuit(gates@, public);
            }
            Ok(CamlPastaFpPlonkIndex::bind(cs, urs, endo_q))
        },
        Err(e) => Err(e),
    }
}

/// The largest degree the index's SRS supports.
pub fn caml_pasta_fp_plonk_5_wires_index_max_degree(index: &CamlPastaFpPlonkIndex) -> (r: u64)
    ensures
        r == index.srs.max_degree,
{
    index.srs.max_degree
}

/// The number of public inputs.
pub fn caml_pasta_fp_plonk_5_wires_index_public_inputs(index: &CamlPastaFpPlonkIndex) -> (r: u64)
    ensures
        r == index.cs@.public,
{
    index.cs.public
}

/// The size of the base evaluation domain.
pub fn caml_pasta_fp_plonk_5_wires_index_domain_d1_size(index: &CamlPastaFpPlonkIndex) -> (r: u64)
    ensures
        r == index.cs@.d1,
{
    index.cs.d1
}

/// The size of the four-fold evaluation domain.
pub fn caml_pasta_fp_plonk_5_wires_index_domain_d4_size(index: &CamlPastaFpPlonkIndex) -> (r: u64)
    ensures
        r == index.cs@.d4,
{
    index.cs.d4
}

/// The size of the eight-fold evaluation domain.
pub fn caml_pasta_fp_plonk_5_wires_index_domain_d8_size(index: &CamlPastaFpPlonkIndex) -> (r: u64)
    ensures
        r == index.cs@.d8,
{
    index.cs.d8
}

/// Releases the index and with it its share of the SRS.
pub fn caml_pasta_fp_plonk_5_wires_index_finalize(index: CamlPastaFpPlonkIndex) {
    let CamlPastaFpPlonkIndex { cs: _cs, srs: _srs, endo_q: _endo_q } = index;
}

/// Two indexes built from the same gates and public-input count against any
/// two SRS handles agree on domain sizes and public-input count; each reports
/// the maximum degree of its own SRS.
pub proof fn lemma_indexes_differ_only_in_srs(
    a: CamlPastaFpPlonkIndex,
    b: CamlPastaFpPlonkIndex,
    gs: Seq<crate::gate::GateView>,
    public: u64,
    srs_a: Srs,
    srs_b: Srs,
)
    requires
        a.cs@ == compiled(gs, public),
        b.cs@ == compiled(gs, public),
        *a.srs == srs_a,
        *b.srs == srs_b,
    ensures
        a.cs@.d1 == b.cs@.d1,
        a.cs@.d4 == b.cs@.d4,
        a.cs@.d8 == b.cs@.d8,
        a.cs@.public == b.cs@.public,
        a.srs.max_degree == srs_a.max_degree,
        b.srs.max_degree == srs_b.max_degree,
{
}

} // verus!
