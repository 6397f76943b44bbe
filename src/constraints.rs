//! Compiling a gate collection into a constraint system: evaluation-domain
//! selection and structural validation of rows and wiring.
use vstd::prelude::*;

use crate::gate::{CircuitGate, GateView, COLUMNS};
use crate::gate_vector::CamlPastaFpPlonkGateVector;
use crate::IndexError;

verus! {

/// The largest base domain: the eight-fold domain must stay within the
/// field's two-adic subgroup of order 2^32.
pub const MAX_DOMAIN_D1: u64 = 536870912;

/// The least power of two that is at least `n` (and at least 1).
pub open spec fn pow2_ceil(n: nat) -> nat
    decreases n,
{
    if n <= 1 {
        1
    } else {
        2 * pow2_ceil(((n + 1) / 2) as nat)
    }
}

/// Gate `g` sits at position `i` of a circuit of `n` rows and all its wires
/// point at cells of that circuit.
pub open spec fn gate_fits(g: GateView, i: int, n: nat) -> bool {
    g.row == i && g.wires.valid_in(n)
}

/// Every gate's row matches its position and every wire points into the circuit.
pub open spec fn gates_fit(gs: Seq<GateView>) -> bool {
    forall|i: int| 0 <= i < gs.len() ==> #[trigger] gate_fits(gs[i], i, gs.len())
}

/// The gates and public-input count can be compiled.
pub open spec fn compilable(gs: Seq<GateView>, public: u64) -> bool {
    &&& public <= gs.len()
    &&& gates_fit(gs)
    &&& pow2_ceil(gs.len()) <= MAX_DOMAIN_D1
}

/// A compiled constraint system, as contracts speak of it.
pub ghost struct CsView {
    pub gates: Seq<GateView>,
    pub public: u64,
    pub d1: u64,
    pub d4: u64,
    pub d8: u64,
}

/// The constraint system that compiling `gs` with `public` public inputs yields.
pub open spec fn compiled(gs: Seq<GateView>, public: u64) -> CsView {
    let d1 = pow2_ceil(gs.len());
    CsView { gates: gs, public, d1: d1 as u64, d4: (4 * d1) as u64, d8: (8 * d1) as u64 }
}

impl CsView {
    /// The system is what compiling its own gates yields.
    pub open spec fn wf(self) -> bool {
        compilable(self.gates, self.public) && self == compiled(self.gates, self.public)
    }
}

/// A compiled constraint system: a snapshot of the gates, the public-input
/// count and the sizes of the three evaluation domains.
#[derive(Debug)]
pub struct ConstraintSystem {
    pub gates: Vec<CircuitGate>,
    pub public: u64,
    pub d1: u64,
    pub d4: u64,
    pub d8: u64,
}

impl View for ConstraintSystem {
    type V = CsView;

    open spec fn view(&self) -> CsView {
        CsView {
            gates: self.gates@.map_values(|g: CircuitGate| g@),
            public: self.public,
            d1: self.d1,
            d4: self.d4,
            d8: self.d8,
        }
    }
}

/// `n <= pow2_ceil(n) <= max(2 * n, 1)`.
pub proof fn lemma_pow2_ceil_bounds(n: nat)
    ensures
        n <= pow2_ceil(n),
        n >= 1 ==> pow2_ceil(n) <= 2 * n,
        n >= 2 ==> pow2_ceil(n) + 2 <= 2 * n,
        pow2_ceil(n) >= 1,
    decreases n,
{
    if n > 1 {
        lemma_pow2_ceil_bounds(((n + 1) / 2) as nat);
    }
}

/// The least power of two at least `n`, for `n <= 2^40`.
fn domain_size(n: u64) -> (r: u64)
    requires
        n <= 0x100_0000_0000,
    ensures
        r == pow2_ceil(n as nat),
    decreases n,
{
    if n <= 1 {
        1
    } else {
        let h = domain_size((n + 1) / 2);
        proof {
            lemma_pow2_ceil_bounds(((n + 1) / 2) as nat);
        }
        2 * h
    }
}

/// Whether every gate's row matches its position and every wire points into
/// the circuit.
fn check_gates(gates: &Vec<CircuitGate>) -> (r: bool)
    ensures
        r == gates_fit(gates@.map_values(|g: CircuitGate| g@)),
{
    let ghost gs = gates@.map_values(|g: CircuitGate| g@);
    let n = gates.len() as u64;
    let mut i: usize = 0;
    while i < gates.len()
        invariant
            i <= gates@.len(),
            n == gates@.len(),
            gs == gates@.map_values(|g: CircuitGate| g@),
            forall|j: int| 0 <= j < i ==> #[trigger] gate_fits(gs[j], j, gs.len()),
        decreases gates@.len() - i,
    {
        let g = &gates[i];
        let w = &g.wires;
        let fits = g.row == i as u64
            && w.l.row < n && w.l.col < COLUMNS
            && w.r.row < n && w.r.col < COLUMNS
            && w.o.row < n && w.o.col < COLUMNS
            && w.q.row < n && w.q.col < COLUMNS
            && w.p.row < n && w.p.col < COLUMNS;
        assert(gs[i as int] == gates@[i as int]@);
        if !fits {
            assert(!gate_fits(gs[i as int], i as int, gs.len()));
            return false;
        }
        i = i + 1;
    }
    true
}

/// A structural copy of a list of gates.
pub fn copy_gates(gates: &Vec<CircuitGate>) -> (r: Vec<CircuitGate>)
    ensures
        r@.map_values(|g: CircuitGate| g@) == gates@.map_values(|g: CircuitGate| g@),
{
    let mut r: Vec<CircuitGate> = Vec::with_capacity(gates.len());
    let mut i: usize = 0;
    while i < gates.len()
        invariant
            i <= gates@.len(),
            r@.len() == i,
            forall|j: int| 0 <= j < i ==> #[trigger] r@[j]@ == gates@[j]@,
        decreases gates@.len() - i,
    {
        r.push(gates[i].copy());
        i = i + 1;
    }
    assert(r@.map_values(|g: CircuitGate| g@) =~= gates@.map_values(|g: CircuitGate| g@));
    r
}

/// Compiles `gates` (taken as they are now; later changes to the collection do
/// not reach the result) with `public` public inputs. Fails with
/// `StructuralError` exactly when the system cannot be built.
pub fn compile(gates: &CamlPastaFpPlonkGateVector, public: u64) -> (r: Result<ConstraintSystem, IndexError>)
    ensures
        compilable(gates@, public) ==> (r matches Ok(cs) && cs@ == compiled(gates@, public)),
        !compilable(gates@, public) ==> r == Err::<ConstraintSystem, IndexError>(IndexError::StructuralError),
{
    compile_gates(&gates.0, public)
}

/// `compile`, on a plain list of gates.
pub fn compile_gates(gates: &Vec<CircuitGate>, public: u64) -> (r: Result<ConstraintSystem, IndexError>)
    ensures
        compilable(gates@.map_values(|g: CircuitGate| g@), public) ==> (r matches Ok(cs) && cs@ == compiled(
            gates@.map_values(|g: CircuitGate| g@),
            public,
        )),
        !compilable(gates@.map_values(|g: CircuitGate| g@), public) ==> r == Err::<
            ConstraintSystem,
            IndexError,
        >(IndexError::StructuralError),
{
    let ghost gs = gates@.map_values(|g: CircuitGate| g@);
    let n = gates.len() as u64;
    proof {
        lemma_pow2_ceil_bounds(n as nat);
    }
    if n > MAX_DOMAIN_D1 || public > n {
        return Err(IndexError::StructuralError);
    }
    let d1 = domain_size(n);
    if d1 > MAX_DOMAIN_D1 {
        return Err(IndexError::StructuralError);
    }
    if !check_gates(gates) {
        return Err(IndexError::StructuralError);
    }
    let snapshot = copy_gates(gates);
    let cs = ConstraintSystem { gates: snapshot, public, d1, d4: 4 * d1, d8: 8 * d1 };
    Ok(cs)
}

/// A compiled system's domains each hold the whole circuit, and the four- and
/// eight-fold domains are four and eight times the base domain.
pub proof fn lemma_compiled_domains_hold_circuit(gs: Seq<GateView>, public: u64)
    requires
        compilable(gs, public),
    ensures
        compiled(gs, public).d1 >= gs.len(),
        compiled(gs, public).d4 >= gs.len(),
        compiled(gs, public).d8 >= gs.len(),
        compiled(gs, public).d4 == 4 * compiled(gs, public).d1,
        compiled(gs, public).d8 == 8 * compiled(gs, public).d1,
        compiled(gs, public).wf(),
{
    lemma_pow2_ceil_bounds(gs.len());
}

} // verus!
