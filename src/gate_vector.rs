//! Gate collections: circuits under construction.
use vstd::prelude::*;

use crate::gate::{CircuitGate, GateView, Wire, COLUMNS};
use crate::IndexError;

verus! {

/// An ordered, index-addressable collection of gates, appended to in circuit
/// order and patched in place to close copy-constraint cycles.
pub struct CamlPastaFpPlonkGateVector(pub Vec<CircuitGate>);

impl View for CamlPastaFpPlonkGateVector {
    type V = Seq<GateView>;

    open spec fn view(&self) -> Seq<GateView> {
        self.0@.map_values(|g: CircuitGate| g@)
    }
}

/// The gates `gs` with the wire at (`t.row`, `t.col`) replaced by `h`.
pub open spec fn patched(gs: Seq<GateView>, t: Wire, h: Wire) -> Seq<GateView> {
    gs.update(
        t.row as int,
        GateView { wires: gs[t.row as int].wires.with(t.col as int, h), ..gs[t.row as int] },
    )
}

/// A new, empty collection.
pub fn caml_pasta_fp_plonk_5_wires_gate_vector_create() -> (r: CamlPastaFpPlonkGateVector)
    ensures
        r@ == Seq::<GateView>::empty(),
{
    let r = CamlPastaFpPlonkGateVector(Vec::new());
    assert(r@ =~= Seq::<GateView>::empty());
    r
}

/// Appends `gate`; the wiring is not checked here.
pub fn caml_pasta_fp_plonk_5_wires_gate_vector_add(v: &mut CamlPastaFpPlonkGateVector, gate: CircuitGate)
    ensures
        final(v)@ == old(v)@.push(gate@),
{
    v.0.push(gate);
    assert(v@ =~= old(v)@.push(gate@));
}

/// A copy of whichever gate stands at position `i`, or `RangeError` when there is none.
pub fn caml_pasta_fp_plonk_5_wires_gate_vector_get(v: &CamlPastaFpPlonkGateVector, i: usize) -> (r:
    Result<CircuitGate, IndexError>)
    ensures
        i < v@.len() ==> (r matches Ok(g) && g@ == v@[i as int]),
        i >= v@.len() ==> r == Err::<CircuitGate, IndexError>(IndexError::RangeError),
{
    if i < v.0.len() {
        Ok(v.0[i].copy())
    } else {
        Err(IndexError::RangeError)
    }
}

/// Points the wire at cell (`t.row`, `t.col`) at `h`. Fails with `RangeError`,
/// leaving the collection as it was, when that cell does not exist.
pub fn caml_pasta_fp_plonk_5_wires_gate_vector_wrap(v: &mut CamlPastaFpPlonkGateVector, t: Wire, h: Wire) -> (r:
    Result<(), IndexError>)
    ensures
        t.row < old(v)@.len() && t.col < COLUMNS ==> r is Ok && final(v)@ == patched(old(v)@, t, h),
        !(t.row < old(v)@.len() && t.col < COLUMNS) ==> r == Err::<(), IndexError>(IndexError::RangeError)
            && final(v)@ == old(v)@,
{
    if t.row < v.0.len() as u64 && t.col < COLUMNS {
        let i = t.row as usize;
        let mut g = v.0[i].copy();
        g.wires.set(t.col, h);
        v.0.set(i, g);
        assert(v@ =~= patched(old(v)@, t, h));
        Ok(())
    } else {
        Err(IndexError::RangeError)
    }
}

/// Releases the collection.
pub fn caml_pasta_fp_plonk_5_wires_gate_vector_finalize(v: CamlPastaFpPlonkGateVector) {
    let CamlPastaFpPlonkGateVector(_gates) = v;
}

/// Reading back what was just appended to a new collection gives that same gate.
pub proof fn lemma_append_then_get(g: GateView)
    ensures
        Seq::<GateView>::empty().push(g)[0] == g,
{
}

/// After a patch, the patched row holds the new endpoint in the patched column,
/// every other column and field of that row is unchanged, and so is every other row.
pub proof fn lemma_patch_then_get(gs: Seq<GateView>, t: Wire, h: Wire)
    requires
        t.row < gs.len(),
        t.col < COLUMNS,
    ensures
        patched(gs, t, h).len() == gs.len(),
        patched(gs, t, h)[t.row as int].wires.at(t.col as int) == h,
        forall|c: int| 0 <= c < 5 && c != t.col ==> patched(gs, t, h)[t.row as int].wires.at(c) == gs[t.row as int].wires.at(c),
        patched(gs, t, h)[t.row as int].typ == gs[t.row as int].typ,
        patched(gs, t, h)[t.row as int].row == gs[t.row as int].row,
        patched(gs, t, h)[t.row as int].c == gs[t.row as int].c,
        forall|i: int| 0 <= i < gs.len() && i != t.row ==> patched(gs, t, h)[i] == gs[i],
{
}

} // verus!
