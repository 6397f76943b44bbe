//! Wires, field elements and circuit gates.
use vstd::prelude::*;

verus! {

/// Number of wire columns of a gate.
pub const COLUMNS: u64 = 5;

/// One cell of the circuit: row `row`, column `col`.
#[derive(Clone, Copy, Debug, PartialEq, Eq, Structural)]
pub struct Wire {
    pub row: u64,
    pub col: u64,
}

impl Wire {
    /// The wire points at a cell of a circuit with `n` rows.
    pub open spec fn valid_in(self, n: nat) -> bool {
        self.row < n && self.col < COLUMNS
    }
}

/// An element of the Pasta scalar field, held as four little-endian 64-bit
/// limbs of its canonical representation. Arithmetic lives elsewhere; here a
/// field element is plain data.
#[derive(Clone, Copy, Debug, PartialEq, Eq, Structural)]
pub struct Fp {
    pub l0: u64,
    pub l1: u64,
    pub l2: u64,
    pub l3: u64,
}

/// The kind of constraint a gate imposes.
#[derive(Clone, Copy, Debug, PartialEq, Eq, Structural)]
pub enum GateType {
    Zero,
    Generic,
    Poseidon,
    Add1,
    Add2,
    Vbmul1,
    Vbmul2,
    Vbmul3,
    Endomul1,
    Endomul2,
    Endomul3,
    Endomul4,
}

/// The five wires of a gate, one per column: each names the next cell in the
/// copy-constraint cycle of this gate's cell in that column.
#[derive(Clone, Copy, Debug, PartialEq, Eq, Structural)]
pub struct GateWires {
    pub l: Wire,
    pub r: Wire,
    pub o: Wire,
    pub q: Wire,
    pub p: Wire,
}

impl GateWires {
    /// The wire in column `col`.
    pub open spec fn at(self, col: int) -> Wire {
        if col == 0 {
            self.l
        } else if col == 1 {
            self.r
        } else if col == 2 {
            self.o
        } else if col == 3 {
            self.q
        } else {
            self.p
        }
    }

    /// These wires with column `col` replaced by `w`.
    pub open spec fn with(self, col: int, w: Wire) -> GateWires {
        if col == 0 {
            GateWires { l: w, ..self }
        } else if col == 1 {
            GateWires { r: w, ..self }
        } else if col == 2 {
            GateWires { o: w, ..self }
        } else if col == 3 {
            GateWires { q: w, ..self }
        } else {
            GateWires { p: w, ..self }
        }
    }

    /// Every wire points at a cell of a circuit with `n` rows.
    pub open spec fn valid_in(self, n: nat) -> bool {
        &&& self.l.valid_in(n)
        &&& self.r.valid_in(n)
        &&& self.o.valid_in(n)
        &&& self.q.valid_in(n)
        &&& self.p.valid_in(n)
    }

    /// The wire in column `col`, for `col < 5`.
    pub fn get(&self, col: u64) -> (r: Wire)
        requires
            col < COLUMNS,
        ensures
            r == self.at(col as int),
    {
        if col == 0 {
            self.l
        } else if col == 1 {
            self.r
        } else if col == 2 {
            self.o
        } else if col == 3 {
            self.q
        } else {
            self.p
        }
    }

    /// Replaces the wire in column `col`, for `col < 5`.
    pub fn set(&mut self, col: u64, w: Wire)
        requires
            col < COLUMNS,
        ensures
            *final(self) == old(self).with(col as int, w),
    {
        if col == 0 {
            self.l = w;
        } else if col == 1 {
            self.r = w;
        } else if col == 2 {
            self.o = w;
        } else if col == 3 {
            self.q = w;
        } else {
            self.p = w;
        }
    }
}

/// The value of a gate, as contracts speak of it.
pub ghost struct GateView {
    pub typ: GateType,
    pub row: u64,
    pub wires: GateWires,
    pub c: Seq<Fp>,
}

/// One row of the circuit: its kind, its row index, its wiring and the field
/// coefficients of its constraint.
#[derive(Debug)]
pub struct CircuitGate {
    pub typ: GateType,
    pub row: u64,
    pub wires: GateWires,
    pub c: Vec<Fp>,
}

impl View for CircuitGate {
    type V = GateView;

    open spec fn view(&self) -> GateView {
        GateView { typ: self.typ, row: self.row, wires: self.wires, c: self.c@ }
    }
}

/// A copy of a coefficient list.
pub fn copy_coefficients(c: &Vec<Fp>) -> (r: Vec<Fp>)
    ensures
        r@ == c@,
{
    let mut r: Vec<Fp> = Vec::with_capacity(c.len());
    let mut i: usize = 0;
    while i < c.len()
        invariant
            i <= c@.len(),
            r@ == c@.subrange(0, i as int),
        decreases c@.len() - i,
    {
        r.push(c[i]);
        i = i + 1;
    }
    assert(r@ =~= c@);
    r
}

impl CircuitGate {
    /// A structural copy of this gate.
    pub fn copy(&self) -> (r: CircuitGate)
        ensures
            r@ == self@,
    {
        CircuitGate { typ: self.typ, row: self.row, wires: self.wires, c: copy_coefficients(&self.c) }
    }
}

impl Clone for CircuitGate {
    fn clone(&self) -> (r: CircuitGate)
        ensures
            r@ == self@,
    {
        self.copy()
    }
}

} // verus!
