//! The binary layout of a compiled constraint system, and its encoder and
//! decoder. Integers are 8 bytes little-endian; a field element is its four
//! limbs; a wire is its row then its column; a gate is a one-byte type tag,
//! its row, its five wires, its coefficient count and its coefficients; a
//! system is its public-input count, its base domain size, its gate count and
//! its gates. The SRS is never part of the layout.
use vstd::prelude::*;

use crate::constraints::{compile_gates, compilable, compiled, pow2_ceil, ConstraintSystem, CsView};
use crate::gate::{CircuitGate, Fp, GateType, GateView, GateWires, Wire};
use crate::index::{CamlPastaFpPlonkIndex, Srs};
use crate::IndexError;

use std::rc::Rc;

verus! {

/// The eight little-endian bytes of `v`.
pub open spec fn u64_bytes(v: u64) -> Seq<u8> {
    seq![
        (v & 0xff) as u8,
        ((v >> 8u64) & 0xff) as u8,
        ((v >> 16u64) & 0xff) as u8,
        ((v >> 24u64) & 0xff) as u8,
        ((v >> 32u64) & 0xff) as u8,
        ((v >> 40u64) & 0xff) as u8,
        ((v >> 48u64) & 0xff) as u8,
        ((v >> 56u64) & 0xff) as u8,
    ]
}

/// The integer whose little-endian bytes stand at `s[p..p + 8]`.
pub open spec fn u64_at(s: Seq<u8>, p: int) -> u64 {
    (s[p] as u64) | ((s[p + 1] as u64) << 8u64) | ((s[p + 2] as u64) << 16u64) | ((s[p + 3] as u64)
        << 24u64) | ((s[p + 4] as u64) << 32u64) | ((s[p + 5] as u64) << 40u64) | ((s[p + 6] as u64)
        << 48u64) | ((s[p + 7] as u64) << 56u64)
}

/// The 32 bytes of a field element.
pub open spec fn fp_bytes(f: Fp) -> Seq<u8> {
    u64_bytes(f.l0) + u64_bytes(f.l1) + u64_bytes(f.l2) + u64_bytes(f.l3)
}

/// The field element whose bytes stand at `s[p..p + 32]`.
pub open spec fn fp_at(s: Seq<u8>, p: int) -> Fp {
    Fp { l0: u64_at(s, p), l1: u64_at(s, p + 8), l2: u64_at(s, p + 16), l3: u64_at(s, p + 24) }
}

/// The 16 bytes of a wire.
pub open spec fn wire_bytes(w: Wire) -> Seq<u8> {
    u64_bytes(w.row) + u64_bytes(w.col)
}

/// The wire whose bytes stand at `s[p..p + 16]`.
pub open spec fn wire_at(s: Seq<u8>, p: int) -> Wire {
    Wire { row: u64_at(s, p), col: u64_at(s, p + 8) }
}

/// The 80 bytes of a gate's wires, in column order.
pub open spec fn wires_bytes(w: GateWires) -> Seq<u8> {
    wire_bytes(w.l) + wire_bytes(w.r) + wire_bytes(w.o) + wire_bytes(w.q) + wire_bytes(w.p)
}

/// The wires whose bytes stand at `s[p..p + 80]`.
pub open spec fn wires_at(s: Seq<u8>, p: int) -> GateWires {
    GateWires {
        l: wire_at(s, p),
        r: wire_at(s, p + 16),
        o: wire_at(s, p + 32),
        q: wire_at(s, p + 48),
        p: wire_at(s, p + 64),
    }
}

/// The tag byte of a gate type.
pub open spec fn gate_tag(t: GateType) -> u8 {
    match t {
        GateType::Zero => 0,
        GateType::Generic => 1,
        GateType::Poseidon => 2,
        GateType::Add1 => 3,
        GateType::Add2 => 4,
        GateType::Vbmul1 => 5,
        GateType::Vbmul2 => 6,
        GateType::Vbmul3 => 7,
        GateType::Endomul1 => 8,
        GateType::Endomul2 => 9,
        GateType::Endomul3 => 10,
        GateType::Endomul4 => 11,
    }
}

/// Which gate type tag byte `b` stands for, if any.
pub open spec fn tag_type(b: u8) -> Option<GateType> {
    if b == 0 {
        Some(GateType::Zero)
    } else if b == 1 {
        Some(GateType::Generic)
    } else if b == 2 {
        Some(GateType::Poseidon)
    } else if b == 3 {
        Some(GateType::Add1)
    } else if b == 4 {
        Some(GateType::Add2)
    } else if b == 5 {
        Some(GateType::Vbmul1)
    } else if b == 6 {
        Some(GateType::Vbmul2)
    } else if b == 7 {
        Some(GateType::Vbmul3)
    } else if b == 8 {
        Some(GateType::Endomul1)
    } else if b == 9 {
        Some(GateType::Endomul2)
    } else if b == 10 {
        Some(GateType::Endomul3)
    } else if b == 11 {
        Some(GateType::Endomul4)
    } else {
        None
    }
}

/// Bytes `s[p..p + b.len()]` are `b`.
pub open spec fn bytes_at(s: Seq<u8>, p: int, b: Seq<u8>) -> bool {
    0 <= p && p + b.len() <= s.len() && s.subrange(p, p + b.len()) == b
}

/// Where `b` stands at `p`, its part `b[off..off + part.len()]` stands at `p + off`.
proof fn lemma_bytes_at_part(s: Seq<u8>, p: int, b: Seq<u8>, off: int, part: Seq<u8>)
    requires
        bytes_at(s, p, b),
        0 <= off,
        off + part.len() <= b.len(),
        b.subrange(off, off + part.len()) == part,
    ensures
        bytes_at(s, p + off, part),
{
    assert(s.subrange(p + off, p + off + part.len()) =~= b.subrange(off, off + part.len()));
}

/// Reading an integer back from its bytes gives the integer.
proof fn lemma_u64_round_trip(s: Seq<u8>, p: int, v: u64)
    requires
        bytes_at(s, p, u64_bytes(v)),
    ensures
        u64_at(s, p) == v,
{
    let b = s.subrange(p, p + 8);
    assert(s[p] == b[0] && s[p + 1] == b[1] && s[p + 2] == b[2] && s[p + 3] == b[3]);
    assert(s[p + 4] == b[4] && s[p + 5] == b[5] && s[p + 6] == b[6] && s[p + 7] == b[7]);
    let (b0, b1, b2, b3, b4, b5, b6, b7) = (s[p], s[p + 1], s[p + 2], s[p + 3], s[p + 4], s[p + 5], s[p + 6], s[p + 7]);
    assert((b0 as u64) | ((b1 as u64) << 8u64) | ((b2 as u64) << 16u64) | ((b3 as u64) << 24u64) | ((b4 as u64)
        << 32u64) | ((b5 as u64) << 40u64) | ((b6 as u64) << 48u64) | ((b7 as u64) << 56u64) == v) by (bit_vector)
        requires
            b0 == (v & 0xff) as u8,
            b1 == ((v >> 8u64) & 0xff) as u8,
            b2 == ((v >> 16u64) & 0xff) as u8,
            b3 == ((v >> 24u64) & 0xff) as u8,
            b4 == ((v >> 32u64) & 0xff) as u8,
            b5 == ((v >> 40u64) & 0xff) as u8,
            b6 == ((v >> 48u64) & 0xff) as u8,
            b7 == ((v >> 56u64) & 0xff) as u8,
    ;
}

/// Reading a field element back from its bytes gives the element.
proof fn lemma_fp_round_trip(s: Seq<u8>, p: int, f: Fp)
    requires
        bytes_at(s, p, fp_bytes(f)),
    ensures
        fp_at(s, p) == f,
{
    let b = fp_bytes(f);
    assert(b.subrange(0, 8) =~= u64_bytes(f.l0));
    assert(b.subrange(8, 16) =~= u64_bytes(f.l1));
    assert(b.subrange(16, 24) =~= u64_bytes(f.l2));
    assert(b.subrange(24, 32) =~= u64_bytes(f.l3));
    lemma_bytes_at_part(s, p, b, 0, u64_bytes(f.l0));
    lemma_bytes_at_part(s, p, b, 8, u64_bytes(f.l1));
    lemma_bytes_at_part(s, p, b, 16, u64_bytes(f.l2));
    lemma_bytes_at_part(s, p, b, 24, u64_bytes(f.l3));
    lemma_u64_round_trip(s, p, f.l0);
    lemma_u64_round_trip(s, p + 8, f.l1);
    lemma_u64_round_trip(s, p + 16, f.l2);
    lemma_u64_round_trip(s, p + 24, f.l3);
}

/// Reading a wire back from its bytes gives the wire.
proof fn lemma_wire_round_trip(s: Seq<u8>, p: int, w: Wire)
    requires
        bytes_at(s, p, wire_bytes(w)),
    ensures
        wire_at(s, p) == w,
{
    let b = wire_bytes(w);
    assert(b.subrange(0, 8) =~= u64_bytes(w.row));
    assert(b.subrange(8, 16) =~= u64_bytes(w.col));
    lemma_bytes_at_part(s, p, b, 0, u64_bytes(w.row));
    lemma_bytes_at_part(s, p, b, 8, u64_bytes(w.col));
    lemma_u64_round_trip(s, p, w.row);
    lemma_u64_round_trip(s, p + 8, w.col);
}

/// Reading a gate's wires back from their bytes gives the wires.
proof fn lemma_wires_round_trip(s: Seq<u8>, p: int, w: GateWires)
    requires
        bytes_at(s, p, wires_bytes(w)),
    ensures
        wires_at(s, p) == w,
{
    let b = wires_bytes(w);
    assert(b.subrange(0, 16) =~= wire_bytes(w.l));
    assert(b.subrange(16, 32) =~= wire_bytes(w.r));
    assert(b.subrange(32, 48) =~= wire_bytes(w.o));
    assert(b.subrange(48, 64) =~= wire_bytes(w.q));
    assert(b.subrange(64, 80) =~= wire_bytes(w.p));
    lemma_bytes_at_part(s, p, b, 0, wire_bytes(w.l));
    lemma_bytes_at_part(s, p, b, 16, wire_bytes(w.r));
    lemma_bytes_at_part(s, p, b, 32, wire_bytes(w.o));
    lemma_bytes_at_part(s, p, b, 48, wire_bytes(w.q));
    lemma_bytes_at_part(s, p, b, 64, wire_bytes(w.p));
    lemma_wire_round_trip(s, p, w.l);
    lemma_wire_round_trip(s, p + 16, w.r);
    lemma_wire_round_trip(s, p + 32, w.o);
    lemma_wire_round_trip(s, p + 48, w.q);
    lemma_wire_round_trip(s, p + 64, w.p);
}

/// Appends the bytes of `v`.
fn write_u64(out: &mut Vec<u8>, v: u64)
    ensures
        final(out)@ == old(out)@ + u64_bytes(v),
{
    out.push((v & 0xff) as u8);
    out.push(((v >> 8u64) & 0xff) as u8);
    out.push(((v >> 16u64) & 0xff) as u8);
    out.push(((v >> 24u64) & 0xff) as u8);
    out.push(((v >> 32u64) & 0xff) as u8);
    out.push(((v >> 40u64) & 0xff) as u8);
    out.push(((v >> 48u64) & 0xff) as u8);
    out.push(((v >> 56u64) & 0xff) as u8);
    assert(out@ =~= old(out)@ + u64_bytes(v));
}

/// The integer whose bytes stand at `s[p..p + 8]`.
fn read_u64(s: &[u8], p: usize) -> (r: u64)
    requires
        p + 8 <= s@.len(),
        s@.len() <= usize::MAX,
    ensures
        r == u64_at(s@, p as int),
{
    (s[p] as u64) | ((s[p + 1] as u64) << 8u64) | ((s[p + 2] as u64) << 16u64) | ((s[p + 3] as u64) << 24u64)
        | ((s[p + 4] as u64) << 32u64) | ((s[p + 5] as u64) << 40u64) | ((s[p + 6] as u64) << 48u64) | ((s[p
        + 7] as u64) << 56u64)
}

/// Appends the bytes of a field element.
fn write_fp(out: &mut Vec<u8>, f: Fp)
    ensures
        final(out)@ == old(out)@ + fp_bytes(f),
{
    write_u64(out, f.l0);
    write_u64(out, f.l1);
    write_u64(out, f.l2);
    write_u64(out, f.l3);
    assert(out@ =~= old(out)@ + fp_bytes(f));
}

/// The field element whose bytes stand at `s[p..p + 32]`.
fn read_fp(s: &[u8], p: usize) -> (r: Fp)
    requires
        p + 32 <= s@.len(),
        s@.len() <= usize::MAX,
    ensures
        r == fp_at(s@, p as int),
{
    Fp { l0: read_u64(s, p), l1: read_u64(s, p + 8), l2: read_u64(s, p + 16), l3: read_u64(s, p + 24) }
}

/// Appends the bytes of a wire.
fn write_wire(out: &mut Vec<u8>, w: Wire)
    ensures
        final(out)@ == old(out)@ + wire_bytes(w),
{
    write_u64(out, w.row);
    write_u64(out, w.col);
    assert(out@ =~= old(out)@ + wire_bytes(w));
}

/// The wire whose bytes stand at `s[p..p + 16]`.
fn read_wire(s: &[u8], p: usize) -> (r: Wire)
    requires
        p + 16 <= s@.len(),
        s@.len() <= usize::MAX,
    ensures
        r == wire_at(s@, p as int),
{
    Wire { row: read_u64(s, p), col: read_u64(s, p + 8) }
}

/// Appends the bytes of a gate's wires.
fn write_wires(out: &mut Vec<u8>, w: GateWires)
    ensures
        final(out)@ == old(out)@ + wires_bytes(w),
{
    write_wire(out, w.l);
    write_wire(out, w.r);
    write_wire(out, w.o);
    write_wire(out, w.q);
    write_wire(out, w.p);
    assert(out@ =~= old(out)@ + wires_bytes(w));
}

/// The wires whose bytes stand at `s[p..p + 80]`.
fn read_wires(s: &[u8], p: usize) -> (r: GateWires)
    requires
        p + 80 <= s@.len(),
        s@.len() <= usize::MAX,
    ensures
        r == wires_at(s@, p as int),
{
    GateWires {
        l: read_wire(s, p),
        r: read_wire(s, p + 16),
        o: read_wire(s, p + 32),
        q: read_wire(s, p + 48),
        p: read_wire(s, p + 64),
    }
}

/// The tag byte of `t`.
fn write_tag(t: GateType) -> (r: u8)
    ensures
        r == gate_tag(t),
{
    match t {
        GateType::Zero => 0,
        GateType::Generic => 1,
        GateType::Poseidon => 2,
        GateType::Add1 => 3,
        GateType::Add2 => 4,
        GateType::Vbmul1 => 5,
        GateType::Vbmul2 => 6,
        GateType::Vbmul3 => 7,
        GateType::Endomul1 => 8,
        GateType::Endomul2 => 9,
        GateType::Endomul3 => 10,
        GateType::Endomul4 => 11,
    }
}

/// Which gate type tag byte `b` stands for, if any.
fn read_tag(b: u8) -> (r: Option<GateType>)
    ensures
        r == tag_type(b),
{
    if b == 0 {
        Some(GateType::Zero)
    } else if b == 1 {
        Some(GateType::Generic)
    } else if b == 2 {
        Some(GateType::Poseidon)
    } else if b == 3 {
        Some(GateType::Add1)
    } else if b == 4 {
        Some(GateType::Add2)
    } else if b == 5 {
        Some(GateType::Vbmul1)
    } else if b == 6 {
        Some(GateType::Vbmul2)
    } else if b == 7 {
        Some(GateType::Vbmul3)
    } else if b == 8 {
        Some(GateType::Endomul1)
    } else if b == 9 {
        Some(GateType::Endomul2)
    } else if b == 10 {
        Some(GateType::Endomul3)
    } else if b == 11 {
        Some(GateType::Endomul4)
    } else {
        None
    }
}

/// The bytes of a coefficient list, without its count.
pub open spec fn coeffs_bytes(c: Seq<Fp>) -> Seq<u8>
    decreases c.len(),
{
    if c.len() == 0 {
        Seq::empty()
    } else {
        coeffs_bytes(c.drop_last()) + fp_bytes(c.last())
    }
}

/// The bytes of a gate.
pub open spec fn gate_bytes(g: GateView) -> Seq<u8> {
    seq![gate_tag(g.typ)] + u64_bytes(g.row) + wires_bytes(g.wires) + u64_bytes(g.c.len() as u64)
        + coeffs_bytes(g.c)
}

/// The number of bytes of a gate with `k` coefficients.
pub open spec fn gate_len(k: nat) -> int {
    97 + 32 * (k as int)
}

/// What gate is encoded at `s[p..]`, if one is.
pub open spec fn gate_at(s: Seq<u8>, p: int) -> Option<GateView> {
    if 0 <= p && p + 97 <= s.len() {
        match tag_type(s[p]) {
            None => None,
            Some(t) => {
                let k = u64_at(s, p + 89);
                if p + gate_len(k as nat) <= s.len() {
                    Some(
                        GateView {
                            typ: t,
                            row: u64_at(s, p + 1),
                            wires: wires_at(s, p + 9),
                            c: Seq::new(k as nat, |j: int| fp_at(s, p + 97 + 32 * j)),
                        },
                    )
                } else {
                    None
                }
            },
        }
    } else {
        None
    }
}

/// The bytes of a list of gates, one after the other.
pub open spec fn gates_bytes(gs: Seq<GateView>) -> Seq<u8>
    decreases gs.len(),
{
    if gs.len() == 0 {
        Seq::empty()
    } else {
        gates_bytes(gs.drop_last()) + gate_bytes(gs.last())
    }
}

/// The `n` gates encoded one after the other from `s[p..]`, with the position
/// after the last, if they are there.
pub open spec fn gates_at(s: Seq<u8>, p: int, n: nat) -> Option<(Seq<GateView>, int)>
    decreases n,
{
    if n == 0 {
        Some((Seq::empty(), p))
    } else {
        match gates_at(s, p, (n - 1) as nat) {
            None => None,
            Some((gs, q)) => match gate_at(s, q) {
                None => None,
                Some(g) => Some((gs.push(g), q + gate_len(g.c.len()))),
            },
        }
    }
}

/// The bytes of a compiled constraint system.
pub open spec fn cs_bytes(cs: CsView) -> Seq<u8> {
    u64_bytes(cs.public) + u64_bytes(cs.d1) + u64_bytes(cs.gates.len() as u64) + gates_bytes(cs.gates)
}

/// Every count in the system fits the layout's 64-bit fields; this holds of
/// every system held in memory.
pub open spec fn encodable(cs: CsView) -> bool {
    &&& cs.gates.len() <= u64::MAX
    &&& forall|i: int| 0 <= i < cs.gates.len() ==> #[trigger] cs.gates[i].c.len() <= u64::MAX
}

/// The well-formed constraint system encoded at `s[p..]`, if one is.
pub open spec fn cs_at(s: Seq<u8>, p: int) -> Option<CsView> {
    if 0 <= p && p + 24 <= s.len() {
        let public = u64_at(s, p);
        let d1 = u64_at(s, p + 8);
        let n = u64_at(s, p + 16);
        match gates_at(s, p + 24, n as nat) {
            None => None,
            Some((gs, _)) => if compilable(gs, public) && d1 == pow2_ceil(gs.len()) {
                Some(compiled(gs, public))
            } else {
                None
            },
        }
    } else {
        None
    }
}

/// A coefficient list takes 32 bytes per element, element `j` at `32 * j`.
proof fn lemma_coeffs_bytes(c: Seq<Fp>)
    ensures
        coeffs_bytes(c).len() == 32 * c.len(),
        forall|j: int|
            0 <= j < c.len() ==> #[trigger] coeffs_bytes(c).subrange(32 * j, 32 * j + 32) == fp_bytes(c[j]),
    decreases c.len(),
{
    if c.len() > 0 {
        let d = c.drop_last();
        lemma_coeffs_bytes(d);
        let b = coeffs_bytes(c);
        assert forall|j: int| 0 <= j < c.len() implies #[trigger] b.subrange(32 * j, 32 * j + 32) == fp_bytes(
            c[j],
        ) by {
            if j < d.len() {
                assert(b.subrange(32 * j, 32 * j + 32) =~= coeffs_bytes(d).subrange(32 * j, 32 * j + 32));
            } else {
                assert(b.subrange(32 * j, 32 * j + 32) =~= fp_bytes(c.last()));
            }
        }
    }
}

/// Reading a gate back from its bytes gives that same gate.
proof fn lemma_gate_round_trip(s: Seq<u8>, p: int, g: GateView)
    requires
        g.c.len() <= u64::MAX,
        bytes_at(s, p, gate_bytes(g)),
    ensures
        gate_bytes(g).len() == gate_len(g.c.len()),
        gate_at(s, p) == Some(g),
{
    let b = gate_bytes(g);
    let k = g.c.len();
    lemma_coeffs_bytes(g.c);
    assert(b.len() == gate_len(k));
    assert(s[p] == b[0]);
    assert(b.subrange(1, 9) =~= u64_bytes(g.row));
    assert(b.subrange(9, 89) =~= wires_bytes(g.wires));
    assert(b.subrange(89, 97) =~= u64_bytes(k as u64));
    assert(b.subrange(97, 97 + 32 * (k as int)) =~= coeffs_bytes(g.c));
    lemma_bytes_at_part(s, p, b, 1, u64_bytes(g.row));
    lemma_bytes_at_part(s, p, b, 9, wires_bytes(g.wires));
    lemma_bytes_at_part(s, p, b, 89, u64_bytes(k as u64));
    lemma_bytes_at_part(s, p, b, 97, coeffs_bytes(g.c));
    lemma_u64_round_trip(s, p + 1, g.row);
    lemma_wires_round_trip(s, p + 9, g.wires);
    lemma_u64_round_trip(s, p + 89, k as u64);
    let cb = coeffs_bytes(g.c);
    assert forall|j: int| 0 <= j < k implies fp_at(s, p + 97 + 32 * j) == g.c[j] by {
        assert(cb.subrange(32 * j, 32 * j + 32) == fp_bytes(g.c[j]));
        lemma_bytes_at_part(s, p + 97, cb, 32 * j, fp_bytes(g.c[j]));
        lemma_fp_round_trip(s, p + 97 + 32 * j, g.c[j]);
    }
    assert(Seq::new(k as nat, |j: int| fp_at(s, p + 97 + 32 * j)) =~= g.c);
}

/// Reading a list of gates back from its bytes gives the list.
#[verifier::rlimit(40)]
proof fn lemma_gates_round_trip(s: Seq<u8>, p: int, gs: Seq<GateView>)
    requires
        forall|i: int| 0 <= i < gs.len() ==> #[trigger] gs[i].c.len() <= u64::MAX,
        bytes_at(s, p, gates_bytes(gs)),
    ensures
        gates_at(s, p, gs.len()) == Some((gs, p + gates_bytes(gs).len())),
    decreases gs.len(),
{
    if gs.len() > 0 {
        let d = gs.drop_last();
        let g = gs.last();
        let b = gates_bytes(gs);
        let a = gates_bytes(d);
        assert(b.subrange(0, a.len() as int) =~= a);
        assert(b.subrange(a.len() as int, b.len() as int) =~= gate_bytes(g));
        lemma_bytes_at_part(s, p, b, 0, a);
        lemma_bytes_at_part(s, p, b, a.len() as int, gate_bytes(g));
        assert forall|i: int| 0 <= i < d.len() implies #[trigger] d[i].c.len() <= u64::MAX by {
            assert(d[i] == gs[i]);
        }
        lemma_gates_round_trip(s, p, d);
        assert(gs[gs.len() - 1].c.len() <= u64::MAX);
        lemma_gate_round_trip(s, p + a.len(), g);
        assert(d.push(g) =~= gs);
    }
}

/// Reading a well-formed constraint system back from its bytes gives the system.
pub proof fn lemma_cs_round_trip(s: Seq<u8>, p: int, cs: CsView)
    requires
        cs.wf(),
        encodable(cs),
        bytes_at(s, p, cs_bytes(cs)),
    ensures
        cs_at(s, p) == Some(cs),
{
    let b = cs_bytes(cs);
    let n = cs.gates.len();
    assert(b.subrange(0, 8) =~= u64_bytes(cs.public));
    assert(b.subrange(8, 16) =~= u64_bytes(cs.d1));
    assert(b.subrange(16, 24) =~= u64_bytes(n as u64));
    assert(b.subrange(24, b.len() as int) =~= gates_bytes(cs.gates));
    lemma_bytes_at_part(s, p, b, 0, u64_bytes(cs.public));
    lemma_bytes_at_part(s, p, b, 8, u64_bytes(cs.d1));
    lemma_bytes_at_part(s, p, b, 16, u64_bytes(n as u64));
    lemma_bytes_at_part(s, p, b, 24, gates_bytes(cs.gates));
    lemma_u64_round_trip(s, p, cs.public);
    lemma_u64_round_trip(s, p + 8, cs.d1);
    lemma_u64_round_trip(s, p + 16, n as u64);
    lemma_gates_round_trip(s, p + 24, cs.gates);
}

/// Gates that are not all there stay not all there when more are asked for.
proof fn lemma_gates_at_none(s: Seq<u8>, p: int, m: nat, n: nat)
    requires
        m <= n,
        gates_at(s, p, m) is None,
    ensures
        gates_at(s, p, n) is None,
    decreases n,
{
    if n > m {
        lemma_gates_at_none(s, p, m, (n - 1) as nat);
    }
}

/// Appends the bytes of a gate.
fn write_gate(out: &mut Vec<u8>, g: &CircuitGate)
    ensures
        final(out)@ == old(out)@ + gate_bytes(g@),
{
    out.push(write_tag(g.typ));
    write_u64(out, g.row);
    write_wires(out, g.wires);
    write_u64(out, g.c.len() as u64);
    let ghost head = out@;
    let mut i: usize = 0;
    while i < g.c.len()
        invariant
            i <= g.c@.len(),
            out@ == head + coeffs_bytes(g.c@.subrange(0, i as int)),
        decreases g.c@.len() - i,
    {
        assert(g.c@.subrange(0, i + 1).drop_last() =~= g.c@.subrange(0, i as int));
        write_fp(out, g.c[i]);
        i = i + 1;
        assert(out@ =~= head + coeffs_bytes(g.c@.subrange(0, i as int)));
    }
    assert(g.c@.subrange(0, i as int) =~= g.c@);
    assert(out@ =~= old(out)@ + gate_bytes(g@));
}

/// Appends the bytes of a compiled constraint system.
fn write_cs(out: &mut Vec<u8>, cs: &ConstraintSystem)
    ensures
        final(out)@ == old(out)@ + cs_bytes(cs@),
        encodable(cs@),
{
    let ghost gs = cs@.gates;
    write_u64(out, cs.public);
    write_u64(out, cs.d1);
    write_u64(out, cs.gates.len() as u64);
    let ghost head = out@;
    let mut i: usize = 0;
    while i < cs.gates.len()
        invariant
            i <= gs.len(),
            gs == cs@.gates,
            out@ == head + gates_bytes(gs.subrange(0, i as int)),
            forall|j: int| 0 <= j < i ==> #[trigger] gs[j].c.len() <= u64::MAX,
        decreases gs.len() - i,
    {
        assert(gs.subrange(0, i + 1).drop_last() =~= gs.subrange(0, i as int));
        let g = &cs.gates[i];
        let k = g.c.len();
        assert(gs[i as int] == g@);
        write_gate(out, g);
        i = i + 1;
        assert(out@ =~= head + gates_bytes(gs.subrange(0, i as int)));
    }
    assert(gs.subrange(0, i as int) =~= gs);
    assert(out@ =~= old(out)@ + cs_bytes(cs@));
}

/// What gate is encoded at `s[p..]`, with the position after it, if one is there.
fn read_gate(s: &[u8], p: usize) -> (r: Option<(CircuitGate, usize)>)
    requires
        p <= s@.len(),
        s@.len() <= usize::MAX,
    ensures
        match gate_at(s@, p as int) {
            None => r is None,
            Some(g) => r matches Some((eg, q)) && eg@ == g && q == p + gate_len(g.c.len()),
        },
{
    let len = s.len();
    if len - p < 97 {
        return None;
    }
    let typ = match read_tag(s[p]) {
        None => {
            return None;
        },
        Some(t) => t,
    };
    let row = read_u64(s, p + 1);
    let wires = read_wires(s, p + 9);
    let k = read_u64(s, p + 89);
    let q = p + 97;
    let room = len - q;
    proof {
        let a = room as int;
        let kk = k as int;
        assert((kk <= a / 32) == (32 * kk <= a)) by (nonlinear_arith)
            requires
                a >= 0,
                kk >= 0,
        ;
    }
    if k > (room / 32) as u64 {
        return None;
    }
    let k = k as usize;
    let mut c: Vec<Fp> = Vec::with_capacity(k);
    let mut j: usize = 0;
    while j < k
        invariant
            j <= k,
            q + 32 * k <= s@.len(),
            s@.len() <= usize::MAX,
            c@ =~= Seq::new(j as nat, |t: int| fp_at(s@, q + 32 * t)),
        decreases k - j,
    {
        let f = read_fp(s, q + 32 * j);
        c.push(f);
        j = j + 1;
    }
    Some((CircuitGate { typ, row, wires, c }, q + 32 * k))
}

/// The `n` gates encoded one after the other from `s[p..]`, with the position
/// after the last, if they are all there.
fn read_gates(s: &[u8], p: usize, n: u64) -> (r: Option<(Vec<CircuitGate>, usize)>)
    requires
        p <= s@.len(),
        s@.len() <= usize::MAX,
    ensures
        match gates_at(s@, p as int, n as nat) {
            None => r is None,
            Some((gs, q)) => r matches Some((v, e)) && v@.map_values(|g: CircuitGate| g@) == gs && e == q,
        },
{
    let mut v: Vec<CircuitGate> = Vec::new();
    let mut cur = p;
    let mut i: u64 = 0;
    while i < n
        invariant
            p <= cur <= s@.len(),
            s@.len() <= usize::MAX,
            i <= n,
            gates_at(s@, p as int, i as nat) == Some((v@.map_values(|g: CircuitGate| g@), cur as int)),
        decreases n - i,
    {
        let ghost before = v@.map_values(|g: CircuitGate| g@);
        match read_gate(s, cur) {
            None => {
                proof {
                    lemma_gates_at_none(s@, p as int, (i + 1) as nat, n as nat);
                }
                return None;
            },
            Some((g, q)) => {
                v.push(g);
                cur = q;
                i = i + 1;
                assert(v@.map_values(|g: CircuitGate| g@) =~= before.push(g@));
            },
        }
    }
    Some((v, cur))
}

/// The well-formed constraint system encoded at `s[p..]`, if one is.
fn read_cs(s: &[u8], p: usize) -> (r: Option<ConstraintSystem>)
    requires
        p <= s@.len(),
        s@.len() <= usize::MAX,
    ensures
        match cs_at(s@, p as int) {
            None => r is None,
            Some(v) => r matches Some(cs) && cs@ == v,
        },
{
    if s.len() - p < 24 {
        return None;
    }
    let public = read_u64(s, p);
    let d1 = read_u64(s, p + 8);
    let n = read_u64(s, p + 16);
    match read_gates(s, p + 24, n) {
        None => None,
        Some((gates, _end)) => match compile_gates(&gates, public) {
            Err(_) => None,
            Ok(cs) => if cs.d1 == d1 {
                Some(cs)
            } else {
                None
            },
        },
    }
}

/// The position a read starts from: the offset given, else the start.
pub open spec fn start_of(offset: Option<u64>) -> int {
    match offset {
        Some(o) => o as int,
        None => 0,
    }
}

/// What a write keeps of the sink: all of it when appending (the default),
/// nothing otherwise.
pub open spec fn kept(append: Option<bool>, sink: Seq<u8>) -> Seq<u8> {
    if append != Some(false) {
        sink
    } else {
        Seq::empty()
    }
}

/// Decodes the index's constraint system encoded in `stream` from `offset`
/// (from the start when none is given) and attaches it to a new shared
/// reference to `urs`; the SRS is never read from the stream. Fails with
/// `IoError` when the offset lies past the end of the stream and with
/// `DecodeError` when no well-formed system is encoded there.
pub fn caml_pasta_fp_plonk_5_wires_index_read(
    offset: Option<u64>,
    urs: &Rc<Srs>,
    endo_q: Fp,
    stream: &[u8],
) -> (r: Result<CamlPastaFpPlonkIndex, IndexError>)
    ensures
        start_of(offset) > stream@.len() ==> r == Err::<CamlPastaFpPlonkIndex, IndexError>(
            IndexError::IoError,
        ),
        start_of(offset) <= stream@.len() && cs_at(stream@, start_of(offset)) is None ==> r == Err::<
            CamlPastaFpPlonkIndex,
            IndexError,
        >(IndexError::DecodeError),
        start_of(offset) <= stream@.len() && cs_at(stream@, start_of(offset)) is Some ==> (r matches Ok(idx)
            && idx.cs@ == cs_at(stream@, start_of(offset))->0 && *idx.srs == **urs && idx.endo_q == endo_q),
        r matches Ok(idx) ==> idx.wf(),
{
    let len = stream.len();
    let start = match offset {
        Some(o) => o,
        None => 0,
    };
    if start > len as u64 {
        return Err(IndexError::IoError);
    }
    match read_cs(stream, start as usize) {
        None => Err(IndexError::DecodeError),
        Some(cs) => {
            proof {
                crate::constraints::lemma_compiled_domains_hold_circuit(cs@.gates, cs@.public);
            }
            Ok(CamlPastaFpPlonkIndex::bind(cs, urs, endo_q))
        },
    }
}

/// Encodes the index's constraint system (not its SRS) into `sink`: after
/// what the sink holds when `append` is true or not given, in place of it
/// when `append` is false.
pub fn caml_pasta_fp_plonk_5_wires_index_write(
    append: Option<bool>,
    index: &CamlPastaFpPlonkIndex,
    sink: &mut Vec<u8>,
)
    ensures
        final(sink)@ == kept(append, old(sink)@) + cs_bytes(index.cs@),
        encodable(index.cs@),
{
    let keep = match append {
        Some(a) => a,
        None => true,
    };
    if !keep {
        sink.clear();
    }
    write_cs(sink, &index.cs);
}

/// Writing a well-formed constraint system after any bytes and reading from
/// where it starts, whatever follows, gives back the same system: same
/// gates, wiring, domain sizes and public-input count.
pub proof fn lemma_write_then_read(cs: CsView, prev: Seq<u8>, tail: Seq<u8>)
    requires
        cs.wf(),
        encodable(cs),
    ensures
        cs_at(prev + cs_bytes(cs) + tail, prev.len() as int) == Some(cs),
{
    let s = prev + cs_bytes(cs) + tail;
    assert(s.subrange(prev.len() as int, prev.len() + cs_bytes(cs).len() as int) =~= cs_bytes(cs));
    lemma_cs_round_trip(s, prev.len() as int, cs);
}

/// What a read returns is always a well-formed constraint system.
pub proof fn lemma_read_is_well_formed(s: Seq<u8>, p: int)
    ensures
        cs_at(s, p) matches Some(cs) ==> cs.wf(),
{
    if let Some(cs) = cs_at(s, p) {
        let public = u64_at(s, p);
        let n = u64_at(s, p + 16);
        if let Some((gs, _q)) = gates_at(s, p + 24, n as nat) {
            crate::constraints::lemma_compiled_domains_hold_circuit(gs, public);
        }
    }
}

} // verus!
