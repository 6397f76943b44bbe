use std::rc::Rc;

use pasta_plonk_index::codec::{caml_pasta_fp_plonk_5_wires_index_read, caml_pasta_fp_plonk_5_wires_index_write};
use pasta_plonk_index::constraints::compile;
use pasta_plonk_index::gate::{CircuitGate, Fp, GateType, GateWires, Wire};
use pasta_plonk_index::gate_vector::{
    caml_pasta_fp_plonk_5_wires_gate_vector_add, caml_pasta_fp_plonk_5_wires_gate_vector_create,
    caml_pasta_fp_plonk_5_wires_gate_vector_finalize, caml_pasta_fp_plonk_5_wires_gate_vector_get,
    caml_pasta_fp_plonk_5_wires_gate_vector_wrap, CamlPastaFpPlonkGateVector,
};
use pasta_plonk_index::index::{
    caml_pasta_fp_plonk_5_wires_index_create, caml_pasta_fp_plonk_5_wires_index_domain_d1_size,
    caml_pasta_fp_plonk_5_wires_index_domain_d4_size, caml_pasta_fp_plonk_5_wires_index_domain_d8_size,
    caml_pasta_fp_plonk_5_wires_index_finalize, caml_pasta_fp_plonk_5_wires_index_max_degree,
    caml_pasta_fp_plonk_5_wires_index_public_inputs, CamlPastaFpPlonkIndex, Srs,
};
use pasta_plonk_index::IndexError;

fn fp(v: u64) -> Fp {
    Fp { l0: v, l1: 0, l2: 0, l3: v.wrapping_mul(3) }
}

fn w(row: u64, col: u64) -> Wire {
    Wire { row, col }
}

/// A gate at `row` whose every wire points at its own cell (trivial cycles).
fn gate(typ: GateType, row: u64, c: Vec<Fp>) -> CircuitGate {
    CircuitGate {
        typ,
        row,
        wires: GateWires { l: w(row, 0), r: w(row, 1), o: w(row, 2), q: w(row, 3), p: w(row, 4) },
        c,
    }
}

fn three_gates() -> CamlPastaFpPlonkGateVector {
    let mut v = caml_pasta_fp_plonk_5_wires_gate_vector_create();
    caml_pasta_fp_plonk_5_wires_gate_vector_add(&mut v, gate(GateType::Generic, 0, vec![fp(1), fp(2)]));
    caml_pasta_fp_plonk_5_wires_gate_vector_add(&mut v, gate(GateType::Generic, 1, vec![fp(7)]));
    caml_pasta_fp_plonk_5_wires_gate_vector_add(&mut v, gate(GateType::Poseidon, 2, vec![]));
    v
}

fn srs(max_degree: u64) -> Rc<Srs> {
    Rc::new(Srs { max_degree })
}

fn endo() -> Fp {
    fp(42)
}

fn same_gate(a: &CircuitGate, b: &CircuitGate) -> bool {
    a.typ == b.typ && a.row == b.row && a.wires == b.wires && a.c == b.c
}

fn same_index(a: &CamlPastaFpPlonkIndex, b: &CamlPastaFpPlonkIndex) -> bool {
    a.cs.public == b.cs.public
        && a.cs.d1 == b.cs.d1
        && a.cs.d4 == b.cs.d4
        && a.cs.d8 == b.cs.d8
        && a.cs.gates.len() == b.cs.gates.len()
        && a.cs.gates.iter().zip(b.cs.gates.iter()).all(|(x, y)| same_gate(x, y))
}

#[test]
fn append_then_get_returns_the_gate() {
    let mut v = caml_pasta_fp_plonk_5_wires_gate_vector_create();
    let g = gate(GateType::Vbmul2, 0, vec![fp(5), fp(6), fp(9)]);
    caml_pasta_fp_plonk_5_wires_gate_vector_add(&mut v, g.clone());
    let back = caml_pasta_fp_plonk_5_wires_gate_vector_get(&v, 0).unwrap();
    assert!(same_gate(&back, &g));
}

#[test]
fn get_past_the_end_is_a_range_error() {
    let v = three_gates();
    assert!(matches!(caml_pasta_fp_plonk_5_wires_gate_vector_get(&v, 3), Err(IndexError::RangeError)));
    let empty = caml_pasta_fp_plonk_5_wires_gate_vector_create();
    assert!(matches!(caml_pasta_fp_plonk_5_wires_gate_vector_get(&empty, 0), Err(IndexError::RangeError)));
    caml_pasta_fp_plonk_5_wires_gate_vector_finalize(v);
}

#[test]
fn patch_then_get_changes_only_the_patched_wire() {
    let mut v = three_gates();
    let before = caml_pasta_fp_plonk_5_wires_gate_vector_get(&v, 1).unwrap();
    assert!(caml_pasta_fp_plonk_5_wires_gate_vector_wrap(&mut v, w(1, 2), w(0, 4)).is_ok());
    let after = caml_pasta_fp_plonk_5_wires_gate_vector_get(&v, 1).unwrap();
    assert_eq!(after.wires.o, w(0, 4));
    assert_eq!(after.wires.l, before.wires.l);
    assert_eq!(after.wires.r, before.wires.r);
    assert_eq!(after.wires.q, before.wires.q);
    assert_eq!(after.wires.p, before.wires.p);
    assert_eq!(after.typ, before.typ);
    assert_eq!(after.row, before.row);
    assert_eq!(after.c, before.c);
    let other = caml_pasta_fp_plonk_5_wires_gate_vector_get(&v, 0).unwrap();
    assert_eq!(other.wires.o, w(0, 2));
}

#[test]
fn patch_out_of_range_is_a_range_error() {
    let mut v = three_gates();
    assert!(matches!(
        caml_pasta_fp_plonk_5_wires_gate_vector_wrap(&mut v, w(3, 0), w(0, 0)),
        Err(IndexError::RangeError)
    ));
    assert!(matches!(
        caml_pasta_fp_plonk_5_wires_gate_vector_wrap(&mut v, w(0, 5), w(0, 0)),
        Err(IndexError::RangeError)
    ));
    let g = caml_pasta_fp_plonk_5_wires_gate_vector_get(&v, 0).unwrap();
    assert_eq!(g.wires.l, w(0, 0));
}

#[test]
fn three_gate_scenario_compiles_and_round_trips() {
    let v = three_gates();
    let idx = caml_pasta_fp_plonk_5_wires_index_create(&v, 1, &srs(64), endo()).unwrap();
    assert_eq!(caml_pasta_fp_plonk_5_wires_index_domain_d1_size(&idx), 4);
    assert_eq!(caml_pasta_fp_plonk_5_wires_index_domain_d4_size(&idx), 16);
    assert_eq!(caml_pasta_fp_plonk_5_wires_index_domain_d8_size(&idx), 32);
    assert_eq!(caml_pasta_fp_plonk_5_wires_index_public_inputs(&idx), 1);
    assert_eq!(caml_pasta_fp_plonk_5_wires_index_max_degree(&idx), 64);
    let mut sink: Vec<u8> = Vec::new();
    caml_pasta_fp_plonk_5_wires_index_write(None, &idx, &mut sink);
    let back = caml_pasta_fp_plonk_5_wires_index_read(None, &srs(64), endo(), &sink).unwrap();
    assert!(same_index(&idx, &back));
    assert_eq!(back.cs.gates[0].typ, GateType::Generic);
    assert_eq!(back.cs.gates[1].typ, GateType::Generic);
    assert_eq!(back.cs.gates[2].typ, GateType::Poseidon);
    assert_eq!(back.cs.gates[2].row, 2);
}

#[test]
fn domains_cover_every_gate_count() {
    for n in 0u64..20 {
        let mut v = caml_pasta_fp_plonk_5_wires_gate_vector_create();
        for r in 0..n {
            caml_pasta_fp_plonk_5_wires_gate_vector_add(&mut v, gate(GateType::Zero, r, vec![]));
        }
        let cs = compile(&v, 0).unwrap();
        assert!(cs.d1 >= n && cs.d1.is_power_of_two());
        assert!(cs.d1 == 1 || cs.d1 / 2 < n);
        assert_eq!(cs.d4, 4 * cs.d1);
        assert_eq!(cs.d8, 8 * cs.d1);
    }
}

#[test]
fn empty_circuit_uses_the_unit_domain() {
    let v = caml_pasta_fp_plonk_5_wires_gate_vector_create();
    let cs = compile(&v, 0).unwrap();
    assert_eq!((cs.d1, cs.d4, cs.d8), (1, 4, 8));
}

#[test]
fn too_many_public_inputs_is_a_structural_error() {
    let v = three_gates();
    assert!(matches!(compile(&v, 4), Err(IndexError::StructuralError)));
    assert!(compile(&v, 3).is_ok());
    assert!(matches!(
        caml_pasta_fp_plonk_5_wires_index_create(&v, 4, &srs(8), endo()),
        Err(IndexError::StructuralError)
    ));
}

#[test]
fn wire_beyond_the_circuit_is_a_structural_error() {
    let mut v = three_gates();
    caml_pasta_fp_plonk_5_wires_gate_vector_wrap(&mut v, w(2, 1), w(3, 0)).unwrap();
    assert!(matches!(compile(&v, 0), Err(IndexError::StructuralError)));
    let mut v = three_gates();
    caml_pasta_fp_plonk_5_wires_gate_vector_wrap(&mut v, w(2, 1), w(1, 5)).unwrap();
    assert!(matches!(compile(&v, 0), Err(IndexError::StructuralError)));
}

#[test]
fn row_out_of_place_is_a_structural_error() {
    let mut v = caml_pasta_fp_plonk_5_wires_gate_vector_create();
    caml_pasta_fp_plonk_5_wires_gate_vector_add(&mut v, gate(GateType::Zero, 0, vec![]));
    let mut g = gate(GateType::Zero, 1, vec![]);
    g.row = 0;
    caml_pasta_fp_plonk_5_wires_gate_vector_add(&mut v, g);
    assert!(matches!(compile(&v, 0), Err(IndexError::StructuralError)));
}

#[test]
fn compiling_takes_a_snapshot() {
    let mut v = three_gates();
    let cs = compile(&v, 0).unwrap();
    caml_pasta_fp_plonk_5_wires_gate_vector_wrap(&mut v, w(0, 0), w(2, 3)).unwrap();
    assert_eq!(cs.gates[0].wires.l, w(0, 0));
    assert_eq!(caml_pasta_fp_plonk_5_wires_gate_vector_get(&v, 0).unwrap().wires.l, w(2, 3));
}

#[test]
fn indexes_on_two_srs_differ_only_in_max_degree() {
    let v = three_gates();
    let a = caml_pasta_fp_plonk_5_wires_index_create(&v, 2, &srs(16), endo()).unwrap();
    let b = caml_pasta_fp_plonk_5_wires_index_create(&v, 2, &srs(1024), endo()).unwrap();
    assert_eq!(caml_pasta_fp_plonk_5_wires_index_domain_d1_size(&a), caml_pasta_fp_plonk_5_wires_index_domain_d1_size(&b));
    assert_eq!(caml_pasta_fp_plonk_5_wires_index_domain_d4_size(&a), caml_pasta_fp_plonk_5_wires_index_domain_d4_size(&b));
    assert_eq!(caml_pasta_fp_plonk_5_wires_index_domain_d8_size(&a), caml_pasta_fp_plonk_5_wires_index_domain_d8_size(&b));
    assert_eq!(caml_pasta_fp_plonk_5_wires_index_public_inputs(&a), caml_pasta_fp_plonk_5_wires_index_public_inputs(&b));
    assert_eq!(caml_pasta_fp_plonk_5_wires_index_max_degree(&a), 16);
    assert_eq!(caml_pasta_fp_plonk_5_wires_index_max_degree(&b), 1024);
}

#[test]
fn indexes_share_the_srs() {
    let urs = srs(32);
    let v = three_gates();
    let a = caml_pasta_fp_plonk_5_wires_index_create(&v, 0, &urs, endo()).unwrap();
    assert!(Rc::ptr_eq(&a.srs, &urs));
    assert_eq!(Rc::strong_count(&urs), 2);
    let mut sink: Vec<u8> = Vec::new();
    caml_pasta_fp_plonk_5_wires_index_write(Some(true), &a, &mut sink);
    let b = caml_pasta_fp_plonk_5_wires_index_read(Some(0), &urs, endo(), &sink).unwrap();
    assert!(Rc::ptr_eq(&b.srs, &urs));
    assert_eq!(Rc::strong_count(&urs), 3);
    caml_pasta_fp_plonk_5_wires_index_finalize(a);
    assert_eq!(Rc::strong_count(&urs), 2);
    drop(urs);
    assert_eq!(caml_pasta_fp_plonk_5_wires_index_max_degree(&b), 32);
}

#[test]
fn exact_bytes_of_an_empty_system() {
    let v = caml_pasta_fp_plonk_5_wires_gate_vector_create();
    let idx = caml_pasta_fp_plonk_5_wires_index_create(&v, 0, &srs(4), endo()).unwrap();
    let mut sink: Vec<u8> = Vec::new();
    caml_pasta_fp_plonk_5_wires_index_write(None, &idx, &mut sink);
    let mut expected = vec![0u8; 24];
    expected[8] = 1;
    assert_eq!(sink, expected);
}

#[test]
fn exact_bytes_of_one_gate() {
    let mut v = caml_pasta_fp_plonk_5_wires_gate_vector_create();
    caml_pasta_fp_plonk_5_wires_gate_vector_add(&mut v, gate(GateType::Add2, 0, vec![fp(0x0102)]));
    let idx = caml_pasta_fp_plonk_5_wires_index_create(&v, 1, &srs(4), endo()).unwrap();
    let mut sink: Vec<u8> = Vec::new();
    caml_pasta_fp_plonk_5_wires_index_write(None, &idx, &mut sink);
    assert_eq!(sink.len(), 24 + 97 + 32);
    assert_eq!(&sink[0..8], &[1, 0, 0, 0, 0, 0, 0, 0]);
    assert_eq!(&sink[8..16], &[1, 0, 0, 0, 0, 0, 0, 0]);
    assert_eq!(&sink[16..24], &[1, 0, 0, 0, 0, 0, 0, 0]);
    assert_eq!(sink[24], 4);
    // the wire in column 3 of row 0 is (0, 3)
    assert_eq!(sink[24 + 9 + 48 + 8], 3);
    assert_eq!(sink[24 + 89], 1);
    assert_eq!(&sink[24 + 97..24 + 97 + 8], &[2, 1, 0, 0, 0, 0, 0, 0]);
    assert_eq!(&sink[24 + 97 + 24..24 + 97 + 32], &[6, 3, 0, 0, 0, 0, 0, 0]);
}

#[test]
fn packed_indexes_are_read_at_their_offsets() {
    let urs = srs(64);
    let a = caml_pasta_fp_plonk_5_wires_index_create(&three_gates(), 1, &urs, endo()).unwrap();
    let mut v = caml_pasta_fp_plonk_5_wires_gate_vector_create();
    caml_pasta_fp_plonk_5_wires_gate_vector_add(&mut v, gate(GateType::Endomul4, 0, vec![fp(3)]));
    let b = caml_pasta_fp_plonk_5_wires_index_create(&v, 0, &urs, endo()).unwrap();
    let mut sink: Vec<u8> = vec![9, 9, 9];
    caml_pasta_fp_plonk_5_wires_index_write(Some(true), &a, &mut sink);
    let middle = sink.len() as u64;
    caml_pasta_fp_plonk_5_wires_index_write(None, &b, &mut sink);
    let ra = caml_pasta_fp_plonk_5_wires_index_read(Some(3), &urs, endo(), &sink).unwrap();
    let rb = caml_pasta_fp_plonk_5_wires_index_read(Some(middle), &urs, endo(), &sink).unwrap();
    assert!(same_index(&a, &ra));
    assert!(same_index(&b, &rb));
    assert!(!same_index(&a, &rb));
}

#[test]
fn writing_without_append_replaces_the_sink() {
    let idx = caml_pasta_fp_plonk_5_wires_index_create(&three_gates(), 0, &srs(64), endo()).unwrap();
    let mut fresh: Vec<u8> = Vec::new();
    caml_pasta_fp_plonk_5_wires_index_write(None, &idx, &mut fresh);
    let mut sink: Vec<u8> = vec![1, 2, 3, 4];
    caml_pasta_fp_plonk_5_wires_index_write(Some(false), &idx, &mut sink);
    assert_eq!(sink, fresh);
    let mut appended: Vec<u8> = vec![1, 2, 3, 4];
    caml_pasta_fp_plonk_5_wires_index_write(Some(true), &idx, &mut appended);
    assert_eq!(&appended[0..4], &[1, 2, 3, 4]);
    assert_eq!(&appended[4..], &fresh[..]);
}

#[test]
fn offset_past_the_end_is_an_io_error() {
    let idx = caml_pasta_fp_plonk_5_wires_index_create(&three_gates(), 0, &srs(64), endo()).unwrap();
    let mut sink: Vec<u8> = Vec::new();
    caml_pasta_fp_plonk_5_wires_index_write(None, &idx, &mut sink);
    let past = sink.len() as u64 + 1;
    assert!(matches!(
        caml_pasta_fp_plonk_5_wires_index_read(Some(past), &srs(64), endo(), &sink),
        Err(IndexError::IoError)
    ));
    assert!(matches!(
        caml_pasta_fp_plonk_5_wires_index_read(Some(sink.len() as u64), &srs(64), endo(), &sink),
        Err(IndexError::DecodeError)
    ));
}

#[test]
fn corrupted_streams_are_decode_errors() {
    let idx = caml_pasta_fp_plonk_5_wires_index_create(&three_gates(), 1, &srs(64), endo()).unwrap();
    let mut good: Vec<u8> = Vec::new();
    caml_pasta_fp_plonk_5_wires_index_write(None, &idx, &mut good);
    assert!(caml_pasta_fp_plonk_5_wires_index_read(None, &srs(64), endo(), &good).is_ok());
    // truncated
    let cut = &good[..good.len() - 1];
    assert!(matches!(caml_pasta_fp_plonk_5_wires_index_read(None, &srs(64), endo(), cut), Err(IndexError::DecodeError)));
    // unknown gate tag
    let mut bad_tag = good.clone();
    bad_tag[24] = 200;
    assert!(matches!(caml_pasta_fp_plonk_5_wires_index_read(None, &srs(64), endo(), &bad_tag), Err(IndexError::DecodeError)));
    // domain size that does not match how many gates there are
    let mut bad_domain = good.clone();
    bad_domain[8] = 8;
    assert!(matches!(caml_pasta_fp_plonk_5_wires_index_read(None, &srs(64), endo(), &bad_domain), Err(IndexError::DecodeError)));
    // more public inputs than gates
    let mut bad_public = good.clone();
    bad_public[0] = 9;
    assert!(matches!(caml_pasta_fp_plonk_5_wires_index_read(None, &srs(64), endo(), &bad_public), Err(IndexError::DecodeError)));
    // a wire pointing past the circuit (row of column 0 of gate 0)
    let mut bad_wire = good.clone();
    bad_wire[24 + 9] = 77;
    assert!(matches!(caml_pasta_fp_plonk_5_wires_index_read(None, &srs(64), endo(), &bad_wire), Err(IndexError::DecodeError)));
    // a huge coefficient count
    let mut bad_count = good.clone();
    bad_count[24 + 89 + 7] = 0xff;
    assert!(matches!(caml_pasta_fp_plonk_5_wires_index_read(None, &srs(64), endo(), &bad_count), Err(IndexError::DecodeError)));
    assert!(matches!(caml_pasta_fp_plonk_5_wires_index_read(None, &srs(64), endo(), &[]), Err(IndexError::DecodeError)));
}

#[test]
fn read_ignores_what_follows_the_index() {
    let idx = caml_pasta_fp_plonk_5_wires_index_create(&three_gates(), 1, &srs(64), endo()).unwrap();
    let mut sink: Vec<u8> = Vec::new();
    caml_pasta_fp_plonk_5_wires_index_write(None, &idx, &mut sink);
    sink.extend_from_slice(&[0xde, 0xad]);
    let back = caml_pasta_fp_plonk_5_wires_index_read(None, &srs(64), endo(), &sink).unwrap();
    assert!(same_index(&idx, &back));
    assert_eq!(back.endo_q, endo());
}
