//! Memory-access instrumentation.

use lib::instrument::{instrument_block, load_size, store_info, Instr, LoadKind, StoreKind, Temps, ValType};

fn temps() -> Temps {
    Temps { track: 9, addr: 1, vi32: 2, vi64: 3, vf32: 4, vf64: 5 }
}

#[test]
fn loads_and_stores_are_tracked() {
    let ld = Instr::Load { kind: LoadKind::I32From8, offset: 16 };
    let st = Instr::Store { kind: StoreKind::I64, offset: 4 };
    let block = vec![Instr::Other(0), ld, st, Instr::Other(7)];
    let r = instrument_block(&block, &temps());
    assert_eq!(
        r,
        vec![
            Instr::Other(0),
            Instr::LocalTee(1),
            Instr::LocalGet(1),
            Instr::ConstI32(16),
            Instr::AddI32,
            Instr::ConstI32(1),
            Instr::ConstI32(0),
            Instr::Call(9),
            ld,
            Instr::LocalSet(3),
            Instr::LocalTee(1),
            Instr::LocalGet(1),
            Instr::ConstI32(4),
            Instr::AddI32,
            Instr::ConstI32(8),
            Instr::ConstI32(1),
            Instr::Call(9),
            Instr::LocalGet(3),
            st,
            Instr::Other(7),
        ]
    );
}

#[test]
fn vector_store_stashes_in_the_i32_local() {
    let st = Instr::Store { kind: StoreKind::V128, offset: 0 };
    let r = instrument_block(&vec![st], &temps());
    assert_eq!(r.len(), 10);
    assert_eq!(r[0], Instr::LocalSet(2));
    assert_eq!(r[5], Instr::ConstI32(16));
}

#[test]
fn other_instructions_pass_through() {
    let block = vec![Instr::Other(1), Instr::LocalGet(4), Instr::Call(2), Instr::AddI32];
    assert_eq!(instrument_block(&block, &temps()), block);
    assert_eq!(instrument_block(&vec![], &temps()), vec![]);
}

#[test]
fn access_widths() {
    assert_eq!(load_size(LoadKind::I64), 8);
    assert_eq!(load_size(LoadKind::V128), 16);
    assert_eq!(load_size(LoadKind::I64From32), 4);
    assert_eq!(store_info(StoreKind::I32To16), (2, ValType::I32));
    assert_eq!(store_info(StoreKind::F64), (8, ValType::F64));
    assert_eq!(temps().val_local(ValType::F32), 4);
    assert_eq!(temps().val_local(ValType::V128), 2);
}
