//! Memory-access instrumentation of a wasm instruction sequence: before every
//! linear-memory load or store, insert a call `track(addr + offset, size, rw)`
//! that reports the effective address, the access width and whether it is a
//! write, leaving the operand stack as it was.

use vstd::prelude::*;

verus! {

/// Value types of locals and stored values.
#[derive(Clone, Copy, Debug, PartialEq, Eq, Structural)]
pub enum ValType {
    I32,
    I64,
    F32,
    F64,
    V128,
}

/// The access kinds of loads (`I32From8` loads 8 bits into an i32, and so on).
#[derive(Clone, Copy, Debug, PartialEq, Eq, Structural)]
pub enum LoadKind {
    I32,
    I64,
    F32,
    F64,
    V128,
    I32From8,
    I64From8,
    I32From16,
    I64From16,
    I64From32,
}

/// The access kinds of stores (`I32To8` stores the low 8 bits of an i32, and
/// so on).
#[derive(Clone, Copy, Debug, PartialEq, Eq, Structural)]
pub enum StoreKind {
    I32,
    I64,
    F32,
    F64,
    V128,
    I32To8,
    I32To16,
    I64To8,
    I64To16,
    I64To32,
}

/// The instructions the instrumentation reads or writes; every other
/// instruction is `Other` and passes through unchanged.
#[derive(Clone, Copy, Debug, PartialEq, Eq, Structural)]
pub enum Instr {
    Load { kind: LoadKind, offset: u32 },
    Store { kind: StoreKind, offset: u32 },
    LocalGet(u32),
    LocalSet(u32),
    LocalTee(u32),
    ConstI32(i32),
    AddI32,
    Call(u32),
    Other(u32),
}

/// The imported tracking function and the scratch locals the inserted code
/// uses: the address and one stash per value type.
#[derive(Clone, Copy, Debug, PartialEq, Eq, Structural)]
pub struct Temps {
    pub track: u32,
    pub addr: u32,
    pub vi32: u32,
    pub vi64: u32,
    pub vf32: u32,
    pub vf64: u32,
}

/// Bytes read by a load of kind `k`.
pub open spec fn load_bytes(k: LoadKind) -> u32 {
    match k {
        LoadKind::I32 => 4,
        LoadKind::I64 => 8,
        LoadKind::F32 => 4,
        LoadKind::F64 => 8,
        LoadKind::V128 => 16,
        LoadKind::I32From8 | LoadKind::I64From8 => 1,
        LoadKind::I32From16 | LoadKind::I64From16 => 2,
        LoadKind::I64From32 => 4,
    }
}

/// Bytes written by a store of kind `k`, and the type of the stored value.
pub open spec fn store_spec(k: StoreKind) -> (u32, ValType) {
    match k {
        StoreKind::I32 => (4, ValType::I32),
        StoreKind::I64 => (8, ValType::I64),
        StoreKind::F32 => (4, ValType::F32),
        StoreKind::F64 => (8, ValType::F64),
        StoreKind::V128 => (16, ValType::V128),
        StoreKind::I32To8 => (1, ValType::I32),
        StoreKind::I32To16 => (2, ValType::I32),
        StoreKind::I64To8 => (1, ValType::I64),
        StoreKind::I64To16 => (2, ValType::I64),
        StoreKind::I64To32 => (4, ValType::I64),
    }
}

/// The stash local for a value of type `v` (the i32 one for anything else).
pub open spec fn stash(t: Temps, v: ValType) -> u32 {
    match v {
        ValType::I64 => t.vi64,
        ValType::F32 => t.vf32,
        ValType::F64 => t.vf64,
        _ => t.vi32,
    }
}

/// Whether `x` is a load.
pub open spec fn is_load(x: Instr) -> bool {
    x matches Instr::Load { .. }
}

/// Whether `x` is a store.
pub open spec fn is_store(x: Instr) -> bool {
    x matches Instr::Store { .. }
}

/// What instruction `x` becomes: a load is preceded by
/// `tee addr; get addr; const offset; add; const size; const 0; call track`,
/// a store by `set stash; tee addr; get addr; const offset; add; const size;
/// const 1; call track; get stash`; anything else stays alone.
pub open spec fn expand(x: Instr, t: Temps) -> Seq<Instr> {
    match x {
        Instr::Load { kind, offset } => seq![
            Instr::LocalTee(t.addr),
            Instr::LocalGet(t.addr),
            Instr::ConstI32(offset as i32),
            Instr::AddI32,
            Instr::ConstI32(load_bytes(kind) as i32),
            Instr::ConstI32(0),
            Instr::Call(t.track),
            x,
        ],
        Instr::Store { kind, offset } => {
            let v = stash(t, store_spec(kind).1);
            seq![
                Instr::LocalSet(v),
                Instr::LocalTee(t.addr),
                Instr::LocalGet(t.addr),
                Instr::ConstI32(offset as i32),
                Instr::AddI32,
                Instr::ConstI32(store_spec(kind).0 as i32),
                Instr::ConstI32(1),
                Instr::Call(t.track),
                Instr::LocalGet(v),
                x,
            ]
        },
        _ => seq![x],
    }
}

/// The instrumented form of sequence `b`.
pub open spec fn instrument_spec(b: Seq<Instr>, t: Temps) -> Seq<Instr>
    decreases b.len(),
{
    if b.len() == 0 {
        Seq::empty()
    } else {
        expand(b[0], t) + instrument_spec(b.drop_first(), t)
    }
}

/// Undo the instrumentation: every load or store preceded by exactly the
/// code that instrumenting it inserts loses that code.
pub open spec fn strip(r: Seq<Instr>, t: Temps) -> Seq<Instr>
    decreases r.len(),
{
    if r.len() == 0 {
        Seq::empty()
    } else if r.len() >= 8 && is_load(r[7]) && r.subrange(0, 8) == expand(r[7], t) {
        seq![r[7]] + strip(r.subrange(8, r.len() as int), t)
    } else if r.len() >= 10 && is_store(r[9]) && r.subrange(0, 10) == expand(r[9], t) {
        seq![r[9]] + strip(r.subrange(10, r.len() as int), t)
    } else {
        seq![r[0]] + strip(r.subrange(1, r.len() as int), t)
    }
}

/// In an instrumented sequence every load is preceded by at least seven
/// instructions and every store by at least nine.
proof fn lemma_no_early_access(b: Seq<Instr>, t: Temps)
    ensures
        forall|i: int| 0 <= i < instrument_spec(b, t).len() && is_load(#[trigger] instrument_spec(b, t)[i]) ==> i >= 7,
        forall|i: int| 0 <= i < instrument_spec(b, t).len() && is_store(#[trigger] instrument_spec(b, t)[i]) ==> i >= 9,
    decreases b.len(),
{
    if b.len() > 0 {
        lemma_no_early_access(b.drop_first(), t);
        let e = expand(b[0], t);
        let rest = instrument_spec(b.drop_first(), t);
        let r = instrument_spec(b, t);
        assert(r == e + rest);
        assert forall|i: int| 0 <= i < r.len() && is_load(#[trigger] r[i]) implies i >= 7 by {
            if i >= e.len() {
                assert(r[i] == rest[i - e.len()]);
            }
        }
        assert forall|i: int| 0 <= i < r.len() && is_store(#[trigger] r[i]) implies i >= 9 by {
            if i >= e.len() {
                assert(r[i] == rest[i - e.len()]);
            }
        }
    }
}

/// Stripping undoes instrumenting.
pub proof fn lemma_strip_instrument(b: Seq<Instr>, t: Temps)
    ensures
        strip(instrument_spec(b, t), t) == b,
    decreases b.len(),
{
    if b.len() > 0 {
        let x = b[0];
        let e = expand(x, t);
        let rest = instrument_spec(b.drop_first(), t);
        let r = instrument_spec(b, t);
        assert(r == e + rest);
        lemma_strip_instrument(b.drop_first(), t);
        lemma_no_early_access(b.drop_first(), t);
        if is_load(x) {
            assert(r.subrange(0, 8) =~= e);
            assert(r.subrange(8, r.len() as int) =~= rest);
        } else if is_store(x) {
            assert(r[7] == e[7]);
            assert(!is_load(r[7]));
            assert(r.subrange(0, 10) =~= e);
            assert(r.subrange(10, r.len() as int) =~= rest);
        } else {
            assert(e.len() == 1);
            if r.len() >= 8 {
                assert(r[7] == rest[6]);
            }
            if r.len() >= 10 {
                assert(r[9] == rest[8]);
            }
            assert(r.subrange(1, r.len() as int) =~= rest);
        }
        assert(seq![x] + b.drop_first() =~= b);
    }
}

proof fn lemma_instrument_push(b: Seq<Instr>, x: Instr, t: Temps)
    ensures
        instrument_spec(b.push(x), t) == instrument_spec(b, t) + expand(x, t),
    decreases b.len(),
{
    if b.len() == 0 {
        let bx = b.push(x);
        assert(bx.drop_first() =~= Seq::<Instr>::empty());
        assert(bx[0] == x);
        assert(instrument_spec(bx.drop_first(), t) == Seq::<Instr>::empty());
        assert(instrument_spec(bx, t) == expand(x, t) + instrument_spec(bx.drop_first(), t));
        assert(expand(x, t) + Seq::<Instr>::empty() =~= expand(x, t));
        assert(instrument_spec(b, t) == Seq::<Instr>::empty());
        assert(Seq::<Instr>::empty() + expand(x, t) =~= expand(x, t));
    } else {
        assert(b.push(x).drop_first() =~= b.drop_first().push(x));
        lemma_instrument_push(b.drop_first(), x, t);
        assert(instrument_spec(b.push(x), t) =~= instrument_spec(b, t) + expand(x, t));
    }
}

/// Every memory access reports the number of bytes it touches: a full-width
/// load or store moves a whole value (4 bytes for i32 and f32, 8 for i64 and
/// f64, 16 for v128), a narrow one the 1, 2 or 4 bytes its name gives; a load
/// reports the same width as the store that writes the same bytes; and the
/// instrumented code hands exactly that width to the tracking call.
pub proof fn lemma_access_widths(k: LoadKind, offset: u32, t: Temps)
    ensures
        load_bytes(LoadKind::I32) == 4,
        load_bytes(LoadKind::F32) == 4,
        load_bytes(LoadKind::I64) == 8,
        load_bytes(LoadKind::F64) == 8,
        load_bytes(LoadKind::V128) == 16,
        load_bytes(LoadKind::I32From8) == 1,
        load_bytes(LoadKind::I64From8) == 1,
        load_bytes(LoadKind::I32From16) == 2,
        load_bytes(LoadKind::I64From16) == 2,
        load_bytes(LoadKind::I64From32) == 4,
        store_spec(StoreKind::I32).0 == 4,
        store_spec(StoreKind::F32).0 == 4,
        store_spec(StoreKind::I64).0 == 8,
        store_spec(StoreKind::F64).0 == 8,
        store_spec(StoreKind::V128).0 == 16,
        store_spec(StoreKind::I32To8).0 == 1,
        store_spec(StoreKind::I64To8).0 == 1,
        store_spec(StoreKind::I32To16).0 == 2,
        store_spec(StoreKind::I64To16).0 == 2,
        store_spec(StoreKind::I64To32).0 == 4,
        load_bytes(LoadKind::I32) == store_spec(StoreKind::I32).0,
        load_bytes(LoadKind::F32) == store_spec(StoreKind::F32).0,
        load_bytes(LoadKind::I64) == store_spec(StoreKind::I64).0,
        load_bytes(LoadKind::F64) == store_spec(StoreKind::F64).0,
        load_bytes(LoadKind::V128) == store_spec(StoreKind::V128).0,
        load_bytes(LoadKind::I32From8) == store_spec(StoreKind::I32To8).0,
        load_bytes(LoadKind::I32From16) == store_spec(StoreKind::I32To16).0,
        load_bytes(LoadKind::I64From32) == store_spec(StoreKind::I64To32).0,
        1 <= load_bytes(k) <= 16,
        expand(Instr::Load { kind: k, offset }, t)[4] == Instr::ConstI32(load_bytes(k) as i32),
        expand(Instr::Load { kind: k, offset }, t)[5] == Instr::ConstI32(0),
{
}

/// Bytes read by a load of kind `k`.
pub fn load_size(k: LoadKind) -> (r: u32)
    ensures
        r == load_bytes(k),
{
    match k {
        LoadKind::I32 => 4,
        LoadKind::I64 => 8,
        LoadKind::F32 => 4,
        LoadKind::F64 => 8,
        LoadKind::V128 => 16,
        LoadKind::I32From8 | LoadKind::I64From8 => 1,
        LoadKind::I32From16 | LoadKind::I64From16 => 2,
        LoadKind::I64From32 => 4,
    }
}

/// Bytes written by a store of kind `k`, and the type of the stored value.
pub fn store_info(k: StoreKind) -> (r: (u32, ValType))
    ensures
        r == store_spec(k),
{
    match k {
        StoreKind::I32 => (4, ValType::I32),
        StoreKind::I64 => (8, ValType::I64),
        StoreKind::F32 => (4, ValType::F32),
        StoreKind::F64 => (8, ValType::F64),
        StoreKind::V128 => (16, ValType::V128),
        StoreKind::I32To8 => (1, ValType::I32),
        StoreKind::I32To16 => (2, ValType::I32),
        StoreKind::I64To8 => (1, ValType::I64),
        StoreKind::I64To16 => (2, ValType::I64),
        StoreKind::I64To32 => (4, ValType::I64),
    }
}

impl Temps {
    /// The stash local for a value of type `v`.
    pub fn val_local(&self, v: ValType) -> (r: u32)
        ensures
            r == stash(*self, v),
    {
        match v {
            ValType::I64 => self.vi64,
            ValType::F32 => self.vf32,
            ValType::F64 => self.vf64,
            _ => self.vi32,
        }
    }
}

/// Instrument one instruction sequence.
pub fn instrument_block(block: &Vec<Instr>, t: &Temps) -> (r: Vec<Instr>)
    ensures
        r@ == instrument_spec(block@, *t),
        strip(r@, *t) == block@,
{
    let mut out: Vec<Instr> = Vec::new();
    let mut i: usize = 0;
    while i < block.len()
        invariant
            i <= block@.len(),
            out@ == instrument_spec(block@.subrange(0, i as int), *t),
        decreases block@.len() - i,
    {
        let x = block[i];
        proof {
            lemma_instrument_push(block@.subrange(0, i as int), x, *t);
            assert(block@.subrange(0, i as int).push(x) =~= block@.subrange(0, i + 1));
        }
        match x {
            Instr::Load { kind, offset } => {
                let sz = load_size(kind);
                out.push(Instr::LocalTee(t.addr));
                out.push(Instr::LocalGet(t.addr));
                out.push(Instr::ConstI32(offset as i32));
                out.push(Instr::AddI32);
                out.push(Instr::ConstI32(sz as i32));
                out.push(Instr::ConstI32(0));
                out.push(Instr::Call(t.track));
                out.push(x);
            },
            Instr::Store { kind, offset } => {
                let (sz, vt) = store_info(kind);
                let vl = t.val_local(vt);
                out.push(Instr::LocalSet(vl));
                out.push(Instr::LocalTee(t.addr));
                out.push(Instr::LocalGet(t.addr));
                out.push(Instr::ConstI32(offset as i32));
                out.push(Instr::AddI32);
                out.push(Instr::ConstI32(sz as i32));
                out.push(Instr::ConstI32(1));
                out.push(Instr::Call(t.track));
                out.push(Instr::LocalGet(vl));
                out.push(x);
            },
            _ => {
                out.push(x);
            },
        }
        assert(out@ =~= instrument_spec(block@.subrange(0, i + 1), *t));
        i += 1;
    }
    proof {
        assert(block@.subrange(0, block@.len() as int) =~= block@);
        lemma_strip_instrument(block@, *t);
    }
    out
}

} // verus!
