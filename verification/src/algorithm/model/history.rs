//! The coding history the contexts are computed from: the byte buffer, the
//! partial byte, the last bytes, words, line structure, bracket nesting and
//! the record-length detector.

use vstd::prelude::*;
use crate::algorithm::model::hashing::{hashk, hashk_spec, wsub};
use crate::algorithm::model::matcher::{buf_byte, buf_ok, byte_at};

verus! {

/// The abstract coding history.
pub struct HistView {
    pub buf: Seq<u8>,
    pub bufmask: u32,
    pub pos: u32,
    pub c0: i32,
    pub bitcount: i32,
    pub c4: u32,
    pub c1: i32,
    pub wordhash: u32,
    pub prevword: u32,
    pub prevword2: u32,
    pub prevword3: u32,
    pub run_len: u32,
    pub nest_stack: Seq<u8>,
    pub nest_depth: usize,
    pub col: u32,
    pub line_start: u32,
    pub prev_line_start: u32,
    pub prev2_line_start: u32,
    pub rpos: Seq<u32>,
    pub rlen: u32,
    pub rcount: i32,
    pub above_byte: u32,
    pub ind_pred: u32,
}

/// Exclusive upper bound of the partial byte `c0` after `bc` bits (it
/// carries a leading 1 above the bits seen).
pub open spec fn c0_limit(bc: i32) -> i32 {
    if bc <= 0 {
        2
    } else if bc == 1 {
        4
    } else if bc == 2 {
        8
    } else if bc == 3 {
        16
    } else if bc == 4 {
        32
    } else if bc == 5 {
        64
    } else if bc == 6 {
        128
    } else {
        256
    }
}

/// The history's invariant.
pub open spec fn hist_ok(h: HistView) -> bool {
    &&& buf_ok(h.buf, h.bufmask)
    &&& h.buf.len() <= 0x1000_0000
    &&& 0 <= h.bitcount <= 7
    &&& 1 <= h.c0 < c0_limit(h.bitcount)
    &&& 0 <= h.c1 <= 255
    &&& h.nest_stack.len() == 64
    &&& h.nest_depth <= 64
    &&& h.col <= 255
    &&& 1 <= h.run_len <= 65535
    &&& h.rpos.len() == 256
    &&& forall|i: int| 0 <= i < 256 ==> #[trigger] h.rpos[i] <= h.pos
    &&& 0 <= h.rcount <= 1024
    &&& h.above_byte <= 256
}

/// The byte `k` positions back.
pub open spec fn back(h: HistView, k: u32) -> u32 {
    buf_byte(h.buf, h.bufmask, wsub(h.pos, k)) as u32
}

/// The byte at absolute position `p`.
pub open spec fn at(h: HistView, p: u32) -> u32 {
    buf_byte(h.buf, h.bufmask, p) as u32
}

/// The innermost open bracket (0 when none).
pub open spec fn last_open(h: HistView) -> u32 {
    if h.nest_depth > 0 {
        h.nest_stack[h.nest_depth - 1] as u32
    } else {
        0
    }
}

/// Whether `b` is an ASCII letter or digit (a word byte).
pub open spec fn is_word_byte(b: u8) -> bool {
    (b >= 97 && b <= 122) || (b >= 65 && b <= 90) || (b >= 48 && b <= 57)
}

/// The history after one more bit.
pub open spec fn hist_learn(h: HistView, bit: i32) -> HistView {
    HistView { c0: (h.c0 << 1u32) | bit, bitcount: (h.bitcount + 1) as i32, ..h }
}

/// The history after appending a completed `byte` (partial byte unchanged).
pub open spec fn hist_push(h: HistView, byte: u8) -> HistView {
    let pos = (h.pos + 1) as u32;
    let opens = byte == 40 || byte == 91 || byte == 123;
    let closes = byte == 41 || byte == 93 || byte == 125;
    let d = (pos - h.rpos[byte as int]) as u32;
    HistView {
        buf: h.buf.update((h.pos & h.bufmask) as int, byte),
        pos,
        c4: (h.c4 << 8u32) | (byte as u32),
        run_len: if byte as i32 == h.c1 {
            if h.run_len < 65535 { (h.run_len + 1) as u32 } else { h.run_len }
        } else {
            1
        },
        c1: byte as i32,
        nest_stack: if opens && h.nest_depth < 64 { h.nest_stack.update(h.nest_depth as int, byte) } else { h.nest_stack },
        nest_depth: if opens && h.nest_depth < 64 {
            (h.nest_depth + 1) as usize
        } else if closes && h.nest_depth > 0 {
            (h.nest_depth - 1) as usize
        } else {
            h.nest_depth
        },
        col: if byte == 10 || byte == 13 { 0 } else if h.col < 255 { (h.col + 1) as u32 } else { h.col },
        line_start: if byte == 10 { pos } else { h.line_start },
        prev_line_start: if byte == 10 { h.line_start } else { h.prev_line_start },
        prev2_line_start: if byte == 10 { h.prev_line_start } else { h.prev2_line_start },
        rpos: h.rpos.update(byte as int, pos),
        rlen: if d == h.rlen || h.rcount > 0 { h.rlen } else { d },
        rcount: if d == h.rlen {
            if h.rcount < 1024 { (h.rcount + 1) as i32 } else { h.rcount }
        } else if h.rcount > 0 {
            (h.rcount - 1) as i32
        } else {
            1
        },
        wordhash: if is_word_byte(byte) { hashk_spec(h.wordhash, (byte | 0x20) as u32) } else { 0 },
        prevword: if !is_word_byte(byte) && h.wordhash != 0 { h.wordhash } else { h.prevword },
        prevword2: if !is_word_byte(byte) && h.wordhash != 0 { h.prevword } else { h.prevword2 },
        prevword3: if !is_word_byte(byte) && h.wordhash != 0 { h.prevword2 } else { h.prevword3 },
        ..h
    }
}

/// The history at the start of a new byte.
pub open spec fn hist_reset(h: HistView) -> HistView {
    HistView { c0: 1, bitcount: 0, ..h }
}

/// The empty history with a buffer of `size` bytes.
pub open spec fn hist_init(size: nat) -> HistView {
    HistView {
        buf: Seq::new(size, |i: int| 0u8),
        bufmask: (size - 1) as u32,
        pos: 0,
        c0: 1,
        bitcount: 0,
        c4: 0,
        c1: 0,
        wordhash: 0,
        prevword: 0,
        prevword2: 0,
        prevword3: 0,
        run_len: 1,
        nest_stack: Seq::new(64, |i: int| 0u8),
        nest_depth: 0,
        col: 0,
        line_start: 0,
        prev_line_start: 0,
        prev2_line_start: 0,
        rpos: Seq::new(256, |i: int| 0u32),
        rlen: 0,
        rcount: 0,
        above_byte: 256,
        ind_pred: 0,
    }
}

/// The coding history.
pub struct History {
    pub buf: Vec<u8>,
    pub bufmask: u32,
    pub pos: u32,
    pub c0: i32,
    pub bitcount: i32,
    pub c4: u32,
    pub c1: i32,
    pub wordhash: u32,
    pub prevword: u32,
    pub prevword2: u32,
    pub prevword3: u32,
    pub run_len: u32,
    pub nest_stack: Vec<u8>,
    pub nest_depth: usize,
    pub col: u32,
    pub line_start: u32,
    pub prev_line_start: u32,
    pub prev2_line_start: u32,
    pub rpos: Vec<u32>,
    pub rlen: u32,
    pub rcount: i32,
    pub above_byte: u32,
    pub ind_pred: u32,
}

impl History {
    pub open spec fn view(&self) -> HistView {
        HistView {
            buf: self.buf@,
            bufmask: self.bufmask,
            pos: self.pos,
            c0: self.c0,
            bitcount: self.bitcount,
            c4: self.c4,
            c1: self.c1,
            wordhash: self.wordhash,
            prevword: self.prevword,
            prevword2: self.prevword2,
            prevword3: self.prevword3,
            run_len: self.run_len,
            nest_stack: self.nest_stack@,
            nest_depth: self.nest_depth,
            col: self.col,
            line_start: self.line_start,
            prev_line_start: self.prev_line_start,
            prev2_line_start: self.prev2_line_start,
            rpos: self.rpos@,
            rlen: self.rlen,
            rcount: self.rcount,
            above_byte: self.above_byte,
            ind_pred: self.ind_pred,
        }
    }

    /// An empty history with a buffer of `size` bytes (a power of two).
    pub fn new(size: usize, mask: u32) -> (h: Self)
        requires
            1 <= size <= 0x1000_0000,
            mask as int == size - 1,
        ensures
            h@ == hist_init(size as nat),
            hist_ok(h@),
    {
        let h = History {
            buf: vec![0u8; size],
            bufmask: mask,
            pos: 0,
            c0: 1,
            bitcount: 0,
            c4: 0,
            c1: 0,
            wordhash: 0,
            prevword: 0,
            prevword2: 0,
            prevword3: 0,
            run_len: 1,
            nest_stack: vec![0u8; 64],
            nest_depth: 0,
            col: 0,
            line_start: 0,
            prev_line_start: 0,
            prev2_line_start: 0,
            rpos: vec![0u32; 256],
            rlen: 0,
            rcount: 0,
            above_byte: 256,
            ind_pred: 0,
        };
        assert(h@.buf =~= hist_init(size as nat).buf);
        assert(h@.nest_stack =~= hist_init(size as nat).nest_stack);
        assert(h@.rpos =~= hist_init(size as nat).rpos);
        h
    }

    /// The byte `k` positions back.
    pub fn back(&self, k: u32) -> (b: u32)
        requires
            hist_ok(self@),
        ensures
            b == back(self@, k),
            b < 256,
    {
        byte_at(&self.buf, self.bufmask, self.pos.wrapping_sub(k)) as u32
    }

    /// The byte at absolute position `p`.
    pub fn at(&self, p: u32) -> (b: u32)
        requires
            hist_ok(self@),
        ensures
            b == at(self@, p),
            b < 256,
    {
        byte_at(&self.buf, self.bufmask, p) as u32
    }

    /// The innermost open bracket (0 when none).
    pub fn last_open(&self) -> (b: u32)
        requires
            hist_ok(self@),
        ensures
            b == last_open(self@),
            b < 256,
    {
        if self.nest_depth > 0 {
            self.nest_stack[self.nest_depth - 1] as u32
        } else {
            0
        }
    }

    /// Shift `bit` into the partial byte.
    pub fn learn(&mut self, bit: i32)
        requires
            hist_ok(old(self)@),
            0 <= bit <= 1,
        ensures
            final(self)@ == hist_learn(old(self)@, bit),
            final(self)@.c0 == 2 * old(self)@.c0 + bit,
            1 <= final(self)@.c0 < 2 * c0_limit(old(self)@.bitcount),
    {
        let c0 = self.c0;
        proof {
            assert((c0 << 1u32) | bit == 2 * c0 + bit) by (bit_vector)
                requires 1 <= c0 < 256, 0 <= bit <= 1;
        }
        self.c0 = (self.c0 << 1) | bit;
        self.bitcount += 1;
    }

    /// Start a new byte.
    pub fn reset(&mut self)
        ensures
            final(self)@ == hist_reset(old(self)@),
    {
        self.c0 = 1;
        self.bitcount = 0;
    }

    /// Append the completed `byte` to the history.
    pub fn push(&mut self, byte: u8)
        requires
            hist_ok(old(self)@),
            old(self)@.pos < 0xffff_ffff,
        ensures
            final(self)@ == hist_push(old(self)@, byte),
            hist_ok(hist_reset(final(self)@)),
    {
        proof {
            let p = self.pos;
            let m = self.bufmask;
            crate::algorithm::model::matcher::lemma_mask_le(p, m);
        }
        let bp = (self.pos & self.bufmask) as usize;
        self.buf.set(bp, byte);
        self.pos += 1;
        self.c4 = (self.c4 << 8) | byte as u32;
        if byte as i32 == self.c1 {
            if self.run_len < 65535 {
                self.run_len += 1;
            }
        } else {
            self.run_len = 1;
        }
        self.c1 = byte as i32;
        if byte == 40 || byte == 91 || byte == 123 {
            if self.nest_depth < 64 {
                let d = self.nest_depth;
                self.nest_stack.set(d, byte);
                self.nest_depth += 1;
            }
        } else if byte == 41 || byte == 93 || byte == 125 {
            if self.nest_depth > 0 {
                self.nest_depth -= 1;
            }
        }
        if byte == 10 || byte == 13 {
            self.col = 0;
        } else if self.col < 255 {
            self.col += 1;
        }
        if byte == 10 {
            self.prev2_line_start = self.prev_line_start;
            self.prev_line_start = self.line_start;
            self.line_start = self.pos;
        }
        let bi = byte as usize;
        let d = self.pos - self.rpos[bi];
        self.rpos.set(bi, self.pos);
        if d == self.rlen {
            if self.rcount < 1024 {
                self.rcount += 1;
            }
        } else if self.rcount > 0 {
            self.rcount -= 1;
        } else {
            self.rlen = d;
            self.rcount = 1;
        }
        if (byte >= 97 && byte <= 122) || (byte >= 65 && byte <= 90) || (byte >= 48 && byte <= 57) {
            self.wordhash = hashk(self.wordhash, (byte | 0x20) as u32);
        } else {
            if self.wordhash != 0 {
                self.prevword3 = self.prevword2;
                self.prevword2 = self.prevword;
                self.prevword = self.wordhash;
            }
            self.wordhash = 0;
        }
    }
}

} // verus!
