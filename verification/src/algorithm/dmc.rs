//! Dynamic Markov Coding (Cormack & Horspool, 1987): a bitwise,
//! variable-order Markov predictor over a growing state graph.
//!
//! Each state has two outgoing transitions (for bit 0 and bit 1) carrying
//! visit counts; the next-bit probability is the smoothed ratio of those
//! counts. When a transition is well established and leads to a state that is
//! also reached from elsewhere, the target is cloned so the path gets its own
//! statistics. Growth freezes at a fixed node cap.

use vstd::prelude::*;

verus! {

/// Node cap: growth stops here.
pub const MAXN: usize = 0x40_0000;

/// A state: its successors after a 0 / 1 and the visit counts of both edges.
#[derive(Clone, Copy)]
pub struct DmcNode {
    pub n0: u32,
    pub n1: u32,
    pub c0: u32,
    pub c1: u32,
}

/// The abstract predictor.
pub struct DmcView {
    pub nodes: Seq<DmcNode>,
    pub n: u32,
    pub curr: u32,
    pub t1: u32,
    pub t2: u32,
}

/// The successor of `nd` after bit `b`.
pub open spec fn node_next(nd: DmcNode, b: int) -> u32 {
    if b == 0 { nd.n0 } else { nd.n1 }
}

/// The visit count of `nd`'s edge for bit `b`.
pub open spec fn node_count(nd: DmcNode, b: int) -> u32 {
    if b == 0 { nd.c0 } else { nd.c1 }
}

/// Node `i` of the initial graph: a depth-8 binary tree over the bits of a
/// byte whose leaves return to the root.
pub open spec fn initial_node(i: int) -> DmcNode {
    if i < 127 {
        DmcNode { n0: (2 * i + 1) as u32, n1: (2 * i + 2) as u32, c0: 0, c1: 0 }
    } else {
        DmcNode { n0: 0, n1: 0, c0: 0, c1: 0 }
    }
}

/// The fresh predictor with clone thresholds `t1`, `t2`.
pub open spec fn dmc_init(t1: u32, t2: u32) -> DmcView {
    DmcView { nodes: Seq::new(255, |i: int| initial_node(i)), n: 255, curr: 0, t1, t2 }
}

/// The graph's invariant.
pub open spec fn dmc_ok(v: DmcView) -> bool {
    &&& v.n == v.nodes.len()
    &&& v.n <= MAXN
    &&& v.curr < v.n
    &&& forall|i: int| 0 <= i < v.n ==> (#[trigger] v.nodes[i]).n0 < v.n && v.nodes[i].n1 < v.n
}

/// The smoothed probability of a 1 at the current state, in [1, 4095]:
/// (c1 + 1/2) / (c0 + c1 + 1) at 12 bits.
pub open spec fn dmc_p(v: DmcView) -> int {
    let nd = v.nodes[v.curr as int];
    let p = ((2 * nd.c1 + 1) * 2048) / (nd.c0 + nd.c1 + 1);
    if p < 1 { 1 } else if p > 4095 { 4095 } else { p }
}

/// Whether observing `bit` clones the target of the taken edge.
pub open spec fn dmc_clones(v: DmcView, bit: int) -> bool {
    let nd = v.nodes[v.curr as int];
    let t = v.nodes[node_next(nd, bit) as int];
    let edge = node_count(nd, bit);
    edge >= v.t1 && t.c0 + t.c1 >= edge + v.t2 && v.n < MAXN
}

/// Whether observing `bit` stays within 32-bit counts (and never divides by
/// zero when cloning).
pub open spec fn dmc_safe(v: DmcView, bit: int) -> bool {
    let nd = v.nodes[v.curr as int];
    let t = v.nodes[node_next(nd, bit) as int];
    let edge = node_count(nd, bit);
    &&& node_count(nd, bit) < u32::MAX
    &&& t.c0 + t.c1 <= u32::MAX
    &&& (edge >= v.t1 ==> edge + v.t2 <= u32::MAX)
    &&& (dmc_clones(v, bit) ==> t.c0 + t.c1 > 0)
}

/// `nd` with its edge for bit `b` leading to `to`.
pub open spec fn redirect(nd: DmcNode, b: int, to: u32) -> DmcNode {
    if b == 0 { DmcNode { n0: to, ..nd } } else { DmcNode { n1: to, ..nd } }
}

/// `nd` with its edge for bit `b` counted once more.
pub open spec fn bump(nd: DmcNode, b: int) -> DmcNode {
    if b == 0 { DmcNode { c0: (nd.c0 + 1) as u32, ..nd } } else { DmcNode { c1: (nd.c1 + 1) as u32, ..nd } }
}

/// The predictor after observing `bit`: clone the target when due, count
/// the edge, move along it.
pub open spec fn dmc_update(v: DmcView, bit: int) -> DmcView {
    let s = v.curr as int;
    let nd = v.nodes[s];
    let next = node_next(nd, bit);
    let edge = node_count(nd, bit);
    if dmc_clones(v, bit) {
        let t = v.nodes[next as int];
        let tot = t.c0 + t.c1;
        let mc0 = (t.c0 * edge / tot) as u32;
        let mc1 = (t.c1 * edge / tot) as u32;
        let nodes1 = v.nodes.update(next as int, DmcNode { c0: (t.c0 - mc0) as u32, c1: (t.c1 - mc1) as u32, ..t })
            .push(DmcNode { n0: t.n0, n1: t.n1, c0: mc0, c1: mc1 });
        DmcView {
            nodes: nodes1.update(s, bump(redirect(nodes1[s], bit, v.n), bit)),
            n: (v.n + 1) as u32,
            curr: v.n,
            ..v
        }
    } else {
        DmcView { nodes: v.nodes.update(s, bump(nd, bit)), curr: next, ..v }
    }
}

proof fn lemma_share(c: int, edge: int, tot: int)
    requires
        0 <= c,
        0 <= edge,
        edge <= tot,
        0 < tot,
    ensures
        c * edge / tot <= c,
{
    assert(c * edge <= c * tot) by (nonlinear_arith)
        requires 0 <= c, edge <= tot;
    assert(c * edge / tot <= c * tot / tot) by (nonlinear_arith)
        requires c * edge <= c * tot, 0 < tot;
    assert(c * tot / tot == c) by (nonlinear_arith)
        requires 0 < tot;
}

/// Dynamic Markov model.
pub struct Dmc {
    nodes: Vec<DmcNode>,
    n: u32,
    curr: u32,
    t1: u32,
    t2: u32,
}

impl Dmc {
    /// The abstract predictor.
    pub closed spec fn view(&self) -> DmcView {
        DmcView { nodes: self.nodes@, n: self.n, curr: self.curr, t1: self.t1, t2: self.t2 }
    }

    /// The graph's invariant.
    pub open spec fn wf(&self) -> bool {
        dmc_ok(self@)
    }

    /// A fresh predictor: an order-0 byte tree. `t1` / `t2` are the clone
    /// thresholds (small values clone aggressively).
    pub fn new(t1: u32, t2: u32) -> (d: Self)
        ensures
            d@ == dmc_init(t1, t2),
            d.wf(),
    {
        let mut nodes: Vec<DmcNode> = Vec::new();
        let mut k: u32 = 0;
        while k < 8
            invariant
                k <= 8,
                nodes@.len() == (if k == 0 { 0int } else if k == 1 { 1int } else if k == 2 { 3int } else if k == 3 { 7int }
                    else if k == 4 { 15int } else if k == 5 { 31int } else if k == 6 { 63int } else if k == 7 { 127int } else { 255int }),
                forall|i: int| 0 <= i < nodes@.len() ==> #[trigger] nodes@[i] == initial_node(i),
            decreases 8 - k,
        {
            let width: u32 = 1u32 << k;
            proof {
                assert(width == (if k == 0 { 1u32 } else if k == 1 { 2u32 } else if k == 2 { 4u32 } else if k == 3 { 8u32 }
                    else if k == 4 { 16u32 } else if k == 5 { 32u32 } else if k == 6 { 64u32 } else { 128u32 })) by (bit_vector)
                    requires width == 1u32 << k, k < 8;
            }
            let base_k: u32 = width - 1;
            let base_k1: u32 = 2 * width - 1;
            let mut p: u32 = 0;
            while p < width
                invariant
                    k < 8,
                    p <= width,
                    width <= 128,
                    base_k == width - 1,
                    base_k1 == 2 * width - 1,
                    nodes@.len() == base_k + p,
                    k < 7 ==> base_k + width <= 127,
                    k == 7 ==> base_k == 127,
                    forall|i: int| 0 <= i < nodes@.len() ==> #[trigger] nodes@[i] == initial_node(i),
                decreases width - p,
            {
                let nd = if k < 7 {
                    DmcNode { n0: base_k1 + p * 2, n1: base_k1 + p * 2 + 1, c0: 0, c1: 0 }
                } else {
                    DmcNode { n0: 0, n1: 0, c0: 0, c1: 0 }
                };
                nodes.push(nd);
                p += 1;
            }
            k += 1;
        }
        let n = nodes.len() as u32;
        let d = Dmc { nodes, n, curr: 0, t1, t2 };
        assert(d@.nodes =~= dmc_init(t1, t2).nodes);
        d
    }

    /// The smoothed probability of a 1 at the current state as a stretched
    /// logit: `stretch[p]` for the 12-bit probability `p`.
    pub fn predict(&self, stretch: &[i32]) -> (r: i32)
        requires
            self.wf(),
            stretch@.len() >= 4096,
        ensures
            r == stretch@[dmc_p(self@)],
    {
        let s = self.curr as usize;
        let nd = self.nodes[s];
        let c0 = nd.c0 as u64;
        let c1 = nd.c1 as u64;
        assert((2 * c1 + 1) * 2048 / (c0 + c1 + 1) <= 4096) by (nonlinear_arith)
            requires c0 >= 0, c1 >= 0;
        let mut p = (((2 * c1 + 1) * 2048) / (c0 + c1 + 1)) as i32;
        if p < 1 {
            p = 1;
        }
        if p > 4095 {
            p = 4095;
        }
        stretch[p as usize]
    }

    /// Whether `update(bit)` keeps every count within 32 bits.
    pub fn safe_to_update(&self, bit: i32) -> (r: bool)
        requires
            self.wf(),
            0 <= bit <= 1,
        ensures
            r == dmc_safe(self@, bit as int),
    {
        let nd = self.nodes[self.curr as usize];
        let b = bit as usize;
        let next = if b == 0 { nd.n0 } else { nd.n1 };
        let edge = if b == 0 { nd.c0 } else { nd.c1 };
        let t = self.nodes[next as usize];
        let tot = t.c0 as u64 + t.c1 as u64;
        if edge == u32::MAX || tot > u32::MAX as u64 {
            return false;
        }
        if edge >= self.t1 && edge as u64 + self.t2 as u64 > u32::MAX as u64 {
            return false;
        }
        let clones = edge >= self.t1 && tot >= edge as u64 + self.t2 as u64 && (self.n as usize) < MAXN;
        !(clones && tot == 0)
    }

    /// Observe `bit`: clone the target when due, count the edge, advance.
    pub fn update(&mut self, bit: i32)
        requires
            old(self).wf(),
            0 <= bit <= 1,
            dmc_safe(old(self)@, bit as int),
        ensures
            final(self).wf(),
            final(self)@ == dmc_update(old(self)@, bit as int),
    {
        let ghost v = self@;
        let s = self.curr as usize;
        let b = bit as usize;
        let nd = self.nodes[s];
        let next = if b == 0 { nd.n0 } else { nd.n1 };
        let nu = next as usize;
        let edge = if b == 0 { nd.c0 } else { nd.c1 };
        let t = self.nodes[nu];
        let tot = t.c0 + t.c1;
        let target = if edge >= self.t1 && tot >= edge + self.t2 && (self.n as usize) < MAXN {
            assert((t.c0 as u64) * (edge as u64) <= 0xffff_ffff * 0xffff_ffff && (t.c1 as u64) * (edge as u64) <= 0xffff_ffff * 0xffff_ffff) by (nonlinear_arith)
                requires t.c0 <= 0xffff_ffffu32, t.c1 <= 0xffff_ffffu32, edge <= 0xffff_ffffu32;
            let mc0 = (t.c0 as u64 * edge as u64 / tot as u64) as u32;
            let mc1 = (t.c1 as u64 * edge as u64 / tot as u64) as u32;
            proof {
                lemma_share(t.c0 as int, edge as int, tot as int);
                lemma_share(t.c1 as int, edge as int, tot as int);
            }
            self.nodes.set(nu, DmcNode { n0: t.n0, n1: t.n1, c0: t.c0 - mc0, c1: t.c1 - mc1 });
            let m = self.n;
            self.nodes.push(DmcNode { n0: t.n0, n1: t.n1, c0: mc0, c1: mc1 });
            let cur = self.nodes[s];
            let red = if b == 0 { DmcNode { n0: m, ..cur } } else { DmcNode { n1: m, ..cur } };
            self.nodes.set(s, red);
            self.n = self.n + 1;
            m
        } else {
            next
        };
        let cur = self.nodes[s];
        let bumped = if b == 0 { DmcNode { c0: cur.c0 + 1, ..cur } } else { DmcNode { c1: cur.c1 + 1, ..cur } };
        self.nodes.set(s, bumped);
        self.curr = target;
        assert(self@.nodes =~= dmc_update(v, bit as int).nodes);
    }
}

} // verus!
