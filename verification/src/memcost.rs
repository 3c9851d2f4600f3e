//! A fixed three-level set-associative LRU cache model for weighing memory
//! traffic: every access touches the 64-byte lines it spans; each level that
//! misses adds its penalty.

use vstd::prelude::*;

verus! {

/// Cache line size in bytes.
pub const LINE: usize = 64;
/// Level-1 size and associativity.
pub const L1_BYTES: usize = 0x8000;
pub const L1_WAYS: usize = 8;
/// Level-2 size and associativity.
pub const L2_BYTES: usize = 0x10_0000;
pub const L2_WAYS: usize = 8;
/// Level-3 size and associativity.
pub const L3_BYTES: usize = 0x200_0000;
pub const L3_WAYS: usize = 16;
/// Miss penalties (cycles) at each level; a level-3 miss goes to memory.
pub const PEN_L1: u64 = 14;
pub const PEN_L2: u64 = 40;
pub const PEN_L3: u64 = 200;

/// The abstract cache: `ways` slots per set, each with a tag (u64::MAX when
/// empty) and the clock of its last use.
pub struct CacheView {
    pub set_mask: u64,
    pub ways: usize,
    pub tags: Seq<u64>,
    pub age: Seq<u64>,
}

/// The first slot of the set holding `line`.
pub open spec fn set_base(c: CacheView, line: u64) -> int {
    (line & c.set_mask) as int * c.ways as int
}

/// The first way at or after `w` whose tag is `line` (`ways` when none).
pub open spec fn find_line(tags: Seq<u64>, base: int, ways: int, line: u64, w: int) -> int
    decreases ways - w,
{
    if w >= ways {
        ways
    } else if tags[base + w] == line {
        w
    } else {
        find_line(tags, base, ways, line, w + 1)
    }
}

/// The least recently used way, scanning from `w` with `best` so far (the
/// first one on ties).
pub open spec fn lru_way(age: Seq<u64>, base: int, ways: int, w: int, best: int) -> int
    decreases ways - w,
{
    if w >= ways {
        best
    } else if age[base + w] < age[base + best] {
        lru_way(age, base, ways, w + 1, w)
    } else {
        lru_way(age, base, ways, w + 1, best)
    }
}

/// Whether `line` is cached.
pub open spec fn cache_has(c: CacheView, line: u64) -> bool {
    find_line(c.tags, set_base(c, line), c.ways as int, line, 0) < c.ways
}

/// The cache after using `line` at time `clock`: a cached line is marked
/// used; otherwise it replaces the least recently used way of its set.
pub open spec fn cache_use(c: CacheView, line: u64, clock: u64) -> CacheView {
    let base = set_base(c, line);
    let w = find_line(c.tags, base, c.ways as int, line, 0);
    if w < c.ways {
        CacheView { age: c.age.update(base + w, clock), ..c }
    } else {
        let v = lru_way(c.age, base, c.ways as int, 1, 0);
        CacheView { tags: c.tags.update(base + v, line), age: c.age.update(base + v, clock), ..c }
    }
}

/// An empty cache of `sets` sets.
pub open spec fn cache_init(sets: nat, ways: usize) -> CacheView {
    CacheView {
        set_mask: (sets - 1) as u64,
        ways,
        tags: Seq::new((sets * ways) as nat, |i: int| u64::MAX),
        age: Seq::new((sets * ways) as nat, |i: int| 0u64),
    }
}

/// Whether `n` is a power of two.
pub open spec fn is_pow2(n: usize) -> bool {
    n > 0 && n & ((n - 1) as usize) == 0
}

/// The cache's shape.
pub open spec fn cache_ok(c: CacheView) -> bool {
    &&& c.ways >= 1
    &&& c.tags.len() == (c.set_mask + 1) * c.ways
    &&& c.age.len() == c.tags.len()
    &&& c.tags.len() <= usize::MAX
}

proof fn lemma_set_in_range(c: CacheView, line: u64)
    requires
        cache_ok(c),
    ensures
        0 <= set_base(c, line),
        set_base(c, line) + c.ways <= c.tags.len(),
{
    let m = c.set_mask;
    crate::algorithm::model::matcher::lemma_mask_le64(line, m);
    let s = (line & m) as int;
    assert(s * c.ways + c.ways <= (m + 1) * c.ways) by (nonlinear_arith)
        requires 0 <= s <= m, c.ways >= 1;
    assert(0 <= s * c.ways) by (nonlinear_arith)
        requires 0 <= s, c.ways >= 1;
}

proof fn lemma_find_range(tags: Seq<u64>, base: int, ways: int, line: u64, w: int)
    requires
        0 <= w <= ways,
    ensures
        w <= find_line(tags, base, ways, line, w) <= ways,
        find_line(tags, base, ways, line, w) < ways ==> tags[base + find_line(tags, base, ways, line, w)] == line,
    decreases ways - w,
{
    if w < ways && tags[base + w] != line {
        lemma_find_range(tags, base, ways, line, w + 1);
    }
}

proof fn lemma_lru_range(age: Seq<u64>, base: int, ways: int, w: int, best: int)
    requires
        0 <= best < ways,
        best < w,
    ensures
        0 <= lru_way(age, base, ways, w, best) < ways,
    decreases ways - w,
{
    if w < ways {
        if age[base + w] < age[base + best] {
            lemma_lru_range(age, base, ways, w + 1, w);
        } else {
            lemma_lru_range(age, base, ways, w + 1, best);
        }
    }
}

proof fn lemma_find_at_most(tags: Seq<u64>, base: int, ways: int, line: u64, w: int, v: int)
    requires
        0 <= w <= v < ways,
        tags[base + v] == line,
    ensures
        find_line(tags, base, ways, line, w) <= v,
    decreases v - w,
{
    if tags[base + w] != line {
        lemma_find_at_most(tags, base, ways, line, w + 1, v);
    }
}

/// A line just used is cached.
pub proof fn lemma_used_line_cached(c: CacheView, line: u64, clock: u64)
    requires
        cache_ok(c),
    ensures
        cache_has(cache_use(c, line, clock), line),
{
    let base = set_base(c, line);
    lemma_set_in_range(c, line);
    lemma_find_range(c.tags, base, c.ways as int, line, 0);
    if !cache_has(c, line) {
        let v = lru_way(c.age, base, c.ways as int, 1, 0);
        lemma_lru_range(c.age, base, c.ways as int, 1, 0);
        let t = c.tags.update(base + v, line);
        lemma_find_at_most(t, base, c.ways as int, line, 0, v);
    }
}

/// A set-associative LRU cache.
pub struct Cache {
    set_mask: u64,
    ways: usize,
    tags: Vec<u64>,
    age: Vec<u64>,
}

impl Cache {
    /// The abstract cache.
    pub closed spec fn view(&self) -> CacheView {
        CacheView { set_mask: self.set_mask, ways: self.ways, tags: self.tags@, age: self.age@ }
    }

    /// The cache's shape.
    pub closed spec fn wf(&self) -> bool {
        cache_ok(self@)
    }

    /// An empty cache of `size` bytes in `ways`-way sets of 64-byte lines;
    /// the number of sets must be a power of two.
    pub fn new(size: usize, ways: usize) -> (c: Self)
        requires
            ways >= 1,
            ways * LINE <= usize::MAX,
            is_pow2(size / ((ways * LINE) as usize)),
        ensures
            c.wf(),
            c@ == cache_init((size / ((ways * LINE) as usize)) as nat, ways),
    {
        let sets = size / (ways * LINE);
        assert(sets * ways <= size) by (nonlinear_arith)
            requires sets == size / ((ways * 64) as usize), ways >= 1, ways * 64 <= usize::MAX;
        let c = Cache {
            set_mask: sets as u64 - 1,
            ways,
            tags: vec![u64::MAX; sets * ways],
            age: vec![0u64; sets * ways],
        };
        assert(c@.tags =~= cache_init(sets as nat, ways).tags);
        assert(c@.age =~= cache_init(sets as nat, ways).age);
        c
    }

    /// Use `line` at time `clock`; whether it was cached.
    pub fn hit(&mut self, line: u64, clock: u64) -> (h: bool)
        requires
            old(self).wf(),
        ensures
            final(self).wf(),
            h == cache_has(old(self)@, line),
            final(self)@ == cache_use(old(self)@, line, clock),
    {
        proof {
            lemma_set_in_range(self@, line);
            lemma_find_range(self@.tags, set_base(self@, line), self.ways as int, line, 0);
            crate::algorithm::model::matcher::lemma_mask_le64(line, self.set_mask);
            assert((line & self.set_mask) * self.ways <= (self.set_mask + 1) * self.ways) by (nonlinear_arith)
                requires line & self.set_mask <= self.set_mask, self.ways >= 1;
            assert(self.set_mask + 1 <= (self.set_mask + 1) * self.ways) by (nonlinear_arith)
                requires self.ways >= 1;
        }
        let base = ((line & self.set_mask) as usize) * self.ways;
        let ghost c0 = self@;
        let mut w: usize = 0;
        while w < self.ways
            invariant
                c0 == self@,
                c0 == old(self)@,
                cache_ok(self@),
                base == set_base(self@, line),
                base + self.ways <= self.tags@.len(),
                0 <= w <= self.ways,
                find_line(self@.tags, base as int, self.ways as int, line, 0)
                    == find_line(self@.tags, base as int, self.ways as int, line, w as int),
            decreases self.ways - w,
        {
            if self.tags[base + w] == line {
                assert(find_line(c0.tags, base as int, self.ways as int, line, w as int) == w);
                self.age.set(base + w, clock);
                return true;
            }
            w += 1;
        }
        let mut victim: usize = 0;
        let mut v: usize = 1;
        proof {
            lemma_lru_range(self@.age, base as int, self.ways as int, 1, 0);
        }
        while v < self.ways
            invariant
                c0 == self@,
                c0 == old(self)@,
                base == set_base(self@, line),
                find_line(self@.tags, base as int, self.ways as int, line, 0) == self.ways,
                cache_ok(self@),
                base + self.ways <= self.tags@.len(),
                1 <= v <= self.ways,
                victim < v,
                lru_way(self@.age, base as int, self.ways as int, 1, 0)
                    == lru_way(self@.age, base as int, self.ways as int, v as int, victim as int),
            decreases self.ways - v,
        {
            if self.age[base + v] < self.age[base + victim] {
                victim = v;
            }
            v += 1;
        }
        self.tags.set(base + victim, line);
        self.age.set(base + victim, clock);
        false
    }
}

/// The abstract three-level model with its clock and counts.
pub struct SimView {
    pub l1: CacheView,
    pub l2: CacheView,
    pub l3: CacheView,
    pub clock: u64,
    pub accesses: u64,
    pub l1m: u64,
    pub l2m: u64,
    pub l3m: u64,
}

/// The model after touching `line`: each level is used in turn until one
/// has it; each level that missed is counted.
pub open spec fn sim_touch(s: SimView, line: u64) -> SimView {
    let c = (s.clock + 1) as u64;
    let s1 = SimView { clock: c, l1: cache_use(s.l1, line, c), ..s };
    if cache_has(s.l1, line) {
        s1
    } else {
        let s2 = SimView { l1m: (s.l1m + 1) as u64, l2: cache_use(s.l2, line, c), ..s1 };
        if cache_has(s.l2, line) {
            s2
        } else {
            let s3 = SimView { l2m: (s.l2m + 1) as u64, l3: cache_use(s.l3, line, c), ..s2 };
            if cache_has(s.l3, line) {
                s3
            } else {
                SimView { l3m: (s.l3m + 1) as u64, ..s3 }
            }
        }
    }
}

/// The model after touching lines `first`, `first + 1`, ... (`count` lines).
pub open spec fn sim_touch_lines(s: SimView, first: u64, count: nat) -> SimView
    decreases count,
{
    if count == 0 {
        s
    } else {
        sim_touch_lines(sim_touch(s, first), (first + 1) as u64, (count - 1) as nat)
    }
}

/// The first line an access of `size` bytes at `addr` touches.
pub open spec fn first_line(addr: u32) -> u64 {
    (addr / 64) as u64
}

/// The last line it touches (a zero-size access counts as one byte).
pub open spec fn last_line(addr: u32, size: u32) -> u64 {
    ((addr + (if size == 0 { 1 } else { size as int }) - 1) / 64) as u64
}

/// The model after an access of `size` bytes at `addr`.
pub open spec fn sim_access(s: SimView, addr: u32, size: u32) -> SimView {
    let s1 = SimView { accesses: (s.accesses + 1) as u64, ..s };
    sim_touch_lines(s1, first_line(addr), (last_line(addr, size) - first_line(addr) + 1) as nat)
}

/// The weighted miss penalty.
pub open spec fn sim_cost(s: SimView) -> int {
    s.l1m * 14 + s.l2m * 40 + s.l3m * 200
}

/// Each level's misses are weighted by that level's own penalty: one more
/// miss at level 1, 2 or 3 costs exactly `PEN_L1`, `PEN_L2` or `PEN_L3`, and a
/// model with no misses costs nothing.
pub proof fn lemma_cost_weights(s: SimView)
    requires
        s.l1m < u64::MAX,
        s.l2m < u64::MAX,
        s.l3m < u64::MAX,
    ensures
        sim_cost(SimView { l1m: (s.l1m + 1) as u64, ..s }) == sim_cost(s) + PEN_L1,
        sim_cost(SimView { l2m: (s.l2m + 1) as u64, ..s }) == sim_cost(s) + PEN_L2,
        sim_cost(SimView { l3m: (s.l3m + 1) as u64, ..s }) == sim_cost(s) + PEN_L3,
        sim_cost(SimView { l1m: 0, l2m: 0, l3m: 0, ..s }) == 0,
        PEN_L1 == 14 && PEN_L2 == 40 && PEN_L3 == 200,
{
}

/// What one line touch costs: nothing on a level-1 hit, `PEN_L1` when level 2
/// has the line, `PEN_L1 + PEN_L2` when only level 3 has it, and all three
/// penalties when no level has it.
pub proof fn lemma_touch_cost(s: SimView, line: u64)
    requires
        sim_ok(s),
        s.clock < u64::MAX,
    ensures
        sim_cost(sim_touch(s, line)) == sim_cost(s) + if cache_has(s.l1, line) {
            0
        } else if cache_has(s.l2, line) {
            PEN_L1 as int
        } else if cache_has(s.l3, line) {
            PEN_L1 + PEN_L2
        } else {
            PEN_L1 + PEN_L2 + PEN_L3
        },
{
}

/// The model's invariant: the caches keep their shapes, and every level's
/// misses are bounded by the clock.
pub open spec fn sim_ok(s: SimView) -> bool {
    &&& cache_ok(s.l1)
    &&& cache_ok(s.l2)
    &&& cache_ok(s.l3)
    &&& s.l3m <= s.l2m <= s.l1m <= s.clock
}

proof fn lemma_use_keeps(c: CacheView, line: u64, clock: u64)
    requires
        cache_ok(c),
    ensures
        cache_ok(cache_use(c, line, clock)),
{
    lemma_set_in_range(c, line);
    lemma_find_range(c.tags, set_base(c, line), c.ways as int, line, 0);
    lemma_lru_range(c.age, set_base(c, line), c.ways as int, 1, 0);
}

proof fn lemma_touch_keeps(s: SimView, line: u64)
    requires
        sim_ok(s),
        s.clock < u64::MAX,
    ensures
        sim_ok(sim_touch(s, line)),
        sim_touch(s, line).clock == s.clock + 1,
        sim_touch(s, line).accesses == s.accesses,
{
    let c = (s.clock + 1) as u64;
    lemma_use_keeps(s.l1, line, c);
    lemma_use_keeps(s.l2, line, c);
    lemma_use_keeps(s.l3, line, c);
}

/// The three-level cache model.
pub struct Sim {
    l1: Cache,
    l2: Cache,
    l3: Cache,
    clock: u64,
    accesses: u64,
    l1m: u64,
    l2m: u64,
    l3m: u64,
}

impl Sim {
    /// The abstract model.
    pub closed spec fn view(&self) -> SimView {
        SimView {
            l1: self.l1@,
            l2: self.l2@,
            l3: self.l3@,
            clock: self.clock,
            accesses: self.accesses,
            l1m: self.l1m,
            l2m: self.l2m,
            l3m: self.l3m,
        }
    }

    /// The model's invariant.
    pub closed spec fn wf(&self) -> bool {
        &&& sim_ok(self@)
        &&& self.l1.wf()
        &&& self.l2.wf()
        &&& self.l3.wf()
    }

    /// Cold caches and zero counts.
    pub fn new() -> (s: Self)
        ensures
            s.wf(),
            s@ == (SimView {
                l1: cache_init(64, 8),
                l2: cache_init(2048, 8),
                l3: cache_init(32768, 16),
                clock: 0,
                accesses: 0,
                l1m: 0,
                l2m: 0,
                l3m: 0,
            }),
    {
        assert(64usize & 63usize == 0 && 2048usize & 2047usize == 0 && 32768usize & 32767usize == 0) by (bit_vector);
        assert((L1_WAYS * LINE) as usize == 512 && (L2_WAYS * LINE) as usize == 512 && (L3_WAYS * LINE) as usize == 1024);
        assert(0x8000usize / 512usize == 64 && 0x10_0000usize / 512usize == 2048 && 0x200_0000usize / 1024usize == 32768) by (nonlinear_arith);
        Sim {
            l1: Cache::new(L1_BYTES, L1_WAYS),
            l2: Cache::new(L2_BYTES, L2_WAYS),
            l3: Cache::new(L3_BYTES, L3_WAYS),
            clock: 0,
            accesses: 0,
            l1m: 0,
            l2m: 0,
            l3m: 0,
        }
    }

    /// Touch one line through the hierarchy.
    pub fn touch(&mut self, line: u64)
        requires
            old(self).wf(),
            old(self)@.clock < u64::MAX,
        ensures
            final(self).wf(),
            final(self)@ == sim_touch(old(self)@, line),
    {
        proof {
            lemma_touch_keeps(self@, line);
        }
        self.clock += 1;
        let c = self.clock;
        if self.l1.hit(line, c) {
            return;
        }
        self.l1m += 1;
        if self.l2.hit(line, c) {
            return;
        }
        self.l2m += 1;
        if self.l3.hit(line, c) {
            return;
        }
        self.l3m += 1;
    }

    /// Record an access of `size` bytes at `addr`: touch every line it spans.
    pub fn access(&mut self, addr: u32, size: u32)
        requires
            old(self).wf(),
            old(self)@.accesses < u64::MAX,
            old(self)@.clock + (last_line(addr, size) - first_line(addr) + 1) <= u64::MAX,
        ensures
            final(self).wf(),
            final(self)@ == sim_access(old(self)@, addr, size),
    {
        self.accesses += 1;
        let ghost s1 = self@;
        let sz: u64 = if size == 0 { 1 } else { size as u64 };
        let first = (addr as u64) / 64;
        let last = ((addr as u64) + sz - 1) / 64;
        let mut l = first;
        while l <= last
            invariant
                self.wf(),
                first <= l <= last + 1,
                last < 0x800_0000,
                first == first_line(addr),
                last == last_line(addr, size),
                self@.clock == s1.clock + (l - first),
                s1.clock + (last - first + 1) <= u64::MAX,
                sim_touch_lines(self@, l, (last + 1 - l) as nat) == sim_touch_lines(s1, first, (last - first + 1) as nat),
            decreases last + 1 - l,
        {
            self.touch(l);
            l += 1;
        }
    }

    /// The weighted miss penalty.
    pub fn memcost(&self) -> (r: u64)
        requires
            sim_cost(self@) <= u64::MAX,
        ensures
            r == sim_cost(self@),
    {
        self.l1m * PEN_L1 + self.l2m * PEN_L2 + self.l3m * PEN_L3
    }

    /// Accesses recorded.
    pub fn accesses(&self) -> (r: u64)
        ensures
            r == self@.accesses,
    {
        self.accesses
    }

    /// Misses at each level.
    pub fn misses(&self) -> (r: (u64, u64, u64))
        ensures
            r == (self@.l1m, self@.l2m, self@.l3m),
    {
        (self.l1m, self.l2m, self.l3m)
    }
}

} // verus!
