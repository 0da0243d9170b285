use vstd::prelude::*;

verus! {

/// Ring length of the generator: the state holds this many 32-bit words.
pub const RING_LEN: usize = 624;

/// Offset of the word mixed into each position during a refresh.
pub const MID_OFFSET: usize = 397;

/// The "matrix" constant xored in when the mixed word is odd.
pub const MATRIX_A: u32 = 0x9908_b0df;

/// Mask selecting the top bit of a word.
pub const UPPER_MASK: u32 = 0x8000_0000;

/// Mask selecting all but the top bit of a word.
pub const LOWER_MASK: u32 = 0x7fff_ffff;

/// Tempering shift and mask for the first output-transform step.
pub const TEMPER_U: u32 = 11;

/// Mask paired with `TEMPER_U`.
pub const TEMPER_D: u32 = 0xffff_ffff;

/// Tempering shift for the second output-transform step.
pub const TEMPER_S: u32 = 7;

/// Mask paired with `TEMPER_S`.
pub const TEMPER_B: u32 = 0x9d2c_5680;

/// Tempering shift for the third output-transform step.
pub const TEMPER_T: u32 = 15;

/// Mask paired with `TEMPER_T`.
pub const TEMPER_C: u32 = 0xefc6_0000;

/// Final tempering shift.
pub const TEMPER_L: u32 = 18;

/// Multiplier of the linear-congruential seed expansion.
pub const SEED_MULT: u32 = 1_812_433_253;

/// A Mersenne Twister generator with the reference 32-bit, 624-word parameters.
///
/// The parameter fields mirror the standard parameter names; `wf` pins them to
/// the reference values. `words` is the ring of state words and `i` the cursor:
/// the number of words of the current cycle already emitted.
#[derive(PartialEq, Debug)]
pub struct MT19937 {
    pub w: u32,
    pub n: u32,
    pub m: u32,
    pub r: u32,
    pub a: u32,
    pub u: u32,
    pub d: u32,
    pub s: u32,
    pub b: u32,
    pub t: u32,
    pub c: u32,
    pub l: u32,
    pub words: Vec<u32>,
    pub i: usize,
}

impl MT19937 {
    /// Well-formedness: the parameters hold the reference values, the ring has
    /// exactly `RING_LEN` words, and the cursor never runs past the ring.
    pub open spec fn wf(&self) -> bool {
        &&& self.w == 32u32
        &&& self.n == 624u32
        &&& self.m == 397u32
        &&& self.r == 31u32
        &&& self.a == MATRIX_A
        &&& self.u == TEMPER_U
        &&& self.d == TEMPER_D
        &&& self.s == TEMPER_S
        &&& self.b == TEMPER_B
        &&& self.t == TEMPER_T
        &&& self.c == TEMPER_C
        &&& self.l == TEMPER_L
        &&& self.words@.len() == RING_LEN
        &&& self.i <= RING_LEN
    }

    /// A generator with the reference parameters and an all-zero ring.
    ///
    /// Not fit for producing output until the ring is populated by seeding or
    /// by installing recovered words.
    pub fn blank() -> (g: MT19937)
        ensures
            g.wf(),
            g.words@ == Seq::<u32>::new(RING_LEN as nat, |k: int| 0u32),
            g.i == 0,
    {
        let mut words: Vec<u32> = Vec::new();
        let mut k: usize = 0;
        while k < RING_LEN
            invariant
                k <= RING_LEN,
                words@.len() == k,
                forall|j: int| 0 <= j < k ==> words@[j] == 0u32,
            decreases RING_LEN - k,
        {
            words.push(0);
            k += 1;
        }
        proof {
            assert(words@ =~= Seq::<u32>::new(RING_LEN as nat, |j: int| 0u32));
        }
        MT19937 {
            w: 32,
            n: 624,
            m: 397,
            r: 31,
            a: MATRIX_A,
            u: TEMPER_U,
            d: TEMPER_D,
            s: TEMPER_S,
            b: TEMPER_B,
            t: TEMPER_T,
            c: TEMPER_C,
            l: TEMPER_L,
            words,
            i: 0,
        }
    }

    /// Cursor position: how many words of the current cycle have been emitted.
    pub fn state_index(&self) -> (r: usize)
        ensures
            r == self.i,
    {
        self.i
    }

    /// Read access to the ring of state words.
    pub fn internal_state(&self) -> (r: &Vec<u32>)
        ensures
            r@ == self.words@,
    {
        &self.words
    }

    /// The ring length.
    pub fn state_length(&self) -> (r: usize)
        requires
            self.wf(),
        ensures
            r == RING_LEN,
    {
        self.n as usize
    }

    /// The matrix constant of the refresh recurrence.
    pub fn a(&self) -> (r: u32)
        requires
            self.wf(),
        ensures
            r == MATRIX_A,
    {
        self.a
    }

    /// The mask of the second tempering step.
    pub fn b(&self) -> (r: u32)
        requires
            self.wf(),
        ensures
            r == TEMPER_B,
    {
        self.b
    }

    /// The mask of the third tempering step.
    pub fn c(&self) -> (r: u32)
        requires
            self.wf(),
        ensures
            r == TEMPER_C,
    {
        self.c
    }

    /// The mask of the first tempering step.
    pub fn d(&self) -> (r: u32)
        requires
            self.wf(),
        ensures
            r == TEMPER_D,
    {
        self.d
    }

    /// The shift of the first tempering step.
    pub fn u(&self) -> (r: u32)
        requires
            self.wf(),
        ensures
            r == TEMPER_U,
    {
        self.u
    }

    /// The shift of the second tempering step.
    pub fn s(&self) -> (r: u32)
        requires
            self.wf(),
        ensures
            r == TEMPER_S,
    {
        self.s
    }

    /// The shift of the third tempering step.
    pub fn t(&self) -> (r: u32)
        requires
            self.wf(),
        ensures
            r == TEMPER_T,
    {
        self.t
    }

    /// The final tempering shift.
    pub fn l(&self) -> (r: u32)
        requires
            self.wf(),
        ensures
            r == TEMPER_L,
    {
        self.l
    }
}

/// The `k`th word of the linear-congruential seed expansion: word 0 is the
/// seed itself, and each later word is derived from its predecessor, with all
/// arithmetic taken modulo 2^32.
pub open spec fn expanded(seed: u32, k: int) -> u32
    recommends
        0 <= k < RING_LEN,
    decreases k,
{
    if k <= 0 {
        seed
    } else {
        let prev = expanded(seed, k - 1);
        (((SEED_MULT as int) * ((prev ^ (prev >> 30u32)) as int) + k) % 0x1_0000_0000) as u32
    }
}

/// The ring of a freshly seeded generator: the seed expansion, refreshed once.
pub open spec fn seeded_words(seed: u32) -> Seq<u32> {
    twisted(Seq::<u32>::new(RING_LEN as nat, |k: int| expanded(seed, k)))
}

impl MT19937 {
    /// Create a generator from a single 32-bit seed: expand the seed into the
    /// ring, then refresh once, leaving the cursor at the start of a cycle.
    pub fn from_seed(seed: u32) -> (g: MT19937)
        ensures
            g.wf(),
            g.words@ == seeded_words(seed),
            g.i == 0,
    {
        let mut g = MT19937::blank();
        g.words[0] = seed;
        let mut prev: u32 = seed;
        let mut k: usize = 1;
        while k < RING_LEN
            invariant
                g.wf(),
                1 <= k <= RING_LEN,
                g.i == 0,
                prev == expanded(seed, k - 1),
                forall|j: int| 0 <= j < k ==> g.words@[j] == expanded(seed, j),
                g.w == 32u32 && g.n == 624u32 && g.m == 397u32 && g.r == 31u32,
                g.a == MATRIX_A && g.u == TEMPER_U && g.d == TEMPER_D && g.s == TEMPER_S,
                g.b == TEMPER_B && g.t == TEMPER_T && g.c == TEMPER_C && g.l == TEMPER_L,
            decreases RING_LEN - k,
        {
            let mixed: u32 = prev ^ (prev >> 30u32);
            proof {
                assert((SEED_MULT as u64) * (mixed as u64) <= (SEED_MULT as u64) * 0xffff_ffffu64)
                    by (nonlinear_arith)
                    requires
                        mixed as u64 <= 0xffff_ffffu64,
                ;
            }
            let wide: u64 = (SEED_MULT as u64) * (mixed as u64) + (k as u64);
            let word: u32 = (wide % 0x1_0000_0000u64) as u32;
            proof {
                assert(word == expanded(seed, k as int));
            }
            g.words[k] = word;
            prev = word;
            k += 1;
        }
        proof {
            assert(g.words@ =~= Seq::<u32>::new(RING_LEN as nat, |j: int| expanded(seed, j)));
        }
        g.twist();
        g
    }

    /// A generator seeded with the reference default seed.
    pub fn default() -> (g: MT19937)
        ensures
            g.wf(),
            g.words@ == seeded_words(5489u32),
            g.i == 0,
    {
        let seed: u32 = 5489;
        MT19937::from_seed(seed)
    }
}

/// First tempering step: mix in the high bits, masked.
pub open spec fn subtemper1_spec(x: u32) -> u32 {
    x ^ ((x >> TEMPER_U) & TEMPER_D)
}

/// Second tempering step: mix in shifted-up bits under `TEMPER_B`.
pub open spec fn subtemper2_spec(x: u32) -> u32 {
    x ^ ((x << TEMPER_S) & TEMPER_B)
}

/// Third tempering step: mix in shifted-up bits under `TEMPER_C`.
pub open spec fn subtemper3_spec(x: u32) -> u32 {
    x ^ ((x << TEMPER_T) & TEMPER_C)
}

/// Final tempering step: fold the high bits down.
pub open spec fn subtemper4_spec(x: u32) -> u32 {
    x ^ (x >> TEMPER_L)
}

/// The output transform: the four tempering steps composed in order.
pub open spec fn temper_spec(x: u32) -> u32 {
    subtemper4_spec(subtemper3_spec(subtemper2_spec(subtemper1_spec(x))))
}

/// The word that a refresh writes at position `k`, read off the ring as it
/// stands at that moment of the sweep (positions below `k` already rewritten,
/// the rest still holding their pre-refresh values).
pub open spec fn twisted_word(s: Seq<u32>, k: int) -> u32
    recommends
        s.len() == RING_LEN,
        0 <= k < RING_LEN,
{
    let mixed = (s[k] & UPPER_MASK) | (s[(k + 1) % (RING_LEN as int)] & LOWER_MASK);
    let shifted = mixed >> 1u32;
    let xa = if mixed % 2u32 == 1u32 {
        shifted ^ MATRIX_A
    } else {
        shifted
    };
    s[(k + MID_OFFSET as int) % (RING_LEN as int)] ^ xa
}

/// The ring after the refresh sweep has rewritten positions `0..k`, in order,
/// each from the ring as it stood when its turn came.
pub open spec fn twist_prefix(s: Seq<u32>, k: int) -> Seq<u32>
    recommends
        s.len() == RING_LEN,
        0 <= k <= RING_LEN,
    decreases k,
{
    if k <= 0 {
        s
    } else {
        let prev = twist_prefix(s, k - 1);
        prev.update(k - 1, twisted_word(prev, k - 1))
    }
}

/// The ring after one full refresh ("twist"): every position rewritten once,
/// left to right, in place.
pub open spec fn twisted(s: Seq<u32>) -> Seq<u32>
    recommends
        s.len() == RING_LEN,
{
    twist_prefix(s, RING_LEN as int)
}

impl MT19937 {
    /// Refresh the whole ring from the recurrence and reset the cursor.
    ///
    /// The sweep rewrites each position exactly once, left to right, reading
    /// whatever currently resides at the referenced slots: already-updated
    /// values behind the write position, pre-refresh values ahead of it.
    pub fn twist(&mut self)
        requires
            old(self).wf(),
        ensures
            final(self).wf(),
            final(self).words@ == twisted(old(self).words@),
            final(self).i == 0,
            final(self).w == old(self).w,
            final(self).n == old(self).n,
            final(self).m == old(self).m,
            final(self).r == old(self).r,
            final(self).a == old(self).a,
            final(self).u == old(self).u,
            final(self).d == old(self).d,
            final(self).s == old(self).s,
            final(self).b == old(self).b,
            final(self).t == old(self).t,
            final(self).c == old(self).c,
            final(self).l == old(self).l,
    {
        let ghost s0 = self.words@;
        let mut k: usize = 0;
        while k < RING_LEN
            invariant
                self.wf(),
                k <= RING_LEN,
                self.words@ == twist_prefix(s0, k as int),
                self.i == old(self).i,
                *self == (MT19937 { words: self.words, i: self.i, ..*old(self) }),
            decreases RING_LEN - k,
        {
            let mid_value = self.words[(k + MID_OFFSET) % RING_LEN];
            let base_upper = self.words[k] & UPPER_MASK;
            let base_lower = self.words[(k + 1) % RING_LEN] & LOWER_MASK;
            let x = base_upper | base_lower;
            let mut x_a = x >> 1u32;
            if x % 2 == 1 {
                x_a = x_a ^ self.a;
            }
            let next_word = mid_value ^ x_a;
            proof {
                assert(next_word == twisted_word(self.words@, k as int));
                assert(twist_prefix(s0, k as int + 1) == twist_prefix(s0, k as int).update(
                    k as int,
                    twisted_word(twist_prefix(s0, k as int), k as int),
                ));
            }
            self.words[k] = next_word;
            k += 1;
        }
        self.i = 0;
    }
}

impl MT19937 {
    /// First forward tempering step.
    #[inline]
    pub fn _subtemper1(&self, x: u32) -> (r: u32)
        requires
            self.wf(),
        ensures
            r == subtemper1_spec(x),
    {
        x ^ ((x >> self.u) & self.d)
    }

    /// Second forward tempering step.
    #[inline]
    pub fn _subtemper2(&self, x: u32) -> (r: u32)
        requires
            self.wf(),
        ensures
            r == subtemper2_spec(x),
    {
        x ^ ((x << self.s) & self.b)
    }

    /// Third forward tempering step.
    #[inline]
    pub fn _subtemper3(&self, x: u32) -> (r: u32)
        requires
            self.wf(),
        ensures
            r == subtemper3_spec(x),
    {
        x ^ ((x << self.t) & self.c)
    }

    /// Final forward tempering step.
    #[inline]
    pub fn _subtemper4(&self, x: u32) -> (r: u32)
        requires
            self.wf(),
        ensures
            r == subtemper4_spec(x),
    {
        x ^ (x >> self.l)
    }

    /// The forward output transform: state word in, emitted value out.
    pub fn temper_transform(&self, p: u32) -> (r: u32)
        requires
            self.wf(),
        ensures
            r == temper_spec(p),
    {
        let mut x = p;
        x = self._subtemper1(x);
        x = self._subtemper2(x);
        x = self._subtemper3(x);
        self._subtemper4(x)
    }

    /// Emit the word under the cursor, tempered, and advance the cursor.
    ///
    /// Demands a cycle with words still left in it: the caller refreshes the
    /// ring in time, so an emission past the end of a cycle can never be asked
    /// for.
    pub fn temper(&mut self) -> (r: u32)
        requires
            old(self).wf(),
            old(self).i < RING_LEN,
        ensures
            final(self).wf(),
            final(self).words@ == old(self).words@,
            final(self).i == old(self).i + 1,
            r == temper_spec(old(self).words@[old(self).i as int]),
    {
        self.i += 1;
        let word = self.words[self.i - 1];
        self.temper_transform(word)
    }

    /// Produce one output, refreshing the ring first when the current cycle
    /// is exhausted. Always returns a value.
    pub fn next(&mut self) -> (r: Option<u32>)
        requires
            old(self).wf(),
        ensures
            final(self).wf(),
            ({
                let base = if old(self).i == RING_LEN {
                    twisted(old(self).words@)
                } else {
                    old(self).words@
                };
                let idx = if old(self).i == RING_LEN {
                    0int
                } else {
                    old(self).i as int
                };
                &&& final(self).words@ == base
                &&& final(self).i == idx + 1
                &&& r == Some(temper_spec(base[idx]))
            }),
    {
        if self.i == RING_LEN {
            self.twist();
        }
        Some(self.temper())
    }
}

} // verus!
