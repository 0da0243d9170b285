//! A Mersenne Twister (MT19937) generator together with the exact inverse of
//! its output transform and procedures that rebuild a generator's internal
//! state from observed outputs, aligned or of unknown phase.

pub mod mt19937;

pub use mt19937::MT19937;

use vstd::prelude::*;

verus! {

use crate::mt19937::{
    subtemper1_spec,
    subtemper2_spec,
    subtemper3_spec,
    subtemper4_spec,
    temper_spec,
    RING_LEN,
};

/// `subtemper1_spec` applied `n` times over.
pub open spec fn iter_subtemper1(x: u32, n: nat) -> u32
    decreases n,
{
    if n == 0 {
        x
    } else {
        subtemper1_spec(iter_subtemper1(x, (n - 1) as nat))
    }
}

/// `subtemper2_spec` applied `n` times over.
pub open spec fn iter_subtemper2(x: u32, n: nat) -> u32
    decreases n,
{
    if n == 0 {
        x
    } else {
        subtemper2_spec(iter_subtemper2(x, (n - 1) as nat))
    }
}

/// Inverse of the first tempering step: the forward step iterated until every
/// wave of shifted-in bits has stabilised, which takes three rounds at this
/// shift and width.
pub open spec fn inv_subtemper1_spec(x: u32) -> u32 {
    iter_subtemper1(x, 3)
}

/// Inverse of the second tempering step: seven rounds of the forward step.
pub open spec fn inv_subtemper2_spec(x: u32) -> u32 {
    iter_subtemper2(x, 7)
}

/// Inverse of the third tempering step: the step is its own inverse here.
pub open spec fn inv_subtemper3_spec(x: u32) -> u32 {
    subtemper3_spec(x)
}

/// Inverse of the final tempering step: the step is its own inverse here.
pub open spec fn inv_subtemper4_spec(x: u32) -> u32 {
    subtemper4_spec(x)
}

/// The exact inverse of the output transform: each tempering step undone, in
/// reverse order.
pub open spec fn untemper_spec(y: u32) -> u32 {
    inv_subtemper1_spec(inv_subtemper2_spec(inv_subtemper3_spec(inv_subtemper4_spec(y))))
}

/// The untempering transform is a full left inverse of the output transform:
/// every 32-bit word survives the round trip unchanged.
pub proof fn lemma_untemper_temper(x: u32)
    ensures
        untemper_spec(temper_spec(x)) == x,
{
    assert(untemper_spec(temper_spec(x)) == x) by (bit_vector);
}

impl MT19937 {
    /// Undo the first tempering step by iterating it three times.
    #[inline]
    pub fn _inv_subtemper1(&self, x: u32) -> (r: u32)
        requires
            self.wf(),
        ensures
            r == inv_subtemper1_spec(x),
    {
        let ghost x0 = x;
        let mut x = x;
        let mut round: usize = 0;
        while round < 3
            invariant
                self.wf(),
                round <= 3,
                x == iter_subtemper1(x0, round as nat),
            decreases 3 - round,
        {
            x = x ^ ((x >> self.u()) & self.d());
            round += 1;
        }
        x
    }

    /// Undo the second tempering step by iterating it seven times.
    #[inline]
    pub fn _inv_subtemper2(&self, x: u32) -> (r: u32)
        requires
            self.wf(),
        ensures
            r == inv_subtemper2_spec(x),
    {
        let ghost x0 = x;
        let mut x = x;
        let mut round: usize = 0;
        while round < 7
            invariant
                self.wf(),
                round <= 7,
                x == iter_subtemper2(x0, round as nat),
            decreases 7 - round,
        {
            x = x ^ ((x << self.s()) & self.b());
            round += 1;
        }
        x
    }

    /// Undo the third tempering step.
    #[inline]
    pub fn _inv_subtemper3(&self, x: u32) -> (r: u32)
        requires
            self.wf(),
        ensures
            r == inv_subtemper3_spec(x),
    {
        x ^ ((x << self.t()) & self.c())
    }

    /// Undo the final tempering step.
    #[inline]
    pub fn _inv_subtemper4(&self, x: u32) -> (r: u32)
        requires
            self.wf(),
        ensures
            r == inv_subtemper4_spec(x),
    {
        x ^ (x >> self.l())
    }

    /// Recover the raw state word behind an emitted value: the exact inverse
    /// of `temper_transform`.
    pub fn untemper(&self, p: u32) -> (r: u32)
        requires
            self.wf(),
        ensures
            r == untemper_spec(p),
    {
        let mut x = p;
        x = self._inv_subtemper4(x);
        x = self._inv_subtemper3(x);
        x = self._inv_subtemper2(x);
        self._inv_subtemper1(x)
    }
}

/// Each value of a sequence of observed outputs, untempered.
pub open spec fn untempered(outputs: Seq<u32>) -> Seq<u32> {
    outputs.map(|k: int, v: u32| untemper_spec(v))
}

impl MT19937 {
    /// Rebuild a generator from a complete, refresh-aligned block of exactly
    /// `RING_LEN` outputs: each value is untempered independently and the
    /// recovered words installed as the ring, cursor at the start of a cycle.
    ///
    /// Succeeds exactly on blocks of the right length; any other length is
    /// reported, with the observed length, as an `InputLengthError`.
    ///
    /// The result is ready to repeat the block just seen: no refresh is
    /// involved, so predicting values beyond the block takes one `twist`.
    pub fn _from_complete_output(output: &[u32]) -> (r: Result<MT19937, TempersError>)
        ensures
            match r {
                Ok(g) => {
                    &&& output@.len() == RING_LEN
                    &&& g.wf()
                    &&& g.i == 0
                    &&& g.words@ == untempered(output@)
                },
                Err(e) => {
                    &&& output@.len() != RING_LEN
                    &&& e == TempersError::InputLengthError(output@.len() as usize)
                },
            },
    {
        let mut g = MT19937::blank();
        let len = output.len();
        if len != g.state_length() {
            return Err(TempersError::InputLengthError(len));
        }

        let mut k: usize = 0;
        while k < RING_LEN
            invariant
                g.wf(),
                g.i == 0,
                k <= RING_LEN,
                output@.len() == RING_LEN,
                forall|j: int| 0 <= j < k ==> g.words@[j] == untemper_spec(output@[j]),
            decreases RING_LEN - k,
        {
            let word = g.untemper(output[k]);
            g.words[k] = word;
            k += 1;
        }
        proof {
            assert(g.words@ =~= untempered(output@));
        }
        Ok(g)
    }

    /// Compare this generator's next output with the value at `pos` in the
    /// observed stream; report stream exhaustion rather than reading past it.
    pub fn test_next_equal_to_iter(&mut self, vals: &[u32], pos: usize) -> (r: Result<
        bool,
        TempersError,
    >)
        requires
            old(self).wf(),
        ensures
            match r {
                Ok(eq) => {
                    let base = if old(self).i == RING_LEN {
                        crate::mt19937::twisted(old(self).words@)
                    } else {
                        old(self).words@
                    };
                    let idx = if old(self).i == RING_LEN {
                        0int
                    } else {
                        old(self).i as int
                    };
                    &&& pos < vals@.len()
                    &&& final(self).wf()
                    &&& final(self).words@ == base
                    &&& final(self).i == idx + 1
                    &&& eq == (vals@[pos as int] == temper_spec(base[idx]))
                },
                Err(e) => {
                    &&& pos >= vals@.len()
                    &&& e == TempersError::IncompleteIterator
                    &&& *final(self) == *old(self)
                },
            },
    {
        if pos >= vals.len() {
            return Err(TempersError::IncompleteIterator);
        }
        let observed = vals[pos];
        let produced = match self.next() {
            Some(v) => v,
            None => {
                return Err(TempersError::UnknownError);
            },
        };
        Ok(observed == produced)
    }
}

/// Whether the trial phase `j` of the sliding-window search accepts: the
/// window of `RING_LEN` stream values starting at `j`, untempered, installed
/// as a ring and refreshed once, emits the stream's very next value.
pub open spec fn trial_matches(vals: Seq<u32>, j: int) -> bool
    recommends
        0 <= j,
        j + RING_LEN < vals.len(),
{
    temper_spec(
        crate::mt19937::twisted(untempered(vals.subrange(j, j + RING_LEN as int)))[0],
    ) == vals[j + RING_LEN as int]
}

impl MT19937 {
    /// Recover a generator from a stream of observed outputs whose phase
    /// relative to the refresh cycle is unknown.
    ///
    /// Slides a window of `RING_LEN` values along the stream for up to
    /// `RING_LEN` trial phases. Each trial rebuilds a candidate from the
    /// window, refreshes it once, and checks the candidate's next output
    /// against the stream's next value; the first accepting phase wins, and
    /// the returned generator has already emitted that matching value. The
    /// second result is how many stream values were read in total.
    ///
    /// Fails with `IncompleteIterator` when the stream runs out before a
    /// verdict, and with `UnmatcheableIterator` when a full cycle of phases
    /// finds no match.
    pub fn from_iter(vals: &[u32]) -> (r: Result<(MT19937, usize), TempersError>)
        ensures
            match r {
                Ok((g, used)) => {
                    let j = used - 625;
                    &&& 625 <= used <= vals@.len()
                    &&& used - 625 < RING_LEN
                    &&& trial_matches(vals@, j)
                    &&& forall|jj: int| 0 <= jj < j ==> !trial_matches(vals@, jj)
                    &&& g.wf()
                    &&& g.words@ == crate::mt19937::twisted(
                        untempered(vals@.subrange(j, j + RING_LEN as int)),
                    )
                    &&& g.i == 1
                },
                Err(TempersError::IncompleteIterator) => {
                    &&& vals@.len() < 2 * RING_LEN
                    &&& forall|jj: int|
                        0 <= jj < vals@.len() - RING_LEN ==> !trial_matches(vals@, jj)
                },
                Err(TempersError::UnmatcheableIterator) => {
                    &&& vals@.len() >= 2 * RING_LEN
                    &&& forall|jj: int| 0 <= jj < RING_LEN ==> !trial_matches(vals@, jj)
                },
                Err(_) => false,
            },
    {
        if vals.len() < RING_LEN {
            return Err(TempersError::IncompleteIterator);
        }

        let mut j: usize = 0;
        while j < RING_LEN
            invariant
                RING_LEN <= vals@.len(),
                j <= RING_LEN,
                j == 0 || j + RING_LEN <= vals@.len(),
                forall|jj: int| 0 <= jj < j ==> !trial_matches(vals@, jj),
            decreases RING_LEN - j,
        {
            if vals.len() - RING_LEN <= j {
                return Err(TempersError::IncompleteIterator);
            }

            let window = &vals[j..j + RING_LEN];
            let mut candidate = match MT19937::_from_complete_output(window) {
                Ok(g) => g,
                Err(e) => {
                    return Err(e);
                },
            };
            candidate.twist();

            let matched = match candidate.test_next_equal_to_iter(vals, j + RING_LEN) {
                Ok(eq) => eq,
                Err(e) => {
                    return Err(e);
                },
            };
            if matched {
                return Ok((candidate, j + RING_LEN + 1));
            }
            j += 1;
        }

        Err(TempersError::UnmatcheableIterator)
    }
}

/// The block of outputs a generator emits over one full cycle, starting right
/// after a refresh: each ring word in order, tempered.
pub open spec fn first_cycle_outputs(words: Seq<u32>) -> Seq<u32> {
    Seq::new(RING_LEN as nat, |k: int| temper_spec(words[k]))
}

/// Untempering each output of a freshly seeded generator's first cycle gives
/// back exactly the raw ring word that produced it.
pub proof fn lemma_untemper_recovers_seeded_words(seed: u32, k: int)
    requires
        0 <= k < RING_LEN,
    ensures
        untemper_spec(first_cycle_outputs(crate::mt19937::seeded_words(seed))[k])
            == crate::mt19937::seeded_words(seed)[k],
{
    lemma_untemper_temper(crate::mt19937::seeded_words(seed)[k]);
}

/// Aligned reconstruction undoes emission: untempering a full cycle of
/// outputs, in order, restores the ring that emitted them, word for word.
/// Together with `_from_complete_output`'s contract this says the rebuilt
/// generator equals the one that produced the block, cursor included: both
/// stand at the start of a cycle.
pub proof fn lemma_reconstruct_aligned_round_trip(words: Seq<u32>)
    requires
        words.len() == RING_LEN,
    ensures
        untempered(first_cycle_outputs(words)) == words,
{
    let outs = first_cycle_outputs(words);
    assert forall|k: int| 0 <= k < RING_LEN implies untempered(outs)[k] == words[k] by {
        lemma_untemper_temper(words[k]);
    }
    assert(untempered(outs) =~= words);
}

/// `twisted` applied `c` times over.
pub open spec fn iter_twisted(words: Seq<u32>, c: nat) -> Seq<u32>
    decreases c,
{
    if c == 0 {
        words
    } else {
        crate::mt19937::twisted(iter_twisted(words, (c - 1) as nat))
    }
}

/// The `k`th output of a generator whose ring is `words` and whose cursor
/// stands at `phase` words into the current cycle.
pub open spec fn nth_output(words: Seq<u32>, phase: int, k: int) -> u32
    recommends
        words.len() == RING_LEN,
        0 <= phase < RING_LEN,
        0 <= k,
{
    temper_spec(
        iter_twisted(words, ((phase + k) / (RING_LEN as int)) as nat)[(phase + k) % (
        RING_LEN as int)],
    )
}

/// A live stream really produced by a generator of this family always offers
/// the phase search a matching trial within one cycle: at the phase where the
/// sliding window lines up with a refresh boundary, the rebuilt candidate's
/// next output agrees with the stream. With `from_iter`'s contract this rules
/// its failure modes out on such a stream of at least two cycles' length; and
/// should the search accept that aligned phase, the window it untempers and
/// refreshes is exactly the source generator's ring at the matching emission,
/// so `lemma_aligned_match_predicts` extends the agreement to every later
/// value.
pub proof fn lemma_live_stream_has_matching_phase(words: Seq<u32>, phase: int, vals: Seq<u32>)
    requires
        words.len() == RING_LEN,
        0 <= phase < RING_LEN,
        vals.len() >= 2 * RING_LEN,
        forall|k: int| 0 <= k < 2 * RING_LEN ==> vals[k] == nth_output(words, phase, k),
    ensures
        ({
            let j = if phase == 0 {
                0int
            } else {
                RING_LEN as int - phase
            };
            let q: nat = if phase == 0 {
                0nat
            } else {
                1nat
            };
            &&& 0 <= j < RING_LEN
            &&& trial_matches(vals, j)
            &&& untempered(vals.subrange(j, j + RING_LEN as int)) == iter_twisted(words, q)
            &&& crate::mt19937::twisted(untempered(vals.subrange(j, j + RING_LEN as int)))
                == iter_twisted(words, (q + 1) as nat)
        }),
        exists|j: int| 0 <= j < RING_LEN && trial_matches(vals, j),
{
    let j = if phase == 0 {
        0int
    } else {
        RING_LEN as int - phase
    };
    let q: nat = if phase == 0 {
        0nat
    } else {
        1nat
    };
    let cycle = iter_twisted(words, q);
    assert(cycle.len() == RING_LEN) by {
        if phase != 0 {
            assert(iter_twisted(words, 0) == words);
            assert(cycle == crate::mt19937::twisted(words));
            lemma_twisted_len(words);
        }
    }
    let window = vals.subrange(j, j + RING_LEN as int);
    assert forall|t: int| 0 <= t < RING_LEN implies window[t] == first_cycle_outputs(cycle)[t] by {
        assert(window[t] == vals[j + t]);
        assert(vals[j + t] == nth_output(words, phase, j + t));
        assert(phase + j + t == 624 * q + t);
        assert((624 * q + t) / 624 == q);
        assert((624 * q + t) % 624 == t);
    }
    assert(window =~= first_cycle_outputs(cycle));
    lemma_reconstruct_aligned_round_trip(cycle);
    assert(untempered(window) == cycle);
    assert(iter_twisted(words, q + 1) == crate::mt19937::twisted(cycle));
    assert(vals[j + RING_LEN as int] == nth_output(words, phase, j + RING_LEN as int));
    assert(phase + j + RING_LEN as int == 624 * (q + 1));
    assert((624 * (q + 1)) / 624 == q + 1);
    assert((624 * (q + 1)) % 624 == 0);
    assert(trial_matches(vals, j));
}

/// The output transform is also a right inverse of untempering, so the two
/// transforms are mutually inverse bijections on the 32-bit words.
pub proof fn lemma_temper_untemper(y: u32)
    ensures
        temper_spec(untemper_spec(y)) == y,
{
    assert(temper_spec(untemper_spec(y)) == y) by (bit_vector);
}

/// `iter_twisted` composes additively in the number of refreshes.
pub proof fn lemma_iter_twisted_add(words: Seq<u32>, a: nat, b: nat)
    ensures
        iter_twisted(iter_twisted(words, a), b) == iter_twisted(words, a + b),
    decreases b,
{
    if b > 0 {
        lemma_iter_twisted_add(words, a, (b - 1) as nat);
    }
}

/// Splitting an emission count into whole refresh cycles and a remainder.
proof fn lemma_div_mod_cycle(c: int, t: int)
    requires
        c >= 0,
        t >= 0,
    ensures
        (624 * c + t) / 624 == c + t / 624,
        (624 * c + t) % 624 == t % 624,
{
    vstd::arithmetic::div_mod::lemma_fundamental_div_mod(t, 624);
    vstd::arithmetic::div_mod::lemma_mod_multiples_vanish(c, t, 624);
    assert(624 * c + t == 624 * (c + t / 624) + t % 624) by (nonlinear_arith)
        requires
            t == 624 * (t / 624) + t % 624,
    ;
    vstd::arithmetic::div_mod::lemma_div_multiples_vanish_fancy(c + t / 624, t % 624, 624);
}

/// A generator's immediate output is the stream model's zeroth value: what
/// `next` emits from a mid-cycle state is `nth_output` at that phase.
pub proof fn lemma_next_is_nth_output(words: Seq<u32>, phase: int)
    requires
        words.len() == RING_LEN,
        0 <= phase < RING_LEN,
    ensures
        temper_spec(words[phase]) == nth_output(words, phase, 0),
{
    assert(iter_twisted(words, 0) == words);
}

/// When the trial phase the search accepts is the one truly aligned with a
/// refresh boundary, the rebuilt generator reproduces the source stream's
/// every later value, without end: the reconstructed ring, refreshed once and
/// already advanced by the one matching emission, thereafter runs in lockstep
/// with the source. Ambiguous streams, where an earlier phase also happens to
/// validate, are left undefined.
pub proof fn lemma_aligned_match_predicts(words: Seq<u32>, phase: int, k: int)
    requires
        words.len() == RING_LEN,
        0 <= phase < RING_LEN,
        0 <= k,
    ensures
        ({
            let q: nat = if phase == 0 {
                0nat
            } else {
                1nat
            };
            let j = if phase == 0 {
                0int
            } else {
                RING_LEN as int - phase
            };
            nth_output(iter_twisted(words, (q + 1) as nat), 1, k) == nth_output(
                words,
                phase,
                j + RING_LEN as int + 1 + k,
            )
        }),
{
    let q: nat = if phase == 0 {
        0nat
    } else {
        1nat
    };
    let j = if phase == 0 {
        0int
    } else {
        RING_LEN as int - phase
    };
    let c = q + 1;
    assert(phase + j + RING_LEN as int + 1 + k == 624 * c + (1 + k));
    lemma_div_mod_cycle(c as int, 1 + k);
    lemma_iter_twisted_add(words, c, ((1 + k) / 624) as nat);
    assert((c + (1 + k) / 624) as nat == c + ((1 + k) / 624) as nat);
}

/// Refreshing keeps the ring length.
pub proof fn lemma_twisted_len(words: Seq<u32>)
    requires
        words.len() == RING_LEN,
    ensures
        crate::mt19937::twisted(words).len() == RING_LEN,
{
    lemma_twist_prefix_len(words, RING_LEN as int);
}

/// A partial refresh sweep keeps the ring length.
pub proof fn lemma_twist_prefix_len(words: Seq<u32>, k: int)
    requires
        words.len() == RING_LEN,
        0 <= k <= RING_LEN,
    ensures
        crate::mt19937::twist_prefix(words, k).len() == RING_LEN,
    decreases k,
{
    if k > 0 {
        lemma_twist_prefix_len(words, k - 1);
    }
}

/// Errors of the state-reconstruction procedures.
#[derive(PartialEq, Eq, Structural, Debug)]
pub enum TempersError {
    /// A block of the wrong size was handed to aligned reconstruction;
    /// carries the observed length.
    InputLengthError(usize),
    /// The source stream ran out before enough values were available.
    IncompleteIterator,
    /// A full cycle of trial phases produced no match.
    UnmatcheableIterator,
    /// An internal inconsistency that expected-bad input can never cause.
    UnknownError,
}

} // verus!
