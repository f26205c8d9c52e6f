//! Samplers that drive key selection, field sizing and the operation mix.
//! Each draws its randomness from a caller-supplied `SmallRng`, so a run is
//! reproducible from its seed.
use rand::distributions::DistString;
use rand::Rng;
use rand::rngs::SmallRng;
use std::collections::VecDeque;
use vstd::prelude::*;

verus! {

#[verifier::external_type_specification]
#[verifier::external_body]
pub struct ExSmallRng(rand::rngs::SmallRng);

/// Relies on rand's `Rng::gen_range` over an inclusive range: the value lies
/// in `[lo, hi]`; it panics only on an empty range.
#[verifier::external_body]
pub(crate) fn random_in_range(rng: &mut SmallRng, lo: u64, hi: u64) -> (r: u64)
    requires
        lo <= hi,
    ensures
        lo <= r <= hi,
{
    rng.gen_range(lo..=hi)
}

/// The characters `Alphanumeric` draws from: `A-Z`, `a-z` and `0-9`.
pub open spec fn is_alphanumeric(c: char) -> bool {
    ('A' <= c && c <= 'Z') || ('a' <= c && c <= 'z') || ('0' <= c && c <= '9')
}

/// Relies on rand's `Alphanumeric::sample_string`: `len` characters, each
/// taken from the 62-character alphanumeric set.
#[verifier::external_body]
pub(crate) fn random_alphanumeric(rng: &mut SmallRng, len: usize) -> (r: String)
    ensures
        r@.len() == len,
        forall|i: int| 0 <= i < len ==> is_alphanumeric(#[trigger] r@[i]),
{
    rand::distributions::Alphanumeric.sample_string(rng, len)
}

/// Always yields the value it was built with.
#[derive(Clone, Copy, Debug)]
pub struct ConstantGenerator {
    pub value: u64,
}

impl ConstantGenerator {
    pub fn new(value: u64) -> (r: Self)
        ensures
            r.value == value,
    {
        ConstantGenerator { value }
    }

    pub fn next_value(&self) -> (r: u64)
        ensures
            r == self.value,
    {
        self.value
    }
}

/// Hands out consecutive integers, each exactly once, starting at an offset.
#[derive(Clone, Copy, Debug)]
pub struct CounterGenerator {
    pub counter: u64,
}

impl CounterGenerator {
    pub fn new(start: u64) -> (r: Self)
        ensures
            r.counter == start,
    {
        CounterGenerator { counter: start }
    }

    /// Returns the current value and advances by one.
    pub fn next_value(&mut self) -> (r: u64)
        requires
            old(self).counter < u64::MAX,
        ensures
            r == old(self).counter,
            final(self).counter == old(self).counter + 1,
    {
        let r = self.counter;
        self.counter = self.counter + 1;
        r
    }

    /// The value the next call will return.
    pub fn last_value(&self) -> (r: u64)
        ensures
            r == self.counter,
    {
        self.counter
    }
}


/// Yields integers uniformly from `[lb, ub]`.
#[derive(Clone, Copy, Debug)]
pub struct UniformLongGenerator {
    pub lb: u64,
    pub ub: u64,
}

impl UniformLongGenerator {
    pub open spec fn wf(&self) -> bool {
        self.lb <= self.ub
    }

    pub fn new(lb: u64, ub: u64) -> (r: Self)
        requires
            lb <= ub,
        ensures
            r.lb == lb,
            r.ub == ub,
            r.wf(),
    {
        UniformLongGenerator { lb, ub }
    }

    pub fn next_value(&self, rng: &mut SmallRng) -> (r: u64)
        requires
            self.wf(),
        ensures
            self.lb <= r <= self.ub,
    {
        random_in_range(rng, self.lb, self.ub)
    }
}

/// A value together with its (unnormalized) weight.
#[derive(Clone, Copy, Debug)]
pub struct WeightPair<T> {
    pub weight: u32,
    pub value: T,
}

impl<T> WeightPair<T> {
    pub fn new(weight: u32, value: T) -> (r: Self)
        ensures
            r.weight == weight,
            r.value == value,
    {
        WeightPair { weight, value }
    }
}

/// Sum of the weights of `pairs`.
pub open spec fn total_weight<T>(pairs: Seq<WeightPair<T>>) -> nat
    decreases pairs.len(),
{
    if pairs.len() == 0 {
        0
    } else {
        total_weight(pairs.drop_last()) + pairs.last().weight as nat
    }
}

/// The index of the first pair whose cumulative weight exceeds `draw`.
pub open spec fn pick_index<T>(pairs: Seq<WeightPair<T>>, draw: int) -> int
    decreases pairs.len(),
{
    if pairs.len() == 0 {
        0
    } else if draw < pairs[0].weight {
        0
    } else {
        1 + pick_index(pairs.drop_first(), draw - pairs[0].weight)
    }
}

proof fn lemma_total_weight_split<T>(pairs: Seq<WeightPair<T>>)
    requires
        pairs.len() > 0,
    ensures
        total_weight(pairs) == pairs[0].weight + total_weight(pairs.drop_first()),
    decreases pairs.len(),
{
    if pairs.len() > 1 {
        lemma_total_weight_split(pairs.drop_last());
        assert(pairs.drop_last().drop_first() =~= pairs.drop_first().drop_last());
        assert(pairs.drop_first().last() == pairs.last());
        assert(pairs.drop_last()[0] == pairs[0]);
    } else {
        assert(total_weight(pairs.drop_first()) == 0);
        assert(total_weight(pairs.drop_last()) == 0);
    }
}

proof fn lemma_pick_in_bounds<T>(pairs: Seq<WeightPair<T>>, draw: int)
    requires
        0 <= draw < total_weight(pairs),
    ensures
        0 <= pick_index(pairs, draw) < pairs.len(),
    decreases pairs.len(),
{
    if pairs.len() > 0 {
        lemma_total_weight_split(pairs);
        if draw >= pairs[0].weight {
            lemma_pick_in_bounds(pairs.drop_first(), draw - pairs[0].weight);
        }
    }
}


/// The weight of the first `n` pairs.
pub open spec fn prefix_weight<T>(pairs: Seq<WeightPair<T>>, n: int) -> nat {
    total_weight(pairs.subrange(0, n))
}

/// A draw selects pair `i` exactly when it falls in `[prefix_weight(i),
/// prefix_weight(i + 1))`: of the `total` equally likely draws, exactly
/// `weight` select each pair, so each value comes out in proportion to its
/// weight.
pub proof fn lemma_draws_select_by_weight<T>(pairs: Seq<WeightPair<T>>, draw: int, i: int)
    requires
        0 <= draw < total_weight(pairs),
        0 <= i < pairs.len(),
    ensures
        pick_index(pairs, draw) == i <==> prefix_weight(pairs, i) <= draw < prefix_weight(
            pairs,
            i + 1,
        ),
        prefix_weight(pairs, i + 1) == prefix_weight(pairs, i) + pairs[i].weight,
    decreases pairs.len(),
{
    let w0 = pairs[0].weight as int;
    let tail = pairs.drop_first();
    lemma_total_weight_split(pairs);
    lemma_prefix_weight_split(pairs, i + 1);
    if i > 0 {
        lemma_prefix_weight_split(pairs, i);
    } else {
        assert(pairs.subrange(0, 0).len() == 0);
    }
    assert(pairs.subrange(0, i + 1).drop_last() =~= pairs.subrange(0, i));
    assert(total_weight(tail.subrange(0, 0)) == 0);
    if draw >= w0 {
        lemma_pick_in_bounds(tail, draw - w0);
        if i > 0 {
            lemma_draws_select_by_weight(tail, draw - w0, i - 1);
        }
    }
}

proof fn lemma_prefix_weight_split<T>(pairs: Seq<WeightPair<T>>, n: int)
    requires
        1 <= n <= pairs.len(),
    ensures
        prefix_weight(pairs, n) == pairs[0].weight + prefix_weight(pairs.drop_first(), n - 1),
{
    let head = pairs.subrange(0, n);
    lemma_total_weight_split(head);
    assert(head.drop_first() =~= pairs.drop_first().subrange(0, n - 1));
}

/// Picks a value with probability proportional to its weight: a uniform draw
/// from `[0, total)` is matched against the cumulative weights, the first
/// pair whose cumulative weight exceeds the draw winning.
#[derive(Clone, Debug)]
pub struct DiscreteGenerator<T> {
    pub pairs: Vec<WeightPair<T>>,
    pub total: u64,
}

impl<T: Copy> DiscreteGenerator<T> {
    pub open spec fn wf(&self) -> bool {
        self.total == total_weight(self.pairs@)
    }

    pub fn new(pairs: Vec<WeightPair<T>>) -> (r: Self)
        requires
            total_weight(pairs@) <= u64::MAX,
        ensures
            r.pairs@ == pairs@,
            r.wf(),
    {
        let mut total: u64 = 0;
        let mut i: usize = 0;
        while i < pairs.len()
            invariant
                i <= pairs.len(),
                total == total_weight(pairs@.subrange(0, i as int)),
                total_weight(pairs@) <= u64::MAX,
            decreases pairs.len() - i,
        {
            assert(pairs@.subrange(0, i + 1).drop_last() =~= pairs@.subrange(0, i as int));
            proof {
                lemma_total_weight_prefix_le(pairs@, i + 1);
            }
            total = total + pairs[i].weight as u64;
            i = i + 1;
        }
        assert(pairs@.subrange(0, i as int) =~= pairs@);
        DiscreteGenerator { pairs, total }
    }

    /// The value that a draw in `[0, total)` selects.
    pub fn value_for(&self, draw: u64) -> (r: T)
        requires
            self.wf(),
            draw < self.total,
        ensures
            r == self.pairs@[pick_index(self.pairs@, draw as int)].value,
    {
        assert(self.pairs@.subrange(0, self.pairs.len() as int) =~= self.pairs@);
        let mut i: usize = 0;
        let mut rest: u64 = draw;
        while i < self.pairs.len()
            invariant
                self.wf(),
                i <= self.pairs.len(),
                rest <= draw,
                rest < total_weight(self.pairs@.subrange(i as int, self.pairs.len() as int)),
                pick_index(self.pairs@, draw as int) == i + pick_index(
                    self.pairs@.subrange(i as int, self.pairs.len() as int),
                    rest as int,
                ),
            decreases self.pairs.len() - i,
        {
            let ghost tail = self.pairs@.subrange(i as int, self.pairs.len() as int);
            assert(tail[0] == self.pairs@[i as int]);
            proof {
                lemma_total_weight_split(tail);
            }
            if rest < self.pairs[i].weight as u64 {
                return self.pairs[i].value;
            }
            assert(tail.drop_first() =~= self.pairs@.subrange(i + 1, self.pairs.len() as int));
            rest = rest - self.pairs[i].weight as u64;
            i = i + 1;
        }
        self.pairs[0].value
    }

    /// Draws a value, or `None` when no pair has weight.
    pub fn next_value(&self, rng: &mut SmallRng) -> (r: Option<T>)
        requires
            self.wf(),
        ensures
            r is None <==> self.total == 0,
            r matches Some(v) ==> exists|d: int|
                0 <= d < self.total && 0 <= #[trigger] pick_index(self.pairs@, d) < self.pairs@.len()
                    && v == self.pairs@[pick_index(self.pairs@, d)].value,
    {
        if self.total == 0 {
            return None;
        }
        let draw = random_in_range(rng, 0, self.total - 1);
        let v = self.value_for(draw);
        proof {
            lemma_pick_in_bounds(self.pairs@, draw as int);
        }
        Some(v)
    }
}

proof fn lemma_total_weight_prefix_le<T>(pairs: Seq<WeightPair<T>>, n: int)
    requires
        0 <= n <= pairs.len(),
    ensures
        total_weight(pairs.subrange(0, n)) <= total_weight(pairs),
    decreases pairs.len() - n,
{
    if n < pairs.len() {
        lemma_total_weight_prefix_le(pairs, n + 1);
        assert(pairs.subrange(0, n + 1).drop_last() =~= pairs.subrange(0, n));
    } else {
        assert(pairs.subrange(0, n) =~= pairs);
    }
}


/// How far beyond the watermark values may be acknowledged.
pub const WINDOW_SIZE: u64 = 1048576;

/// Why an acknowledgement was refused.
#[derive(Clone, Copy, Debug, PartialEq, Eq)]
pub enum AcknowledgeError {
    /// The value lies a full window or more beyond the watermark (or is the
    /// largest `u64`, which has no successor for the watermark to move to).
    OutsideWindow,
}

/// A counter whose values are handed out in sequence and later acknowledged
/// in any order. The watermark is the first value not yet acknowledged: all
/// values below it are known to be committed.
#[derive(Clone, Debug)]
pub struct AcknowledgedCounterGenerator {
    pub counter: CounterGenerator,
    /// The first value of the sequence.
    pub start: u64,
    pub watermark: u64,
    /// `pending[i]` tells whether `watermark + i` has been acknowledged.
    pub pending: VecDeque<bool>,
}

impl AcknowledgedCounterGenerator {
    pub open spec fn wf(&self) -> bool {
        &&& self.start <= self.watermark
        &&& self.pending@.len() <= WINDOW_SIZE
        &&& self.watermark + self.pending@.len() <= u64::MAX
        &&& (self.pending@.len() > 0 ==> !self.pending@[0])
    }

    /// The values acknowledged at or beyond the watermark.
    pub open spec fn acknowledged(&self) -> Set<int> {
        Set::new(
            |x: int|
                self.watermark <= x < self.watermark + self.pending@.len()
                    && self.pending@[x - self.watermark],
        )
    }

    pub fn new(start: u64) -> (r: Self)
        ensures
            r.wf(),
            r.counter.counter == start,
            r.start == start,
            r.watermark == start,
            r.acknowledged() == Set::<int>::empty(),
    {
        let r = AcknowledgedCounterGenerator {
            counter: CounterGenerator::new(start),
            start,
            watermark: start,
            pending: VecDeque::new(),
        };
        assert(r.acknowledged() =~= Set::<int>::empty());
        r
    }

    /// Returns the next raw value of the counter.
    pub fn next_value(&mut self) -> (r: u64)
        requires
            old(self).counter.counter < u64::MAX,
        ensures
            r == old(self).counter.counter,
            final(self).counter.counter == old(self).counter.counter + 1,
            final(self).start == old(self).start,
            final(self).watermark == old(self).watermark,
            final(self).pending == old(self).pending,
    {
        self.counter.next_value()
    }

    /// The first value not yet acknowledged.
    pub fn watermark(&self) -> (r: u64)
        ensures
            r == self.watermark,
    {
        self.watermark
    }

    /// The highest value below which every value of the sequence is
    /// committed: the one just under the watermark, or `None` while the
    /// first value is still unacknowledged.
    pub fn last_acknowledged(&self) -> (r: Option<u64>)
        requires
            self.wf(),
        ensures
            r == if self.watermark == self.start {
                None::<u64>
            } else {
                Some((self.watermark - 1) as u64)
            },
    {
        if self.watermark == self.start {
            None
        } else {
            Some(self.watermark - 1)
        }
    }

    /// Marks `value` as committed, then moves the watermark past every
    /// acknowledged value that directly follows it.
    pub fn acknowledge(&mut self, value: u64) -> (r: Result<(), AcknowledgeError>)
        requires
            old(self).wf(),
        ensures
            final(self).wf(),
            final(self).counter == old(self).counter,
            final(self).start == old(self).start,
            r is Err <==> (value >= old(self).watermark && (value - old(self).watermark
                >= WINDOW_SIZE || value == u64::MAX)),
            r is Err || value < old(self).watermark ==> final(self).watermark == old(
                self,
            ).watermark && final(self).acknowledged() == old(self).acknowledged(),
            r is Ok && value >= old(self).watermark ==> {
                let s = old(self).acknowledged().insert(value as int);
                &&& old(self).watermark <= final(self).watermark
                &&& forall|x: int|
                    old(self).watermark <= x < final(self).watermark ==> #[trigger] s.contains(x)
                &&& !s.contains(final(self).watermark as int)
                &&& final(self).acknowledged() == s.filter(|x: int| x >= final(self).watermark)
            },
    {
        if value < self.watermark {
            return Ok(());
        }
        if value - self.watermark >= WINDOW_SIZE || value == u64::MAX {
            return Err(AcknowledgeError::OutsideWindow);
        }
        let ghost s = self.acknowledged().insert(value as int);
        let ghost start = self.watermark;
        let idx = (value - self.watermark) as usize;
        while self.pending.len() <= idx
            invariant
                self.watermark == start,
                idx < WINDOW_SIZE,
                self.watermark + idx < u64::MAX,
                self.pending@.len() <= WINDOW_SIZE,
                self.watermark + self.pending@.len() <= u64::MAX,
                self.pending@.len() > 0 ==> !self.pending@[0],
                self.acknowledged() == old(self).acknowledged(),
                self.counter == old(self).counter,
                self.start == old(self).start,
            decreases idx + 1 - self.pending@.len(),
        {
            let ghost before = self.acknowledged();
            self.pending.push_back(false);
            assert(self.acknowledged() =~= before);
        }
        self.pending.remove(idx);
        self.pending.insert(idx, true);
        assert(self.acknowledged() =~= s);
        while self.pending.len() > 0 && self.pending[0]
            invariant
                start <= self.watermark,
                self.pending@.len() <= WINDOW_SIZE,
                self.watermark + self.pending@.len() <= u64::MAX,
                forall|x: int| start <= x < self.watermark ==> #[trigger] s.contains(x),
                forall|x: int| #[trigger] s.contains(x) ==> start <= x,
                forall|x: int| #[trigger] s.contains(x) ==> x < self.watermark + self.pending@.len(),
                self.acknowledged() == s.filter(|x: int| x >= self.watermark),
                self.counter == old(self).counter,
                self.start == old(self).start,
            decreases self.pending@.len(),
        {
            let ghost before = self.acknowledged();
            let ghost w = self.watermark as int;
            let ghost old_pending = self.pending@;
            assert(before.contains(w));
            self.pending.pop_front();
            self.watermark = self.watermark + 1;
            assert forall|x: int|
                self.acknowledged().contains(x) == s.filter(|y: int| y >= self.watermark).contains(
                    x,
                ) by {
                if w + 1 <= x < w + old_pending.len() {
                    assert(self.pending@[x - self.watermark] == old_pending[x - w]);
                    assert(before.contains(x) == old_pending[x - w]);
                }
            }
            assert(self.acknowledged() =~= s.filter(|x: int| x >= self.watermark));
        }
        proof {
            if s.contains(self.watermark as int) {
                assert(self.acknowledged().contains(self.watermark as int));
            }
        }
        Ok(())
    }
}

/// The set of integers in `[lo, hi)`.
pub open spec fn int_range(lo: int, hi: int) -> Set<int> {
    Set::new(|x: int| lo <= x < hi)
}

/// A run of counter calls, in whatever order concurrent callers were
/// serialized: `states[i]` is the counter before call `i` and `outs[i]` what
/// that call returned. The values handed out are exactly
/// `start, start + 1, ..., start + calls - 1`, none twice.
pub proof fn lemma_counter_hands_out_range(states: Seq<CounterGenerator>, outs: Seq<u64>)
    requires
        states.len() == outs.len() + 1,
        forall|i: int| 0 <= i < outs.len() ==> #[trigger] outs[i] == states[i].counter,
        forall|i: int|
            0 < i < states.len() ==> #[trigger] states[i].counter == states[i - 1].counter + 1,
    ensures
        outs.map_values(|v: u64| v as int).to_set() == int_range(
            states[0].counter as int,
            states[0].counter + outs.len(),
        ),
        outs.no_duplicates(),
{
    let start = states[0].counter as int;
    assert forall|i: int| 0 <= i < outs.len() implies outs[i] == start + i by {
        lemma_counter_step(states, outs, i);
    }
    let ints = outs.map_values(|v: u64| v as int);
    assert forall|x: int| ints.to_set().contains(x) <==> int_range(
        start,
        start + outs.len(),
    ).contains(x) by {
        if start <= x < start + outs.len() {
            assert(ints[x - start] == x);
        }
    }
    assert(ints.to_set() =~= int_range(start, start + outs.len()));
}

proof fn lemma_counter_step(states: Seq<CounterGenerator>, outs: Seq<u64>, i: int)
    requires
        states.len() == outs.len() + 1,
        forall|i: int| 0 <= i < outs.len() ==> #[trigger] outs[i] == states[i].counter,
        forall|i: int|
            0 < i < states.len() ==> #[trigger] states[i].counter == states[i - 1].counter + 1,
        0 <= i < outs.len(),
    ensures
        outs[i] == states[0].counter + i,
    decreases i,
{
    if i > 0 {
        lemma_counter_step(states, outs, i - 1);
    }
}

} // verus!
