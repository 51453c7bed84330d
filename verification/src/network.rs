//! Neural network: an ordered stack of fully-connected hard-threshold
//! layers. Weights and biases are fixed-point values in [-ONE, ONE]; an
//! output neuron fires (emits `ONE`) exactly when its weighted input sum
//! strictly exceeds its bias. Mutation blends every weight and bias toward a
//! fresh random draw by a tunable factor.
use vstd::prelude::*;

use crate::fixed::ONE;
use crate::fixed::SCALE;
use crate::fixed::lerp;
use crate::fixed::spec_lerp;
use crate::rng::rand_in_range;

verus! {

/// One fully-connected threshold layer. `weights[i][o]` connects input `i`
/// to output neuron `o`.
#[derive(Clone, Debug)]
pub struct NetworkLevel {
    pub inputs: Vec<i64>,
    pub weights: Vec<Vec<i64>>,
    pub outputs: Vec<i64>,
    pub biases: Vec<i64>,
}

/// The weight matrix as a sequence of rows.
pub open spec fn level_weights(l: NetworkLevel) -> Seq<Seq<i64>> {
    l.weights@.map_values(|row: Vec<i64>| row@)
}

/// Shape and range invariant of a layer: matching dimensions, at most 255
/// neurons on either side, and every stored value within one unit.
pub open spec fn level_wf(l: NetworkLevel) -> bool {
    &&& l.weights@.len() == l.inputs@.len()
    &&& l.biases@.len() == l.outputs@.len()
    &&& l.inputs@.len() <= 255
    &&& l.outputs@.len() <= 255
    &&& forall|i: int|
        0 <= i < l.weights@.len() ==> (#[trigger] l.weights@[i])@.len() == l.outputs@.len()
    &&& forall|i: int, o: int|
        0 <= i < l.weights@.len() && 0 <= o < l.outputs@.len() ==> -ONE
            <= #[trigger] l.weights@[i]@[o] <= ONE
    &&& forall|o: int| 0 <= o < l.biases@.len() ==> -ONE <= #[trigger] l.biases@[o] <= ONE
    &&& forall|i: int| 0 <= i < l.inputs@.len() ==> -ONE <= #[trigger] l.inputs@[i] <= ONE
    &&& forall|o: int| 0 <= o < l.outputs@.len() ==> -ONE <= #[trigger] l.outputs@[o] <= ONE
}

/// Sum of the first `k` weighted inputs feeding output neuron `o`.
pub open spec fn weighted_sum(ws: Seq<Seq<i64>>, ins: Seq<i64>, o: int, k: int) -> int
    decreases k,
{
    if k <= 0 {
        0
    } else {
        weighted_sum(ws, ins, o, k - 1) + (ins[k - 1] as int) * (ws[k - 1][o] as int)
    }
}

/// Hard threshold activation of output neuron `o`: `ONE` exactly when the
/// weighted sum strictly exceeds the neuron's bias.
pub open spec fn level_out(l: NetworkLevel, ins: Seq<i64>, o: int) -> i64 {
    if weighted_sum(level_weights(l), ins, o, ins.len() as int) > (l.biases@[o] as int) * (
    SCALE as int) {
        ONE
    } else {
        0i64
    }
}

/// The full output vector of a layer on the input vector `ins`.
pub open spec fn level_eval(l: NetworkLevel, ins: Seq<i64>) -> Seq<i64> {
    Seq::new(l.outputs@.len(), |o: int| level_out(l, ins, o))
}

/// Output of the layer stack on `ins`: each layer's outputs feed the next.
pub open spec fn network_eval(levels: Seq<NetworkLevel>, ins: Seq<i64>) -> Seq<i64>
    decreases levels.len(),
{
    if levels.len() == 0 {
        ins
    } else {
        network_eval(levels.subrange(1, levels.len() as int), level_eval(levels[0], ins))
    }
}

/// The two layers agree on everything the evaluation reads: weights, biases
/// and output count. (The transient input/output buffers may differ.)
pub open spec fn level_equiv(a: NetworkLevel, b: NetworkLevel) -> bool {
    &&& level_weights(a) == level_weights(b)
    &&& a.biases@ == b.biases@
    &&& a.outputs@.len() == b.outputs@.len()
}

pub open spec fn levels_equiv(a: Seq<NetworkLevel>, b: Seq<NetworkLevel>) -> bool {
    &&& a.len() == b.len()
    &&& forall|i: int| 0 <= i < a.len() ==> level_equiv(#[trigger] a[i], #[trigger] b[i])
}

/// Evaluation is a pure function of weights, biases and inputs: two layer
/// stacks that agree on those produce identical outputs on identical inputs,
/// however often they are evaluated.
pub proof fn lemma_evaluate_deterministic(a: Seq<NetworkLevel>, b: Seq<NetworkLevel>, ins: Seq<i64>)
    requires
        levels_equiv(a, b),
    ensures
        network_eval(a, ins) == network_eval(b, ins),
    decreases a.len(),
{
    if a.len() > 0 {
        assert(level_equiv(a[0], b[0]));
        assert(level_eval(a[0], ins) =~= level_eval(b[0], ins));
        assert(levels_equiv(a.subrange(1, a.len() as int), b.subrange(1, b.len() as int)));
        lemma_evaluate_deterministic(
            a.subrange(1, a.len() as int),
            b.subrange(1, b.len() as int),
            level_eval(a[0], ins),
        );
    }
}

/// A nonempty layer stack only ever emits the exact values 0 and `ONE`.
pub proof fn lemma_outputs_binary(levels: Seq<NetworkLevel>, ins: Seq<i64>)
    requires
        levels.len() > 0,
    ensures
        forall|o: int|
            0 <= o < network_eval(levels, ins).len() ==> #[trigger] network_eval(levels, ins)[o]
                == 0 || network_eval(levels, ins)[o] == ONE,
    decreases levels.len(),
{
    let rest = levels.subrange(1, levels.len() as int);
    let first = level_eval(levels[0], ins);
    assert(network_eval(levels, ins) == network_eval(rest, first));
    if rest.len() == 0 {
        assert(network_eval(rest, first) == first);
        assert forall|o: int| 0 <= o < first.len() implies first[o] == 0 || first[o] == ONE by {
            assert(first[o] == level_out(levels[0], ins, o));
        }
    } else {
        lemma_outputs_binary(rest, first);
    }
}

/// Appending a layer to a stack composes its activation after the stack.
proof fn lemma_network_eval_snoc(levels: Seq<NetworkLevel>, lvl: NetworkLevel, ins: Seq<i64>)
    ensures
        network_eval(levels.push(lvl), ins) == level_eval(lvl, network_eval(levels, ins)),
    decreases levels.len(),
{
    let all = levels.push(lvl);
    if levels.len() == 0 {
        assert(all.subrange(1, all.len() as int) =~= Seq::<NetworkLevel>::empty());
        assert(all[0] == lvl);
        assert(network_eval(Seq::<NetworkLevel>::empty(), level_eval(lvl, ins)) == level_eval(
            lvl,
            ins,
        ));
        assert(network_eval(all, ins) == network_eval(
            Seq::<NetworkLevel>::empty(),
            level_eval(lvl, ins),
        ));
    } else {
        assert(all.subrange(1, all.len() as int) =~= levels.subrange(
            1,
            levels.len() as int,
        ).push(lvl));
        assert(all[0] == levels[0]);
        lemma_network_eval_snoc(
            levels.subrange(1, levels.len() as int),
            lvl,
            level_eval(levels[0], ins),
        );
    }
}

impl NetworkLevel {
    /// Build a layer of the given dimensions with weights and biases drawn
    /// uniformly from [-1, 1).
    pub fn new(input_count: u8, output_count: u8) -> (l: NetworkLevel)
        ensures
            level_wf(l),
            l.inputs@.len() == input_count,
            l.outputs@.len() == output_count,
            forall|i: int| 0 <= i < l.inputs@.len() ==> l.inputs@[i] == 0,
            forall|o: int| 0 <= o < l.outputs@.len() ==> l.outputs@[o] == 0,
            forall|i: int, o: int|
                0 <= i < l.weights@.len() && 0 <= o < l.outputs@.len() ==> -ONE
                    <= #[trigger] l.weights@[i]@[o] < ONE,
            forall|o: int| 0 <= o < l.biases@.len() ==> -ONE <= #[trigger] l.biases@[o] < ONE,
    {
        let mut weights: Vec<Vec<i64>> = Vec::new();
        let mut i: usize = 0;
        while i < input_count as usize
            invariant
                i <= input_count as usize,
                weights@.len() == i,
                forall|a: int|
                    0 <= a < i ==> (#[trigger] weights@[a])@ == Seq::new(
                        output_count as nat,
                        |o: int| 0i64,
                    ),
            decreases input_count as usize - i,
        {
            let row: Vec<i64> = vec![0i64; output_count as usize];
            weights.push(row);
            i = i + 1;
        }
        let mut level = NetworkLevel {
            inputs: vec![0i64; input_count as usize],
            weights,
            outputs: vec![0i64; output_count as usize],
            biases: vec![0i64; output_count as usize],
        };
        level.randomize();
        level
    }

    /// Overwrite every weight and bias with a fresh uniform draw from [-1, 1).
    fn randomize(&mut self)
        requires
            old(self).weights@.len() == old(self).inputs@.len(),
            old(self).biases@.len() == old(self).outputs@.len(),
            forall|i: int|
                0 <= i < old(self).weights@.len() ==> (#[trigger] old(self).weights@[i])@.len()
                    == old(self).outputs@.len(),
        ensures
            final(self).inputs@ == old(self).inputs@,
            final(self).outputs@ == old(self).outputs@,
            final(self).weights@.len() == old(self).weights@.len(),
            final(self).biases@.len() == old(self).biases@.len(),
            forall|i: int|
                0 <= i < final(self).weights@.len() ==> (#[trigger] final(self).weights@[i])@.len()
                    == final(self).outputs@.len(),
            forall|i: int, o: int|
                0 <= i < final(self).weights@.len() && 0 <= o < final(self).outputs@.len() ==> -ONE
                    <= #[trigger] final(self).weights@[i]@[o] < ONE,
            forall|o: int|
                0 <= o < final(self).biases@.len() ==> -ONE <= #[trigger] final(self).biases@[o]
                    < ONE,
    {
        let n_in: usize = self.weights.len();
        let n_out: usize = self.outputs.len();
        let mut i: usize = 0;
        while i < n_in
            invariant
                i <= n_in,
                n_in == self.weights@.len(),
                n_out == self.outputs@.len(),
                self.inputs@ == old(self).inputs@,
                self.outputs@ == old(self).outputs@,
                self.biases@ == old(self).biases@,
                n_in == old(self).weights@.len(),
                forall|a: int|
                    0 <= a < n_in ==> (#[trigger] self.weights@[a])@.len() == n_out,
                forall|a: int, b: int|
                    0 <= a < i && 0 <= b < n_out ==> -ONE <= #[trigger] self.weights@[a]@[b] < ONE,
            decreases n_in - i,
        {
            let mut o: usize = 0;
            while o < n_out
                invariant
                    i < n_in,
                    o <= n_out,
                    n_in == self.weights@.len(),
                    n_out == self.outputs@.len(),
                    self.inputs@ == old(self).inputs@,
                    self.outputs@ == old(self).outputs@,
                    self.biases@ == old(self).biases@,
                    n_in == old(self).weights@.len(),
                    forall|a: int|
                        0 <= a < n_in ==> (#[trigger] self.weights@[a])@.len() == n_out,
                    forall|a: int, b: int|
                        0 <= a < i && 0 <= b < n_out ==> -ONE <= #[trigger] self.weights@[a]@[b]
                            < ONE,
                    forall|b: int|
                        0 <= b < o ==> -ONE <= #[trigger] self.weights@[i as int]@[b] < ONE,
                decreases n_out - o,
            {
                let r: i64 = rand_in_range(-ONE, ONE);
                self.weights[i][o] = r;
                o = o + 1;
            }
            i = i + 1;
        }
        let n_bias: usize = self.biases.len();
        let mut o: usize = 0;
        while o < n_bias
            invariant
                o <= n_bias,
                n_bias == self.biases@.len(),
                n_bias == old(self).biases@.len(),
                n_in == self.weights@.len(),
                n_out == self.outputs@.len(),
                self.inputs@ == old(self).inputs@,
                self.outputs@ == old(self).outputs@,
                n_in == old(self).weights@.len(),
                forall|a: int|
                    0 <= a < n_in ==> (#[trigger] self.weights@[a])@.len() == n_out,
                forall|a: int, b: int|
                    0 <= a < n_in && 0 <= b < n_out ==> -ONE <= #[trigger] self.weights@[a]@[b]
                        < ONE,
                forall|b: int| 0 <= b < o ==> -ONE <= #[trigger] self.biases@[b] < ONE,
            decreases n_bias - o,
        {
            let r: i64 = rand_in_range(-ONE, ONE);
            self.biases[o] = r;
            o = o + 1;
        }
    }

    /// Copy `ins` into the layer's input slots, then set each output neuron
    /// to `ONE` exactly when its weighted input sum strictly exceeds its
    /// bias, and to 0 otherwise.
    fn feed_forward(&mut self, ins: &Vec<i64>)
        requires
            level_wf(*old(self)),
            ins@.len() == old(self).inputs@.len(),
            forall|i: int| 0 <= i < ins@.len() ==> -ONE <= #[trigger] ins@[i] <= ONE,
        ensures
            level_wf(*final(self)),
            level_equiv(*final(self), *old(self)),
            final(self).weights == old(self).weights,
            final(self).biases == old(self).biases,
            final(self).inputs@ == ins@,
            final(self).outputs@ == level_eval(*old(self), ins@),
    {
        let n_in: usize = self.inputs.len();
        let n_out: usize = self.outputs.len();
        let mut i: usize = 0;
        while i < n_in
            invariant
                i <= n_in,
                n_in == self.inputs@.len(),
                n_in == ins@.len(),
                self.weights == old(self).weights,
                self.biases == old(self).biases,
                self.outputs@ == old(self).outputs@,
                forall|a: int| 0 <= a < i ==> self.inputs@[a] == ins@[a],
            decreases n_in - i,
        {
            let v: i64 = ins[i];
            self.inputs[i] = v;
            i = i + 1;
        }
        assert(self.inputs@ =~= ins@);
        let ghost orig = *old(self);
        let mut o: usize = 0;
        while o < n_out
            invariant
                o <= n_out,
                n_out == self.outputs@.len(),
                n_in == ins@.len(),
                level_wf(orig),
                n_in == orig.inputs@.len(),
                n_out == orig.outputs@.len(),
                self.weights == orig.weights,
                self.biases == orig.biases,
                self.inputs@ == ins@,
                forall|i2: int| 0 <= i2 < ins@.len() ==> -ONE <= #[trigger] ins@[i2] <= ONE,
                forall|b: int| 0 <= b < o ==> self.outputs@[b] == level_out(orig, ins@, b),
                forall|b: int|
                    o <= b < n_out ==> -ONE <= #[trigger] self.outputs@[b] <= ONE,
            decreases n_out - o,
        {
            let mut sum: i64 = 0;
            let mut i2: usize = 0;
            while i2 < n_in
                invariant
                    i2 <= n_in,
                    n_in == ins@.len(),
                    o < n_out,
                    level_wf(orig),
                    n_in == orig.inputs@.len(),
                    n_out == orig.outputs@.len(),
                    self.weights == orig.weights,
                    self.inputs@ == ins@,
                    forall|i3: int| 0 <= i3 < ins@.len() ==> -ONE <= #[trigger] ins@[i3] <= ONE,
                    sum == weighted_sum(level_weights(orig), ins@, o as int, i2 as int),
                    -(i2 as int) * 1_000_000 <= sum <= (i2 as int) * 1_000_000,
                decreases n_in - i2,
            {
                let w: i64 = self.weights[i2][o];
                let x: i64 = self.inputs[i2];
                proof {
                    crate::geometry::lemma_mul_abs_bound(x as int, w as int, 1000, 1000);
                    assert(level_weights(orig)[i2 as int] == orig.weights@[i2 as int]@);
                }
                sum = sum + x * w;
                i2 = i2 + 1;
            }
            let b: i64 = self.biases[o];
            let fire: i64 = if sum > b * SCALE {
                ONE
            } else {
                0
            };
            proof {
                assert(fire == level_out(orig, ins@, o as int));
            }
            self.outputs[o] = fire;
            o = o + 1;
        }
        assert(self.outputs@ =~= level_eval(orig, ins@));
    }

    /// Blend every weight and bias toward a fresh uniform draw from [-1, 1)
    /// by the factor `amount`: 0 leaves the layer unchanged, `ONE` replaces
    /// every value by its draw.
    fn mutate(&mut self, amount: i64)
        requires
            level_wf(*old(self)),
            0 <= amount <= ONE,
        ensures
            level_wf(*final(self)),
            final(self).inputs@ == old(self).inputs@,
            final(self).outputs@ == old(self).outputs@,
            final(self).weights@.len() == old(self).weights@.len(),
            final(self).biases@.len() == old(self).biases@.len(),
            forall|i: int|
                0 <= i < final(self).weights@.len() ==> (#[trigger] final(self).weights@[i])@.len()
                    == old(self).weights@[i]@.len(),
            forall|i: int, o: int|
                0 <= i < final(self).weights@.len() && 0 <= o < final(self).weights@[i]@.len()
                    ==> mutated_from(
                    old(self).weights@[i]@[o] as int,
                    #[trigger] final(self).weights@[i]@[o] as int,
                    amount as int,
                ),
            forall|o: int|
                0 <= o < final(self).biases@.len() ==> mutated_from(
                    old(self).biases@[o] as int,
                    #[trigger] final(self).biases@[o] as int,
                    amount as int,
                ),
            amount == 0 ==> level_weights(*final(self)) == level_weights(*old(self))
                && final(self).biases@ == old(self).biases@,
    {
        let n_out: usize = self.outputs.len();
        let n_bias: usize = self.biases.len();
        let mut o: usize = 0;
        while o < n_bias
            invariant
                o <= n_bias,
                0 <= amount <= ONE,
                n_bias == self.biases@.len(),
                n_bias == old(self).biases@.len(),
                n_out == self.outputs@.len(),
                self.inputs@ == old(self).inputs@,
                self.outputs@ == old(self).outputs@,
                self.weights == old(self).weights,
                level_wf(*old(self)),
                forall|b: int|
                    0 <= b < o ==> mutated_from(
                        old(self).biases@[b] as int,
                        #[trigger] self.biases@[b] as int,
                        amount as int,
                    ),
                forall|b: int|
                    0 <= b < o ==> -ONE <= #[trigger] self.biases@[b] <= ONE,
                forall|b: int| o <= b < n_bias ==> self.biases@[b] == old(self).biases@[b],
                amount == 0 ==> forall|b: int|
                    0 <= b < n_bias ==> self.biases@[b] == old(self).biases@[b],
            decreases n_bias - o,
        {
            let r: i64 = rand_in_range(-ONE, ONE);
            let prev: i64 = self.biases[o];
            let blended: i64 = lerp(prev, r, amount);
            proof {
                crate::fixed::lemma_lerp_in_range(-ONE as int, ONE as int, prev as int, r as int, amount as int);
                if amount == 0 {
                    crate::fixed::lemma_lerp_endpoints(prev as int, r as int);
                }
                assert(mutated_from(prev as int, blended as int, amount as int));
            }
            self.biases[o] = blended;
            o = o + 1;
        }
        let n_in: usize = self.weights.len();
        let mut i: usize = 0;
        while i < n_in
            invariant
                i <= n_in,
                0 <= amount <= ONE,
                n_in == self.weights@.len(),
                n_in == old(self).weights@.len(),
                n_out == self.outputs@.len(),
                n_bias == self.biases@.len(),
                self.inputs@ == old(self).inputs@,
                self.outputs@ == old(self).outputs@,
                level_wf(*old(self)),
                forall|b: int|
                    0 <= b < n_bias ==> mutated_from(
                        old(self).biases@[b] as int,
                        #[trigger] self.biases@[b] as int,
                        amount as int,
                    ),
                forall|b: int| 0 <= b < n_bias ==> -ONE <= #[trigger] self.biases@[b] <= ONE,
                amount == 0 ==> self.biases@ == old(self).biases@,
                forall|a: int|
                    0 <= a < n_in ==> (#[trigger] self.weights@[a])@.len()
                        == old(self).weights@[a]@.len(),
                forall|a: int, b: int|
                    0 <= a < i && 0 <= b < self.weights@[a]@.len() ==> mutated_from(
                        old(self).weights@[a]@[b] as int,
                        #[trigger] self.weights@[a]@[b] as int,
                        amount as int,
                    ),
                forall|a: int, b: int|
                    0 <= a < i && 0 <= b < self.weights@[a]@.len() ==> -ONE
                        <= #[trigger] self.weights@[a]@[b] <= ONE,
                forall|a: int|
                    i <= a < n_in ==> (#[trigger] self.weights@[a])@ == old(self).weights@[a]@,
                amount == 0 ==> forall|a: int|
                    0 <= a < i ==> (#[trigger] self.weights@[a])@ == old(self).weights@[a]@,
            decreases n_in - i,
        {
            let row_len: usize = self.weights[i].len();
            let mut b: usize = 0;
            while b < row_len
                invariant
                    b <= row_len,
                    i < n_in,
                    0 <= amount <= ONE,
                    n_in == self.weights@.len(),
                    n_in == old(self).weights@.len(),
                    n_out == self.outputs@.len(),
                    n_bias == self.biases@.len(),
                    self.inputs@ == old(self).inputs@,
                    self.outputs@ == old(self).outputs@,
                    forall|b2: int|
                        0 <= b2 < n_bias ==> mutated_from(
                            old(self).biases@[b2] as int,
                            #[trigger] self.biases@[b2] as int,
                            amount as int,
                        ),
                    forall|b2: int| 0 <= b2 < n_bias ==> -ONE <= #[trigger] self.biases@[b2] <= ONE,
                    amount == 0 ==> self.biases@ == old(self).biases@,
                    level_wf(*old(self)),
                    row_len == self.weights@[i as int]@.len(),
                    row_len == old(self).weights@[i as int]@.len(),
                    forall|a: int|
                        0 <= a < n_in ==> (#[trigger] self.weights@[a])@.len()
                            == old(self).weights@[a]@.len(),
                    forall|a: int, b2: int|
                        0 <= a < i && 0 <= b2 < self.weights@[a]@.len() ==> mutated_from(
                            old(self).weights@[a]@[b2] as int,
                            #[trigger] self.weights@[a]@[b2] as int,
                            amount as int,
                        ),
                    forall|a: int, b2: int|
                        0 <= a < i && 0 <= b2 < self.weights@[a]@.len() ==> -ONE
                            <= #[trigger] self.weights@[a]@[b2] <= ONE,
                    forall|b2: int|
                        0 <= b2 < b ==> mutated_from(
                            old(self).weights@[i as int]@[b2] as int,
                            #[trigger] self.weights@[i as int]@[b2] as int,
                            amount as int,
                        ),
                    forall|b2: int|
                        0 <= b2 < b ==> -ONE <= #[trigger] self.weights@[i as int]@[b2] <= ONE,
                    forall|b2: int|
                        b <= b2 < row_len ==> self.weights@[i as int]@[b2] == old(self).weights@[i as int]@[b2],
                    forall|a: int|
                        i < a < n_in ==> (#[trigger] self.weights@[a])@ == old(self).weights@[a]@,
                    amount == 0 ==> forall|a: int|
                        0 <= a < i ==> (#[trigger] self.weights@[a])@ == old(self).weights@[a]@,
                    amount == 0 ==> forall|b2: int|
                        0 <= b2 < b ==> self.weights@[i as int]@[b2] == old(self).weights@[i as int]@[b2],
                decreases row_len - b,
            {
                let r: i64 = rand_in_range(-ONE, ONE);
                let prev: i64 = self.weights[i][b];
                let blended: i64 = lerp(prev, r, amount);
                proof {
                    crate::fixed::lemma_lerp_in_range(-ONE as int, ONE as int, prev as int, r as int, amount as int);
                    if amount == 0 {
                        crate::fixed::lemma_lerp_endpoints(prev as int, r as int);
                    }
                    assert(mutated_from(prev as int, blended as int, amount as int));
                }
                self.weights[i][b] = blended;
                b = b + 1;
            }
            proof {
                if amount == 0 {
                    assert((self.weights@[i as int])@ =~= old(self).weights@[i as int]@);
                }
            }
            i = i + 1;
        }
        proof {
            if amount == 0 {
                assert(self.biases@ =~= old(self).biases@);
                assert(level_weights(*self) =~= level_weights(*old(self)));
            }
        }
    }
}

/// The new value arose from the old one by blending it toward some draw from
/// [-1, 1) by the factor `amount`.
pub open spec fn mutated_from(old_v: int, new_v: int, amount: int) -> bool {
    exists|r: int| -ONE <= r < ONE && new_v == spec_lerp(old_v, r, amount)
}

/// Blending by a zero factor leaves a value exactly unchanged.
pub proof fn lemma_mutate_zero_is_identity(old_v: int, new_v: int)
    requires
        mutated_from(old_v, new_v, 0),
    ensures
        new_v == old_v,
{
    let r = choose|r: int| -ONE <= r < ONE && new_v == spec_lerp(old_v, r, 0);
    crate::fixed::lemma_lerp_endpoints(old_v, r);
}

/// Blending by the full factor `ONE` replaces a value by its fresh draw: the
/// result is the drawn value itself, inside [-1, 1) whatever the old value
/// was.
pub proof fn lemma_mutate_full_replacement(old_v: int, new_v: int)
    requires
        mutated_from(old_v, new_v, ONE as int),
    ensures
        -ONE <= new_v < ONE,
{
    let r = choose|r: int| -ONE <= r < ONE && new_v == spec_lerp(old_v, r, ONE as int);
    crate::fixed::lemma_lerp_endpoints(old_v, r);
}

/// The control network: an ordered stack of layers where each layer's output
/// count equals the next layer's input count, plus the identifiers of the
/// sensors whose readings feed the first layer.
#[derive(Debug)]
pub struct NeuralNetwork {
    pub levels: Vec<NetworkLevel>,
    pub input_rays: Vec<usize>,
}

/// Well-formed network: at least one layer, each layer well formed, and
/// consecutive layers dimensioned to fit.
pub open spec fn network_wf(n: NeuralNetwork) -> bool {
    &&& n.levels@.len() >= 1
    &&& forall|i: int| 0 <= i < n.levels@.len() ==> level_wf(#[trigger] n.levels@[i])
    &&& forall|i: int|
        0 <= i < n.levels@.len() - 1 ==> (#[trigger] n.levels@[i]).outputs@.len()
            == n.levels@[i + 1].inputs@.len()
}

/// Copy of a fixed-point vector.
fn copy_vec(src: &Vec<i64>) -> (dst: Vec<i64>)
    ensures
        dst@ == src@,
{
    let mut dst: Vec<i64> = Vec::new();
    let mut i: usize = 0;
    while i < src.len()
        invariant
            i <= src@.len(),
            dst@.len() == i,
            forall|a: int| 0 <= a < i ==> dst@[a] == src@[a],
        decreases src@.len() - i,
    {
        dst.push(src[i]);
        i = i + 1;
    }
    assert(dst@ =~= src@);
    dst
}

impl NeuralNetwork {
    /// Build a network from an ordered list of neuron counts (at least two):
    /// one randomly initialized layer for each adjacent pair of counts.
    pub fn new(neuron_count_per_level: &Vec<u8>, input_rays: Vec<usize>) -> (n: NeuralNetwork)
        requires
            neuron_count_per_level@.len() >= 2,
        ensures
            network_wf(n),
            n.input_rays@ == input_rays@,
            n.levels@.len() == neuron_count_per_level@.len() - 1,
            forall|i: int|
                0 <= i < n.levels@.len() ==> (#[trigger] n.levels@[i]).inputs@.len()
                    == neuron_count_per_level@[i] && n.levels@[i].outputs@.len()
                    == neuron_count_per_level@[i + 1],
    {
        let mut levels: Vec<NetworkLevel> = Vec::new();
        let mut i: usize = 0;
        while i < neuron_count_per_level.len() - 1
            invariant
                neuron_count_per_level@.len() >= 2,
                i <= neuron_count_per_level@.len() - 1,
                levels@.len() == i,
                forall|a: int|
                    0 <= a < i ==> level_wf(#[trigger] levels@[a]) && levels@[a].inputs@.len()
                        == neuron_count_per_level@[a] && levels@[a].outputs@.len()
                        == neuron_count_per_level@[a + 1],
            decreases neuron_count_per_level@.len() - 1 - i,
        {
            let lvl = NetworkLevel::new(
                neuron_count_per_level[i],
                neuron_count_per_level[i + 1],
            );
            levels.push(lvl);
            i = i + 1;
        }
        NeuralNetwork { levels, input_rays }
    }

    /// Adopt the given layers verbatim, then mutate them by `mutate_factor`.
    pub fn with_levels(levels: Vec<NetworkLevel>, input_rays: Vec<usize>, mutate_factor: i64) -> (n:
        NeuralNetwork)
        requires
            levels@.len() >= 1,
            forall|i: int| 0 <= i < levels@.len() ==> level_wf(#[trigger] levels@[i]),
            forall|i: int|
                0 <= i < levels@.len() - 1 ==> (#[trigger] levels@[i]).outputs@.len()
                    == levels@[i + 1].inputs@.len(),
            0 <= mutate_factor <= ONE,
        ensures
            network_wf(n),
            n.input_rays@ == input_rays@,
            n.levels@.len() == levels@.len(),
            forall|l: int|
                0 <= l < levels@.len() ==> (#[trigger] n.levels@[l]).inputs@.len()
                    == levels@[l].inputs@.len() && n.levels@[l].outputs@.len()
                    == levels@[l].outputs@.len() && n.levels@[l].biases@.len()
                    == levels@[l].biases@.len() && n.levels@[l].weights@.len()
                    == levels@[l].weights@.len(),
            forall|l: int, i: int, o: int|
                0 <= l < levels@.len() && 0 <= i < levels@[l].weights@.len() && 0 <= o
                    < levels@[l].weights@[i]@.len() ==> mutated_from(
                    levels@[l].weights@[i]@[o] as int,
                    (#[trigger] n.levels@[l].weights@[i]@[o]) as int,
                    mutate_factor as int,
                ),
            forall|l: int, o: int|
                0 <= l < levels@.len() && 0 <= o < levels@[l].biases@.len() ==> mutated_from(
                    levels@[l].biases@[o] as int,
                    (#[trigger] n.levels@[l].biases@[o]) as int,
                    mutate_factor as int,
                ),
            mutate_factor == 0 ==> forall|l: int|
                0 <= l < levels@.len() ==> level_weights(#[trigger] n.levels@[l]) == level_weights(
                    levels@[l],
                ) && n.levels@[l].biases@ == levels@[l].biases@,
    {
        let mut network = NeuralNetwork { levels, input_rays };
        network.mutate(mutate_factor);
        network
    }

    /// Evaluate the network: feed `inputs` through each layer in order and
    /// return the final layer's output vector, each entry exactly 0 or
    /// `ONE`. The result depends only on the layers' weights and biases and
    /// on `inputs`.
    pub fn feed_forward(&mut self, inputs: &Vec<i64>) -> (out: Vec<i64>)
        requires
            network_wf(*old(self)),
            inputs@.len() == old(self).levels@[0].inputs@.len(),
            forall|i: int| 0 <= i < inputs@.len() ==> -ONE <= #[trigger] inputs@[i] <= ONE,
        ensures
            network_wf(*final(self)),
            levels_equiv(final(self).levels@, old(self).levels@),
            final(self).levels@.len() == old(self).levels@.len(),
            forall|a: int|
                0 <= a < final(self).levels@.len()
                    ==> (#[trigger] final(self).levels@[a]).inputs@.len()
                    == old(self).levels@[a].inputs@.len(),
            final(self).input_rays@ == old(self).input_rays@,
            out@ == network_eval(old(self).levels@, inputs@),
            forall|o: int| 0 <= o < out@.len() ==> out@[o] == 0 || out@[o] == ONE,
            out@.len() == old(self).levels@[old(self).levels@.len() - 1].outputs@.len(),
    {
        let ghost orig_levels = old(self).levels@;
        let n_levels: usize = self.levels.len();
        let mut current: Vec<i64> = copy_vec(inputs);
        let mut l: usize = 0;
        while l < n_levels
            invariant
                l <= n_levels,
                n_levels == self.levels@.len(),
                n_levels == orig_levels.len(),
                self.input_rays@ == old(self).input_rays@,
                network_wf(*old(self)),
                orig_levels == old(self).levels@,
                levels_equiv(self.levels@, orig_levels),
                forall|a: int| 0 <= a < n_levels ==> level_wf(#[trigger] self.levels@[a]),
                forall|a: int|
                    0 <= a < n_levels ==> (#[trigger] self.levels@[a]).inputs@.len()
                        == orig_levels[a].inputs@.len(),
                forall|a: int| l <= a < n_levels ==> self.levels@[a] == orig_levels[a],
                inputs@.len() == orig_levels[0].inputs@.len(),
                current@ == network_eval(orig_levels.subrange(0, l as int), inputs@),
                current@.len() == if l == 0 {
                    inputs@.len()
                } else {
                    orig_levels[l - 1].outputs@.len()
                },
                forall|j: int| 0 <= j < current@.len() ==> -ONE <= #[trigger] current@[j] <= ONE,
            decreases n_levels - l,
        {
            proof {
                assert(orig_levels.subrange(0, l as int).push(orig_levels[l as int])
                    =~= orig_levels.subrange(0, l as int + 1));
                lemma_network_eval_snoc(
                    orig_levels.subrange(0, l as int),
                    orig_levels[l as int],
                    inputs@,
                );
                assert(self.levels@[l as int] == orig_levels[l as int]);
                assert(current@.len() == self.levels@[l as int].inputs@.len());
            }
            self.levels[l].feed_forward(&current);
            current = copy_vec(&self.levels[l].outputs);
            l = l + 1;
        }
        proof {
            assert(orig_levels.subrange(0, n_levels as int) =~= orig_levels);
            lemma_outputs_binary(orig_levels, inputs@);
        }
        current
    }

    /// Blend every weight and bias of every layer toward a fresh uniform
    /// draw from [-1, 1) by the factor `amount`.
    fn mutate(&mut self, amount: i64)
        requires
            0 <= amount <= ONE,
            forall|l: int|
                0 <= l < old(self).levels@.len() ==> level_wf(#[trigger] old(self).levels@[l]),
        ensures
            final(self).levels@.len() == old(self).levels@.len(),
            final(self).input_rays@ == old(self).input_rays@,
            forall|l: int|
                0 <= l < final(self).levels@.len() ==> level_wf(#[trigger] final(self).levels@[l]),
            forall|l: int|
                0 <= l < final(self).levels@.len() ==> (#[trigger] final(self).levels@[l]).inputs@ == old(self).levels@[l].inputs@ && final(self).levels@[l].outputs@ == old(self).levels@[l].outputs@ && final(self).levels@[l].biases@.len() == old(self).levels@[l].biases@.len() && final(self).levels@[l].weights@.len() == old(self).levels@[l].weights@.len(),
            forall|l: int, i: int|
                0 <= l < final(self).levels@.len() && 0 <= i
                    < final(self).levels@[l].weights@.len() ==> (#[trigger] final(self).levels@[l].weights@[i])@.len() == old(self).levels@[l].weights@[i]@.len(),
            forall|l: int, i: int, o: int|
                0 <= l < final(self).levels@.len() && 0 <= i
                    < final(self).levels@[l].weights@.len() && 0 <= o
                    < final(self).levels@[l].weights@[i]@.len() ==> mutated_from(
                    old(self).levels@[l].weights@[i]@[o] as int,
                    (#[trigger] final(self).levels@[l].weights@[i]@[o]) as int,
                    amount as int,
                ),
            forall|l: int, o: int|
                0 <= l < final(self).levels@.len() && 0 <= o
                    < final(self).levels@[l].biases@.len() ==> mutated_from(
                    old(self).levels@[l].biases@[o] as int,
                    (#[trigger] final(self).levels@[l].biases@[o]) as int,
                    amount as int,
                ),
            amount == 0 ==> forall|l: int|
                0 <= l < final(self).levels@.len() ==> level_weights(
                    #[trigger] final(self).levels@[l],
                ) == level_weights(old(self).levels@[l]) && final(self).levels@[l].biases@ == old(self).levels@[l].biases@,
    {
        let n_levels: usize = self.levels.len();
        let mut l: usize = 0;
        while l < n_levels
            invariant
                l <= n_levels,
                0 <= amount <= ONE,
                n_levels == self.levels@.len(),
                n_levels == old(self).levels@.len(),
                self.input_rays@ == old(self).input_rays@,
                forall|a: int|
                    0 <= a < old(self).levels@.len() ==> level_wf(#[trigger] old(self).levels@[a]),
                forall|a: int| l <= a < n_levels ==> self.levels@[a] == old(self).levels@[a],
                forall|a: int| 0 <= a < l ==> level_wf(#[trigger] self.levels@[a]),
                forall|a: int|
                    0 <= a < l ==> (#[trigger] self.levels@[a]).inputs@ == old(self).levels@[a].inputs@ && self.levels@[a].outputs@ == old(self).levels@[a].outputs@ && self.levels@[a].biases@.len() == old(self).levels@[a].biases@.len() && self.levels@[a].weights@.len() == old(self).levels@[a].weights@.len(),
                forall|a: int, i: int|
                    0 <= a < l && 0 <= i < self.levels@[a].weights@.len() ==> (#[trigger] self
                        .levels@[a].weights@[i])@.len() == old(self).levels@[a].weights@[i]@.len(),
                forall|a: int, i: int, o: int|
                    0 <= a < l && 0 <= i < self.levels@[a].weights@.len() && 0 <= o
                        < self.levels@[a].weights@[i]@.len() ==> mutated_from(
                        old(self).levels@[a].weights@[i]@[o] as int,
                        (#[trigger] self.levels@[a].weights@[i]@[o]) as int,
                        amount as int,
                    ),
                forall|a: int, o: int|
                    0 <= a < l && 0 <= o < self.levels@[a].biases@.len() ==> mutated_from(
                        old(self).levels@[a].biases@[o] as int,
                        (#[trigger] self.levels@[a].biases@[o]) as int,
                        amount as int,
                    ),
                amount == 0 ==> forall|a: int|
                    0 <= a < l ==> level_weights(#[trigger] self.levels@[a]) == level_weights(
                        old(self).levels@[a],
                    ) && self.levels@[a].biases@ == old(self).levels@[a].biases@,
            decreases n_levels - l,
        {
            self.levels[l].mutate(amount);
            l = l + 1;
        }
    }
}

/// Build the network a vehicle adopts after a load attempt: loaded layers
/// are taken verbatim and mutated by `mutate_factor`; a failed load (no
/// layers) falls back to a freshly randomized network of shape `sizes`.
pub fn network_from_loaded(
    loaded: Option<Vec<NetworkLevel>>,
    sizes: &Vec<u8>,
    input_rays: Vec<usize>,
    mutate_factor: i64,
) -> (n: NeuralNetwork)
    requires
        sizes@.len() >= 2,
        0 <= mutate_factor <= ONE,
        loaded matches Some(levels) ==> levels@.len() >= 1 && (forall|i: int|
            0 <= i < levels@.len() ==> level_wf(#[trigger] levels@[i])) && (forall|i: int|
            0 <= i < levels@.len() - 1 ==> (#[trigger] levels@[i]).outputs@.len()
                == levels@[i + 1].inputs@.len()),
    ensures
        network_wf(n),
        n.input_rays@ == input_rays@,
        loaded matches Some(levels) ==> n.levels@.len() == levels@.len() && (mutate_factor == 0
            ==> forall|l: int|
            0 <= l < levels@.len() ==> level_weights(#[trigger] n.levels@[l]) == level_weights(
                levels@[l],
            ) && n.levels@[l].biases@ == levels@[l].biases@),
        loaded is None ==> n.levels@.len() == sizes@.len() - 1,
{
    match loaded {
        Some(levels) => NeuralNetwork::with_levels(levels, input_rays, mutate_factor),
        None => NeuralNetwork::new(sizes, input_rays),
    }
}

} // verus!
