use vstd::prelude::*;

verus! {

/// The number of strips into which the particles are divided.
pub const NUM_STRIPS: usize = 12;

/// How many particles each strip holds when `num_particles` are asked for:
/// they are shared out evenly and what is left over is dropped.
pub fn strip_length(num_particles: usize) -> (len: usize)
    ensures
        len == num_particles / NUM_STRIPS,
{
    num_particles / NUM_STRIPS
}

/// The pairs of strips that the movement stage moves in a frame of
/// `num_strips` strips: strips `2k` and `2k + 1` together, for each `k`
/// below `num_strips / 2`, in increasing order.
pub open spec fn schedule(num_strips: usize) -> Seq<(usize, usize)> {
    Seq::new((num_strips / 2) as nat, |k: int| ((2 * k) as usize, (2 * k + 1) as usize))
}

/// The indices that a stage sends on when it handles the pairs `pairs` in
/// order: the first and then the second index of each pair.
pub open spec fn flatten(pairs: Seq<(usize, usize)>) -> Seq<usize>
    decreases pairs.len(),
{
    if pairs.len() == 0 {
        Seq::empty()
    } else {
        seq![pairs[0].0, pairs[0].1] + flatten(pairs.drop_first())
    }
}

/// Whether `second`, as the second strip of a pair, closes the frame.
pub open spec fn closes_frame(num_strips: usize, second: usize) -> bool {
    num_strips > 0 && second == num_strips - 1
}

/// The pairs that the movement stage moves, in order, in a frame of
/// `num_strips` strips.
pub fn movement_schedule(num_strips: usize) -> (pairs: Vec<(usize, usize)>)
    ensures
        pairs@ == schedule(num_strips),
        pairs@.len() == num_strips / 2,
        forall|k: int|
            0 <= k < pairs@.len() ==> #[trigger] pairs@[k] == ((2 * k) as usize, (2 * k
                + 1) as usize) && 2 * k + 1 < num_strips,
{
    let length = num_strips / 2;
    let mut pairs: Vec<(usize, usize)> = Vec::new();
    for k in 0..length
        invariant
            length == num_strips / 2,
            pairs@ == schedule(num_strips).subrange(0, k as int),
    {
        let first = k * 2;
        let second = first + 1;
        pairs.push((first, second));
        assert(pairs@ =~= schedule(num_strips).subrange(0, k + 1));
    }
    assert(pairs@ =~= schedule(num_strips));
    assert forall|k: int| 0 <= k < pairs@.len() implies #[trigger] pairs@[k] == (
        (2 * k) as usize,
        (2 * k + 1) as usize,
    ) && 2 * k + 1 < num_strips by {
        assert(pairs@[k] == schedule(num_strips).subrange(0, length as int)[k]);
    }
    pairs
}

/// What a stage does after it received a strip index.
#[derive(PartialEq, Eq, Structural, Clone, Copy, Debug)]
pub enum PairAction {
    /// Wait for the second index of the pair.
    Wait,
    /// Handle strips `first` and `second`; `last` tells whether they close
    /// the frame.
    Process { first: usize, second: usize, last: bool },
}

/// A stage's state and action after it received `index`, holding `pending`.
pub open spec fn step(num_strips: usize, pending: Option<usize>, index: usize) -> (
    Option<usize>,
    PairAction,
) {
    match pending {
        None => (Some(index), PairAction::Wait),
        Some(first) => (
            None,
            PairAction::Process {
                first,
                second: index,
                last: closes_frame(num_strips, index),
            },
        ),
    }
}

/// The state a stage ends in, and the pairs it handles in order, when it
/// receives `indices` holding `pending`.
pub open spec fn run(num_strips: usize, pending: Option<usize>, indices: Seq<usize>) -> (
    Option<usize>,
    Seq<(usize, usize)>,
)
    decreases indices.len(),
{
    if indices.len() == 0 {
        (pending, Seq::empty())
    } else {
        let (next, action) = step(num_strips, pending, indices[0]);
        let (end, rest) = run(num_strips, next, indices.drop_first());
        match action {
            PairAction::Wait => (end, rest),
            PairAction::Process { first, second, last } => (end, seq![(first, second)] + rest),
        }
    }
}

/// The collision and the temperature stages: each receives strip indices
/// one by one and handles them two by two.
pub struct PairCollector {
    num_strips: usize,
    pending: Option<usize>,
}

impl PairCollector {
    /// The number of strips of the simulation.
    pub closed spec fn strips(self) -> usize {
        self.num_strips
    }

    /// The index received and not yet handled, if any.
    pub closed spec fn held(self) -> Option<usize> {
        self.pending
    }

    /// A stage for `num_strips` strips, holding nothing.
    pub fn new(num_strips: usize) -> (stage: PairCollector)
        ensures
            stage.strips() == num_strips,
            stage.held() == None::<usize>,
    {
        PairCollector { num_strips, pending: None }
    }

    /// Takes in the strip index `index`: the first of a pair is held, the
    /// second is handled together with it.
    pub fn receive(&mut self, index: usize) -> (action: PairAction)
        ensures
            final(self).strips() == old(self).strips(),
            (final(self).held(), action) == step(old(self).strips(), old(self).held(), index),
            (old(self).held() is None) ==> (action == PairAction::Wait && final(self).held()
                == Some(index)),
            (old(self).held() is Some) ==> ((final(self).held() is None) && action == (
            PairAction::Process {
                first: old(self).held()->0,
                second: index,
                last: old(self).strips() > 0 && index == old(self).strips() - 1,
            })),
    {
        match self.pending {
            None => {
                self.pending = Some(index);
                PairAction::Wait
            },
            Some(first) => {
                self.pending = None;
                let last = self.num_strips > 0 && index == self.num_strips - 1;
                PairAction::Process { first, second: index, last }
            },
        }
    }
}

/// A stage holding nothing keeps the index it receives and waits; a stage
/// holding `first` handles `first` with the index it receives, and the pair
/// closes the frame exactly when that index is the last strip's.
pub proof fn lemma_stage_pairs_indices(num_strips: usize, pending: Option<usize>, index: usize)
    ensures
        (pending is None) ==> (step(num_strips, pending, index) == (
            Some(index),
            PairAction::Wait,
        )),
        (pending is Some) ==> (step(num_strips, pending, index) == (
            None::<usize>,
            (PairAction::Process {
                first: pending->0,
                second: index,
                last: num_strips > 0 && index == num_strips - 1,
            }),
        )),
{
}

/// In a frame of an even, non-zero number of strips, the stage receiving the
/// second index of the `k`-th scheduled pair handles that pair, and reports
/// the end of the frame exactly for the final pair.
pub proof fn lemma_only_final_pair_ends_frame(num_strips: usize, k: int)
    requires
        num_strips % 2 == 0,
        num_strips > 0,
        0 <= k < num_strips / 2,
    ensures
        schedule(num_strips)[k] == ((2 * k) as usize, (2 * k + 1) as usize),
        step(num_strips, Some((2 * k) as usize), (2 * k + 1) as usize) == (
            None::<usize>,
            (PairAction::Process {
                first: (2 * k) as usize,
                second: (2 * k + 1) as usize,
                last: k == num_strips / 2 - 1,
            }),
        ),
{
}

/// A stage that holds nothing and receives the indices of the pairs `pairs`,
/// first and second of each in turn, handles exactly those pairs, in the same
/// order, and holds nothing afterwards.
pub proof fn lemma_pairs_handled_in_order(num_strips: usize, pairs: Seq<(usize, usize)>)
    ensures
        run(num_strips, None, flatten(pairs)) == (None::<usize>, pairs),
    decreases pairs.len(),
{
    if pairs.len() > 0 {
        let rest = pairs.drop_first();
        lemma_pairs_handled_in_order(num_strips, rest);
        let s = flatten(pairs);
        assert(s[0] == pairs[0].0);
        assert(s.drop_first()[0] == pairs[0].1);
        assert(s.drop_first().drop_first() =~= flatten(rest));
        assert(run(num_strips, Some(pairs[0].0), s.drop_first()) == (
            None::<usize>,
            seq![(pairs[0].0, pairs[0].1)] + rest,
        ));
        assert(seq![(pairs[0].0, pairs[0].1)] + rest =~= pairs);
    }
}

/// The indices sent for the pairs `pairs`: twice as many, the first and
/// second of pair `k` at positions `2k` and `2k + 1`.
pub proof fn lemma_flatten_positions(pairs: Seq<(usize, usize)>)
    ensures
        flatten(pairs).len() == 2 * pairs.len(),
        forall|k: int|
            0 <= k < pairs.len() ==> #[trigger] flatten(pairs)[2 * k] == pairs[k].0 && flatten(
                pairs,
            )[2 * k + 1] == pairs[k].1,
    decreases pairs.len(),
{
    if pairs.len() > 0 {
        let rest = pairs.drop_first();
        lemma_flatten_positions(rest);
        assert forall|k: int| 0 <= k < pairs.len() implies #[trigger] flatten(pairs)[2 * k]
            == pairs[k].0 && flatten(pairs)[2 * k + 1] == pairs[k].1 by {
            if k > 0 {
                assert(flatten(pairs)[2 * k] == flatten(rest)[2 * (k - 1)]);
                assert(flatten(pairs)[2 * k + 1] == flatten(rest)[2 * (k - 1) + 1]);
            }
        }
    }
}

/// In a frame, the movement stage sends every strip index below
/// `2 * (num_strips / 2)` exactly once, in increasing order.
pub proof fn lemma_movement_sends_each_strip_once(num_strips: usize)
    ensures
        flatten(schedule(num_strips)) == Seq::new(
            (2 * (num_strips / 2)) as nat,
            |i: int| i as usize,
        ),
{
    let pairs = schedule(num_strips);
    lemma_flatten_positions(pairs);
    let sent = flatten(pairs);
    assert forall|i: int| 0 <= i < sent.len() implies #[trigger] sent[i] == i as usize by {
        let k = i / 2;
        if i % 2 == 0 {
            assert(i == 2 * k);
            assert(sent[2 * k] == pairs[k].0);
        } else {
            assert(i == 2 * k + 1);
            assert(sent[2 * k] == pairs[k].0);
            assert(sent[2 * k + 1] == pairs[k].1);
        }
    }
    assert(sent =~= Seq::new((2 * (num_strips / 2)) as nat, |i: int| i as usize));
}

/// A frame runs through the whole pipeline: when the movement stage sends
/// its schedule to a fresh collision stage, that stage handles exactly the
/// scheduled pairs; it passes the same indices on, so the temperature stage
/// handles the same pairs; both end holding nothing, ready for the next frame.
/// When the number of strips is even and not zero, exactly one pair, the
/// last one, closes the frame, so the temperature stage reports the end of
/// the frame exactly once.
pub proof fn lemma_frame_completes(num_strips: usize)
    ensures
        run(num_strips, None, flatten(schedule(num_strips))) == (None::<usize>, schedule(
            num_strips,
        )),
        run(
            num_strips,
            None,
            flatten(run(num_strips, None, flatten(schedule(num_strips))).1),
        ) == (None::<usize>, schedule(num_strips)),
        num_strips % 2 == 0 && num_strips > 0 ==> forall|k: int|
            0 <= k < schedule(num_strips).len() ==> (closes_frame(
                num_strips,
                #[trigger] schedule(num_strips)[k].1,
            ) <==> k == schedule(num_strips).len() - 1),
{
    lemma_pairs_handled_in_order(num_strips, schedule(num_strips));
}

/// When the number of strips is odd, the last strip is never moved, and no
/// pair closes the frame.
pub proof fn lemma_odd_strip_count_never_closes(num_strips: usize)
    requires
        num_strips % 2 == 1,
    ensures
        forall|k: int|
            0 <= k < schedule(num_strips).len() ==> #[trigger] schedule(num_strips)[k].1
                < num_strips - 1 && !closes_frame(num_strips, schedule(num_strips)[k].1),
{
}

} // verus!
