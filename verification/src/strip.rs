use vstd::prelude::*;

use crate::particle::Particle;

verus! {

/// At most this many particles of a strip are drawn in a frame.
pub const MAX_DRAWN: usize = 500;

/// The records of a strip: for each particle, the indices it has absorbed
/// and whether it is active.
pub type StripRecords = Seq<(Seq<usize>, bool)>;

/// Every index that a particle has recorded names a particle further along
/// the same strip: a particle only ever absorbs particles that come after it.
pub open spec fn records_in_order(s: StripRecords) -> bool {
    forall|i: int, k: int|
        0 <= i < s.len() && 0 <= k < s[i].0.len() ==> i < #[trigger] s[i].0[k] < s.len()
}

/// Every particle of the strip is active.
pub open spec fn all_active(s: StripRecords) -> bool {
    forall|i: int| 0 <= i < s.len() ==> #[trigger] s[i].1
}

/// What holds of the records of every strip.
pub open spec fn strip_invariant(s: StripRecords) -> bool {
    records_in_order(s) && all_active(s)
}

/// The records of a strip after its particle `i` absorbed its particle `j`.
pub open spec fn absorbed(s: StripRecords, i: int, j: int) -> StripRecords {
    s.update(i, (s[i].0 + s[j].0 + seq![j as usize], s[i].1)).update(j, (Seq::empty(), s[j].1))
}

/// The indices, in increasing order, of the active particles among the
/// first `m` of the strip.
pub open spec fn drawable(s: StripRecords, m: int) -> Seq<usize>
    decreases m,
{
    if m <= 0 {
        Seq::empty()
    } else if s[m - 1].1 {
        drawable(s, m - 1).push((m - 1) as usize)
    } else {
        drawable(s, m - 1)
    }
}

/// How many particles of a strip of `len` particles are considered for drawing.
pub open spec fn draw_limit(len: int) -> int {
    if len < MAX_DRAWN as int { len } else { MAX_DRAWN as int }
}

/// The records of a sequence of particles.
pub closed spec fn records_of(ps: Seq<Particle>) -> StripRecords {
    ps.map_values(|p: Particle| p@)
}

/// Since every particle of a strip stays active, the particles drawn from it
/// are exactly its first ones, up to the limit.
pub proof fn lemma_active_strip_draws_its_first_particles(s: StripRecords, m: int)
    requires
        all_active(s),
        0 <= m <= s.len(),
        m <= usize::MAX,
    ensures
        drawable(s, m) == Seq::new(m as nat, |i: int| i as usize),
    decreases m,
{
    if m > 0 {
        lemma_active_strip_draws_its_first_particles(s, m - 1);
        assert(drawable(s, m) =~= Seq::new(m as nat, |i: int| i as usize));
    }
}

/// The particles drawn among the first `m`: only active ones below `m`, in
/// increasing order, and every active one below `m`.
pub proof fn lemma_drawable_describes_selection(s: StripRecords, m: int)
    requires
        0 <= m <= s.len(),
        m <= usize::MAX,
    ensures
        forall|k: int|
            0 <= k < drawable(s, m).len() ==> #[trigger] drawable(s, m)[k] < m && s[drawable(
                s,
                m,
            )[k] as int].1,
        forall|k1: int, k2: int|
            0 <= k1 < k2 < drawable(s, m).len() ==> #[trigger] drawable(s, m)[k1]
                < #[trigger] drawable(s, m)[k2],
        forall|x: int| 0 <= x < m && #[trigger] s[x].1 ==> drawable(s, m).contains(x as usize),
    decreases m,
{
    if m > 0 {
        lemma_drawable_describes_selection(s, m - 1);
        let prev = drawable(s, m - 1);
        if s[m - 1].1 {
            assert(drawable(s, m) == prev.push((m - 1) as usize));
            assert forall|x: int| 0 <= x < m && #[trigger] s[x].1 implies drawable(
                s,
                m,
            ).contains(x as usize) by {
                if x < m - 1 {
                    let w = choose|w: int| 0 <= w < prev.len() && prev[w] == x as usize;
                    assert(drawable(s, m)[w] == x as usize);
                } else {
                    assert(drawable(s, m)[prev.len() as int] == x as usize);
                }
            }
        }
    }
}

/// The number of particles considered for drawing is the strip's length,
/// capped at `MAX_DRAWN`.
pub proof fn lemma_draw_limit_caps_length(len: int)
    requires
        0 <= len,
    ensures
        draw_limit(len) <= len,
        draw_limit(len) <= MAX_DRAWN,
        draw_limit(len) == len || draw_limit(len) == MAX_DRAWN,
        len <= MAX_DRAWN ==> draw_limit(len) == len,
        len >= MAX_DRAWN ==> draw_limit(len) == MAX_DRAWN,
{
}

/// After particle `i` absorbed particle `j`, the record of `i` is its old
/// record, then the old record of `j`, then `j` itself, nothing dropped;
/// the record of `j` is empty; nothing else changes.
pub proof fn lemma_absorbed_moves_whole_record(s: StripRecords, i: int, j: int)
    requires
        0 <= i < j < s.len(),
        j <= usize::MAX,
    ensures
        absorbed(s, i, j).len() == s.len(),
        absorbed(s, i, j)[i].0 == s[i].0 + s[j].0 + seq![j as usize],
        absorbed(s, i, j)[i].0.len() == s[i].0.len() + s[j].0.len() + 1,
        absorbed(s, i, j)[j].0 == Seq::<usize>::empty(),
        absorbed(s, i, j)[i].1 == s[i].1,
        absorbed(s, i, j)[j].1 == s[j].1,
        forall|a: int| 0 <= a < s.len() && a != i && a != j ==> #[trigger] absorbed(s, i, j)[a] == s[a],
{
}

/// One strip of particles, of which the collision stage handles all
/// collisions itself.
pub struct Strip {
    particles: Vec<Particle>,
}

impl View for Strip {
    type V = StripRecords;

    closed spec fn view(&self) -> StripRecords {
        records_of(self.particles@)
    }
}

impl Strip {
    #[verifier::type_invariant]
    closed spec fn inv(self) -> bool {
        strip_invariant(self@)
    }

    /// A strip of `len` particles fresh from the shower head.
    pub fn new(len: usize) -> (strip: Strip)
        ensures
            strip@ == Seq::new(len as nat, |i: int| (Seq::<usize>::empty(), true)),
            strip_invariant(strip@),
    {
        let mut particles: Vec<Particle> = Vec::new();
        for n in 0..len
            invariant
                particles@.len() == n,
                forall|k: int| 0 <= k < n ==> #[trigger] particles@[k]@ == (
                    Seq::<usize>::empty(),
                    true,
                ),
        {
            particles.push(Particle::new());
        }
        let strip = Strip { particles };
        assert(strip@ =~= Seq::new(len as nat, |i: int| (Seq::<usize>::empty(), true)));
        strip
    }

    /// The number of particles in the strip.
    pub fn len(&self) -> (n: usize)
        ensures
            n == self@.len(),
            strip_invariant(self@),
    {
        proof {
            use_type_invariant(self);
        }
        self.particles.len()
    }

    /// Whether particle `i` is active.
    pub fn is_active(&self, i: usize) -> (active: bool)
        requires
            i < self@.len(),
        ensures
            active == self@[i as int].1,
            strip_invariant(self@),
    {
        proof {
            use_type_invariant(self);
        }
        self.particles[i].is_active()
    }

    /// Records that particle `i` absorbed particle `j`, a later one of the
    /// same strip.
    pub fn absorb(&mut self, i: usize, j: usize)
        requires
            i < j < old(self)@.len(),
        ensures
            final(self)@ == absorbed(old(self)@, i as int, j as int),
            strip_invariant(final(self)@),
            final(self)@.len() == old(self)@.len(),
            final(self)@[i as int].0 == old(self)@[i as int].0 + old(self)@[j as int].0 + seq![j],
            final(self)@[i as int].0.len() == old(self)@[i as int].0.len() + old(
                self,
            )@[j as int].0.len() + 1,
            final(self)@[j as int].0 == Seq::<usize>::empty(),
            forall|a: int|
                0 <= a < old(self)@.len() ==> #[trigger] final(self)@[a].1 == old(self)@[a].1,
            forall|a: int|
                0 <= a < old(self)@.len() && a != i && a != j ==> #[trigger] final(self)@[a]
                    == old(self)@[a],
    {
        proof {
            use_type_invariant(&*self);
        }
        let ghost before = self@;
        let mut particles: Vec<Particle> = Vec::new();
        std::mem::swap(&mut particles, &mut self.particles);
        let mut other = Particle::new();
        std::mem::swap(&mut other, &mut particles[j]);
        particles[i].absorb(&mut other, j);
        std::mem::swap(&mut other, &mut particles[j]);
        let ghost after = records_of(particles@);
        assert(after.len() == before.len());
        assert(after[i as int] == (before[i as int].0 + before[j as int].0 + seq![j], before[i as int].1));
        assert(after[j as int] == (Seq::<usize>::empty(), before[j as int].1));
        assert(after =~= absorbed(before, i as int, j as int));
        assert forall|a: int, k: int|
            0 <= a < after.len() && 0 <= k < after[a].0.len() implies a < #[trigger] after[a].0[k]
            < after.len() by {
            if a == i as int {
                let first = before[a].0.len();
                let second = before[j as int].0.len();
                if k < first {
                    assert(after[a].0[k] == before[a].0[k]);
                } else if k < first + second {
                    assert(after[a].0[k] == before[j as int].0[k - first]);
                } else {
                    assert(after[a].0[k] == j);
                }
            } else {
                assert(after[a].0[k] == before[a].0[k]);
            }
        }
        self.particles = particles;
    }

    /// The particles that go back to the shower head together with particle
    /// `i` when it reaches the floor: those it has absorbed, oldest first.
    /// Each of them lies further along the strip than `i`.
    pub fn respawn_targets(&self, i: usize) -> (targets: Vec<usize>)
        requires
            i < self@.len(),
        ensures
            targets@ == self@[i as int].0,
            forall|k: int| 0 <= k < targets@.len() ==> i < #[trigger] targets@[k] < self@.len(),
            strip_invariant(self@),
    {
        proof {
            use_type_invariant(self);
        }
        let recorded = self.particles[i].recorded();
        let mut targets: Vec<usize> = Vec::new();
        for k in 0..recorded.len()
            invariant
                recorded@ == self@[i as int].0,
                targets@ == recorded@.subrange(0, k as int),
        {
            targets.push(recorded[k]);
            assert(targets@ =~= recorded@.subrange(0, k + 1));
        }
        assert(targets@ =~= recorded@);
        targets
    }

    /// The particles to draw this frame: the active ones among the first
    /// `MAX_DRAWN` of the strip, in order.
    pub fn draw_selection(&self) -> (selected: Vec<usize>)
        ensures
            selected@ == drawable(self@, draw_limit(self@.len() as int)),
            strip_invariant(self@),
            forall|k: int|
                0 <= k < selected@.len() ==> #[trigger] selected@[k] < self@.len()
                    && selected@[k] < MAX_DRAWN && self@[selected@[k] as int].1,
            forall|k1: int, k2: int|
                0 <= k1 < k2 < selected@.len() ==> #[trigger] selected@[k1]
                    < #[trigger] selected@[k2],
            forall|m: int|
                0 <= m < self@.len() && m < MAX_DRAWN && #[trigger] self@[m].1
                    ==> selected@.contains(m as usize),
            selected@.len() == (if self@.len() < MAX_DRAWN { self@.len() } else { MAX_DRAWN as nat }),
            forall|k: int| 0 <= k < selected@.len() ==> #[trigger] selected@[k] == k,
    {
        proof {
            use_type_invariant(self);
        }
        let limit = if self.particles.len() < MAX_DRAWN {
            self.particles.len()
        } else {
            MAX_DRAWN
        };
        let mut selected: Vec<usize> = Vec::new();
        for n in 0..limit
            invariant
                limit <= self@.len(),
                selected@ == drawable(self@, n as int),
        {
            if self.particles[n].is_active() {
                selected.push(n);
            }
        }
        proof {
            lemma_drawable_describes_selection(self@, limit as int);
            lemma_active_strip_draws_its_first_particles(self@, limit as int);
        }
        assert(limit as int == draw_limit(self@.len() as int));
        selected
    }
}

} // verus!
