use vstd::prelude::*;

verus! {

/// The vertex indices of the triangle by which every particle is drawn.
pub open spec fn triangle_indices() -> Seq<u16> {
    seq![0u16, 1u16, 2u16]
}

/// What a particle remembers of the collisions it took part in.
///
/// When two particles of a strip collide, the first one absorbs the second:
/// it takes over the second one's record and adds the second one's index.
/// When the absorbing particle later reaches the floor, every particle of its
/// record is sent back to the shower head.
pub struct Particle {
    collided_with: Vec<usize>,
    active: bool,
}

impl View for Particle {
    /// The indices of the particles absorbed so far, and whether the
    /// particle is active.
    type V = (Seq<usize>, bool);

    closed spec fn view(&self) -> (Seq<usize>, bool) {
        (self.collided_with@, self.active)
    }
}

impl Particle {
    /// A particle fresh from the shower head: active, having absorbed nothing.
    pub fn new() -> (p: Particle)
        ensures
            p@ == (Seq::<usize>::empty(), true),
    {
        Particle { collided_with: Vec::new(), active: true }
    }

    /// The indices of the particles that this one has absorbed, oldest first.
    pub fn get_collided_with(&mut self) -> (indices: &mut [usize])
        ensures
            indices@ == old(self)@.0,
            final(self)@ == (final(indices)@, old(self)@.1),
    {
        self.collided_with.as_mut_slice()
    }

    /// The indices of the particles that this one has absorbed, oldest first.
    pub(crate) fn recorded(&self) -> (indices: &Vec<usize>)
        ensures
            indices@ == self@.0,
    {
        &self.collided_with
    }

    /// Whether the particle takes part in the simulation.
    pub fn is_active(&self) -> (active: bool)
        ensures
            active == self@.1,
    {
        self.active
    }

    /// The indices of the triangle by which the particle is drawn.
    pub fn get_indices(&self) -> (indices: [u16; 3])
        ensures
            indices@ == triangle_indices(),
    {
        let indices: [u16; 3] = [0, 1, 2];
        assert(indices@ =~= triangle_indices());
        indices
    }

    /// Records that this particle absorbed `other`, which stands at
    /// `other_index` in the strip: this particle's record grows by the
    /// other's record and then by `other_index`, and the other's record is
    /// left empty.
    pub fn absorb(&mut self, other: &mut Particle, other_index: usize)
        ensures
            final(self)@ == (old(self)@.0 + old(other)@.0 + seq![other_index], old(self)@.1),
            final(other)@ == (Seq::<usize>::empty(), old(other)@.1),
    {
        self.collided_with.append(&mut other.collided_with);
        self.collided_with.push(other_index);
    }
}

} // verus!
