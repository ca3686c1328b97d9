use vstd::prelude::*;

verus! {

/// Which property of a particle its colour shows.
#[derive(PartialEq, Eq, Structural, Clone, Copy, Debug)]
pub enum ColourSource {
    /// From red when hot to blue when cold.
    Temperature,
    /// From blue when light to red when heavy.
    Mass,
}

/// Whether the particles are coloured by mass in place of temperature.
pub struct ColourMode {
    inverted: bool,
}

impl ColourMode {
    /// Whether the colours are inverted, that is, show mass.
    pub closed spec fn is_inverted(self) -> bool {
        self.inverted
    }

    /// Particles coloured by temperature.
    pub fn new() -> (mode: ColourMode)
        ensures
            !mode.is_inverted(),
    {
        ColourMode { inverted: false }
    }

    /// Switches between colouring by temperature and by mass.
    pub fn invert_colours(&mut self)
        ensures
            final(self).is_inverted() == !old(self).is_inverted(),
    {
        self.inverted = !self.inverted;
    }

    /// What the particles' colours show.
    pub fn colour_source(&self) -> (source: ColourSource)
        ensures
            source == (if self.is_inverted() {
                ColourSource::Mass
            } else {
                ColourSource::Temperature
            }),
    {
        if !self.inverted {
            ColourSource::Temperature
        } else {
            ColourSource::Mass
        }
    }
}

/// Inverting the colours twice brings back the colouring one started from.
pub proof fn lemma_invert_twice_restores(start: ColourMode, once: ColourMode, twice: ColourMode)
    requires
        once.is_inverted() == !start.is_inverted(),
        twice.is_inverted() == !once.is_inverted(),
    ensures
        twice.is_inverted() == start.is_inverted(),
{
}

} // verus!
