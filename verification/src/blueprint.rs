//! The chip-independent description of a design, as the encoder takes it.

use vstd::prelude::*;
use crate::chips::Chip;
use crate::gal::{opt_has_pins_on, term_or_false, Term, TermView};

verus! {

/// Whether the pin of an output is high or low when its equation holds.
#[derive(Clone, Copy, Debug, PartialEq, Eq, Structural)]
pub enum Active {
    Low,
    High,
}

/// How an output is driven.
#[derive(Clone, Copy, Debug, PartialEq, Eq, Structural)]
pub enum PinMode {
    /// Always driven.
    Combinatorial,
    /// Driven while the tristate enable holds.
    Tristate,
    /// Driven from a flip-flop.
    Registered,
}

/// What a design asks of one output macrocell.
#[derive(Clone, Debug, PartialEq)]
pub struct OLMC {
    pub active: Active,
    /// The main equation and how its output is driven.
    pub output: Option<(PinMode, Term)>,
    /// The tristate enable.
    pub tri_con: Option<Term>,
    /// Clock, asynchronous reset and asynchronous preset of the flip-flop.
    pub clock: Option<Term>,
    pub arst: Option<Term>,
    pub aprst: Option<Term>,
    /// Whether some equation reads the pin.
    pub feedback: bool,
}

impl OLMC {
    /// How the output is driven, if there is one.
    pub open spec fn kind(self) -> Option<PinMode> {
        match self.output {
            Some((mode, _)) => Some(mode),
            None => None,
        }
    }

    /// Whether the OLMC has a clock, reset or preset equation.
    pub open spec fn has_control(self) -> bool {
        self.clock is Some || self.arst is Some || self.aprst is Some
    }

    /// The main equation; a pin without output gets the false term.
    pub open spec fn main_term(self) -> TermView {
        match self.output {
            Some((_, term)) => term@,
            None => TermView::constant_false(0),
        }
    }

    /// Every pin that the equations of the OLMC name is a pin of `chip`.
    pub open spec fn pins_on(self, chip: Chip) -> bool {
        &&& self.main_term().pins_on(chip)
        &&& term_or_false(self.tri_con).pins_on(chip)
        &&& term_or_false(self.clock).pins_on(chip)
        &&& term_or_false(self.arst).pins_on(chip)
        &&& term_or_false(self.aprst).pins_on(chip)
    }

    /// Whether every pin that the equations of the OLMC name is a pin of
    /// `chip`.
    pub fn has_pins_on(&self, chip: Chip) -> (all: bool)
        ensures
            all == self.pins_on(chip),
    {
        let main = match &self.output {
            Some((_, term)) => term.has_pins_on(chip),
            None => true,
        };
        main && opt_has_pins_on(&self.tri_con, chip) && opt_has_pins_on(&self.clock, chip)
            && opt_has_pins_on(&self.arst, chip) && opt_has_pins_on(&self.aprst, chip)
    }
}

/// A design for one chip.
pub struct Blueprint {
    pub chip: Chip,
    /// The signature, of which the first eight bytes are used.
    pub sig: Vec<u8>,
    /// One entry per OLMC of the chip, that of the lowest pin first.
    pub olmcs: Vec<OLMC>,
    /// Asynchronous reset of the GAL22V10.
    pub ar: Option<Term>,
    /// Synchronous preset of the GAL22V10.
    pub sp: Option<Term>,
}

impl Blueprint {
    /// The design has one entry per OLMC of its chip and names only pins of
    /// its chip.
    pub open spec fn wf(self) -> bool {
        &&& self.olmcs@.len() == self.chip.num_olmcs()
        &&& forall|i: int| 0 <= i < self.olmcs@.len() ==> (#[trigger] self.olmcs@[i]).pins_on(self.chip)
        &&& term_or_false(self.ar).pins_on(self.chip)
        &&& term_or_false(self.sp).pins_on(self.chip)
    }

    /// Whether the design has one entry per OLMC of its chip and names only
    /// pins of its chip.
    pub fn is_wf(&self) -> (wf: bool)
        ensures
            wf == self.wf(),
    {
        if self.olmcs.len() != self.chip.num_olmcs() {
            return false;
        }
        let mut i: usize = 0;
        while i < self.olmcs.len()
            invariant
                i <= self.olmcs@.len(),
                forall|k: int| 0 <= k < i ==> (#[trigger] self.olmcs@[k]).pins_on(self.chip),
            decreases self.olmcs@.len() - i,
        {
            if !self.olmcs[i].has_pins_on(self.chip) {
                return false;
            }
            i += 1;
        }
        opt_has_pins_on(&self.ar, self.chip) && opt_has_pins_on(&self.sp, self.chip)
    }
}

} // verus!
