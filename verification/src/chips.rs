//! Geometry of the supported chips.
//!
//! The logic array of a chip is a grid of `num_rows` product rows by
//! `num_cols` columns. Every output macrocell (OLMC) owns a block of
//! consecutive rows; the blocks are laid out one after the other, the block
//! of the highest-numbered output pin first.

use vstd::prelude::*;

verus! {

/// The supported devices.
#[derive(Clone, Copy, Debug, PartialEq, Eq, Structural)]
pub enum Chip {
    GAL16V8,
    GAL20V8,
    GAL22V10,
    GAL20RA10,
}

/// A reservation of rows in the logic array together with a cursor into it.
///
/// The reservation covers the rows `start_row .. start_row + max_row`. The
/// cursor `row_offset` counts the rows of the reservation that are already
/// spoken for, so the next free row is `start_row + row_offset`.
#[derive(Clone, Copy, Debug, PartialEq, Eq, Structural)]
pub struct Bounds {
    pub start_row: usize,
    pub max_row: usize,
    pub row_offset: usize,
}

impl Bounds {
    /// Number of rows the cursor can still hand out.
    pub open spec fn rows_left(&self) -> int {
        if self.row_offset <= self.max_row {
            self.max_row - self.row_offset
        } else {
            0
        }
    }

    /// The reservation is not empty and lies inside the logic array of `chip`.
    pub open spec fn fits(&self, chip: Chip) -> bool {
        &&& 1 <= self.max_row
        &&& self.start_row + self.max_row <= chip.num_rows()
    }

    /// Whether the reservation is not empty and lies inside the logic array
    /// of `chip`.
    pub fn fits_chip(&self, chip: Chip) -> (fits: bool)
        ensures
            fits == self.fits(chip),
    {
        let rows = chip.num_rows();
        1 <= self.max_row && self.max_row <= rows && self.start_row <= rows - self.max_row
    }
}

impl Chip {
    /// Number of pins of the package.
    pub open spec fn spec_num_pins(&self) -> usize {
        match self {
            Chip::GAL16V8 => 20,
            Chip::GAL20V8 => 24,
            Chip::GAL22V10 => 24,
            Chip::GAL20RA10 => 24,
        }
    }

    /// Number of pins of the package.
    #[verifier::when_used_as_spec(spec_num_pins)]
    pub fn num_pins(&self) -> (n: usize)
        ensures
            n == self.spec_num_pins(),
    {
        match self {
            Chip::GAL16V8 => 20,
            Chip::GAL20V8 => 24,
            Chip::GAL22V10 => 24,
            Chip::GAL20RA10 => 24,
        }
    }

    /// Number of product rows of the logic array.
    pub open spec fn spec_num_rows(&self) -> usize {
        match self {
            Chip::GAL16V8 => 64,
            Chip::GAL20V8 => 64,
            Chip::GAL22V10 => 132,
            Chip::GAL20RA10 => 80,
        }
    }

    /// Number of product rows of the logic array.
    #[verifier::when_used_as_spec(spec_num_rows)]
    pub fn num_rows(&self) -> (n: usize)
        ensures
            n == self.spec_num_rows(),
    {
        match self {
            Chip::GAL16V8 => 64,
            Chip::GAL20V8 => 64,
            Chip::GAL22V10 => 132,
            Chip::GAL20RA10 => 80,
        }
    }

    /// Number of columns of the logic array: two per usable input, the
    /// true-polarity column at the even position.
    pub open spec fn spec_num_cols(&self) -> usize {
        match self {
            Chip::GAL16V8 => 32,
            Chip::GAL20V8 => 40,
            Chip::GAL22V10 => 44,
            Chip::GAL20RA10 => 40,
        }
    }

    /// Number of columns of the logic array.
    #[verifier::when_used_as_spec(spec_num_cols)]
    pub fn num_cols(&self) -> (n: usize)
        ensures
            n == self.spec_num_cols(),
    {
        match self {
            Chip::GAL16V8 => 32,
            Chip::GAL20V8 => 40,
            Chip::GAL22V10 => 44,
            Chip::GAL20RA10 => 40,
        }
    }

    /// Number of fuses of the logic array: one per row and column.
    pub open spec fn spec_logic_size(&self) -> usize {
        match self {
            Chip::GAL16V8 => 2048,
            Chip::GAL20V8 => 2560,
            Chip::GAL22V10 => 5808,
            Chip::GAL20RA10 => 3200,
        }
    }

    /// Number of fuses of the logic array.
    #[verifier::when_used_as_spec(spec_logic_size)]
    pub fn logic_size(&self) -> (n: usize)
        ensures
            n == self.spec_logic_size(),
            n == self.num_rows() * self.num_cols(),
    {
        self.num_rows() * self.num_cols()
    }

    /// Lowest pin number that belongs to an OLMC.
    pub open spec fn spec_min_olmc_pin(&self) -> usize {
        match self {
            Chip::GAL16V8 => 12,
            Chip::GAL20V8 => 15,
            Chip::GAL22V10 => 14,
            Chip::GAL20RA10 => 14,
        }
    }

    /// Lowest pin number that belongs to an OLMC.
    #[verifier::when_used_as_spec(spec_min_olmc_pin)]
    pub fn min_olmc_pin(&self) -> (p: usize)
        ensures
            p == self.spec_min_olmc_pin(),
    {
        match self {
            Chip::GAL16V8 => 12,
            Chip::GAL20V8 => 15,
            Chip::GAL22V10 => 14,
            Chip::GAL20RA10 => 14,
        }
    }

    /// Number of OLMCs. They sit on consecutive pins from `min_olmc_pin` up.
    pub open spec fn spec_num_olmcs(&self) -> usize {
        match self {
            Chip::GAL16V8 => 8,
            Chip::GAL20V8 => 8,
            Chip::GAL22V10 => 10,
            Chip::GAL20RA10 => 10,
        }
    }

    /// Number of OLMCs.
    #[verifier::when_used_as_spec(spec_num_olmcs)]
    pub fn num_olmcs(&self) -> (n: usize)
        ensures
            n == self.spec_num_olmcs(),
    {
        match self {
            Chip::GAL16V8 => 8,
            Chip::GAL20V8 => 8,
            Chip::GAL22V10 => 10,
            Chip::GAL20RA10 => 10,
        }
    }

    /// Whether the chip is one of the two that run in a selectable mode.
    pub open spec fn spec_has_modes(&self) -> bool {
        *self == Chip::GAL16V8 || *self == Chip::GAL20V8
    }

    /// Whether the chip is one of the two that run in a selectable mode.
    #[verifier::when_used_as_spec(spec_has_modes)]
    pub fn has_modes(&self) -> (b: bool)
        ensures
            b == self.spec_has_modes(),
    {
        match self {
            Chip::GAL16V8 | Chip::GAL20V8 => true,
            Chip::GAL22V10 | Chip::GAL20RA10 => false,
        }
    }

    /// The OLMC, counted from the lowest OLMC pin, that owns `pin`.
    pub open spec fn spec_pin_to_olmc(&self, pin: usize) -> Option<usize> {
        if self.min_olmc_pin() <= pin < self.min_olmc_pin() + self.num_olmcs() {
            Some((pin - self.min_olmc_pin()) as usize)
        } else {
            None
        }
    }

    /// The OLMC, counted from the lowest OLMC pin, that owns `pin`, if any.
    #[verifier::when_used_as_spec(spec_pin_to_olmc)]
    pub fn pin_to_olmc(&self, pin: usize) -> (olmc: Option<usize>)
        ensures
            olmc == self.spec_pin_to_olmc(pin),
            olmc matches Some(i) ==> i < self.num_olmcs(),
    {
        let min = self.min_olmc_pin();
        if min <= pin && pin < min + self.num_olmcs() {
            Some(pin - min)
        } else {
            None
        }
    }

    /// First row that belongs to an OLMC block. On the GAL22V10 row 0 holds
    /// the asynchronous reset.
    pub open spec fn first_olmc_row(&self) -> int {
        if *self == Chip::GAL22V10 {
            1
        } else {
            0
        }
    }

    /// Number of rows in the block of OLMC `olmc`. On the GAL22V10 the blocks
    /// grow towards the middle of the package.
    pub open spec fn olmc_rows(&self, olmc: int) -> int {
        if *self == Chip::GAL22V10 {
            if olmc <= 9 - olmc {
                9 + 2 * olmc
            } else {
                9 + 2 * (9 - olmc)
            }
        } else {
            8
        }
    }

    /// First row of the block of OLMC `olmc`: the block of the last OLMC
    /// comes first, and every other block follows that of its successor.
    pub open spec fn olmc_start(&self, olmc: int) -> int
        decreases self.num_olmcs() - olmc,
    {
        if 0 <= olmc < self.num_olmcs() - 1 {
            self.olmc_start(olmc + 1) + self.olmc_rows(olmc + 1)
        } else {
            self.first_olmc_row()
        }
    }

    /// Whether row `row` lies in the block of OLMC `olmc`.
    pub open spec fn owns_row(&self, olmc: int, row: int) -> bool {
        &&& 0 <= olmc < self.num_olmcs()
        &&& self.olmc_start(olmc) <= row < self.olmc_start(olmc) + self.olmc_rows(olmc)
    }

    /// The block of OLMC `olmc`, with the cursor at its start.
    pub open spec fn block(&self, olmc: int) -> Bounds {
        Bounds {
            start_row: self.olmc_start(olmc) as usize,
            max_row: self.olmc_rows(olmc) as usize,
            row_offset: 0,
        }
    }

    /// Row `row` of the block of OLMC `olmc`, as a reservation of its own.
    pub open spec fn block_row(&self, olmc: int, row: int) -> Bounds {
        Bounds {
            start_row: self.olmc_start(olmc) as usize,
            max_row: (row + 1) as usize,
            row_offset: row as usize,
        }
    }

    /// The rows reserved for OLMC `olmc_num`, with the cursor at their start.
    pub fn get_bounds(&self, olmc_num: usize) -> (b: Bounds)
        requires
            olmc_num < self.num_olmcs(),
        ensures
            b == self.block(olmc_num as int),
            b.start_row == self.olmc_start(olmc_num as int),
            b.max_row == self.olmc_rows(olmc_num as int),
            8 <= b.max_row,
            b.fits(*self),
    {
        proof {
            lemma_olmc_start(*self, olmc_num as int);
        }
        match self {
            Chip::GAL16V8 | Chip::GAL20V8 => Bounds {
                start_row: (7 - olmc_num) * 8,
                max_row: 8,
                row_offset: 0,
            },
            Chip::GAL20RA10 => Bounds { start_row: (9 - olmc_num) * 8, max_row: 8, row_offset: 0 },
            Chip::GAL22V10 => {
                let (start_row, max_row): (usize, usize) = match olmc_num {
                    0 => (122, 9),
                    1 => (111, 11),
                    2 => (98, 13),
                    3 => (83, 15),
                    4 => (66, 17),
                    5 => (49, 17),
                    6 => (34, 15),
                    7 => (21, 13),
                    8 => (10, 11),
                    _ => (1, 9),
                };
                Bounds { start_row, max_row, row_offset: 0 }
            },
        }
    }
}

/// Where the OLMC blocks lie: eight rows each, counted down from the last
/// OLMC, on every chip but the GAL22V10, whose blocks are listed one by one.
/// Every block lies between the rows that belong to no OLMC.
pub proof fn lemma_olmc_start(chip: Chip, olmc: int)
    requires
        0 <= olmc < chip.num_olmcs(),
    ensures
        chip != Chip::GAL22V10 ==> chip.olmc_start(olmc) == (chip.num_olmcs() - 1 - olmc) * 8,
        chip == Chip::GAL22V10 ==> chip.olmc_start(olmc) == seq![
            122int,
            111,
            98,
            83,
            66,
            49,
            34,
            21,
            10,
            1,
        ][olmc],
        chip.first_olmc_row() <= chip.olmc_start(olmc),
        chip.olmc_start(olmc) + chip.olmc_rows(olmc) <= chip.num_rows() - chip.first_olmc_row(),
{
    reveal_with_fuel(Chip::olmc_start, 11);
}

/// The blocks do not overlap: the block of a later OLMC ends before the
/// block of an earlier one begins.
pub proof fn lemma_blocks_apart(chip: Chip, earlier: int, later: int)
    requires
        0 <= earlier < later < chip.num_olmcs(),
    ensures
        chip.olmc_start(later) + chip.olmc_rows(later) <= chip.olmc_start(earlier),
    decreases later - earlier,
{
    if earlier + 1 < later {
        lemma_blocks_apart(chip, earlier + 1, later);
    }
}

/// The blocks leave no gap: every row between the rows that belong to no
/// OLMC lies in the block of some OLMC.
pub proof fn lemma_row_owner(chip: Chip, row: int) -> (olmc: int)
    requires
        chip.first_olmc_row() <= row < chip.num_rows() - chip.first_olmc_row(),
    ensures
        chip.owns_row(olmc, row),
{
    lemma_olmc_start(chip, 0);
    lemma_row_owner_from(chip, row, 0)
}

/// A row that does not lie past the block of OLMC `from` lies in the block
/// of that OLMC or of a later one.
proof fn lemma_row_owner_from(chip: Chip, row: int, from: int) -> (olmc: int)
    requires
        0 <= from < chip.num_olmcs(),
        chip.first_olmc_row() <= row < chip.olmc_start(from) + chip.olmc_rows(from),
    ensures
        from <= olmc < chip.num_olmcs(),
        chip.olmc_start(olmc) <= row < chip.olmc_start(olmc) + chip.olmc_rows(olmc),
    decreases chip.num_olmcs() - from,
{
    if chip.olmc_start(from) <= row {
        from
    } else {
        lemma_row_owner_from(chip, row, from + 1)
    }
}

} // verus!
