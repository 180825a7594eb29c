//! Fuse state of a chip and the encoding of terms into it.
//!
//! The logic array is a grid of fuses, one row per product and two columns
//! per input: the even column stands for the input itself, the odd one next to
//! it for its complement. A row is the AND of the columns whose fuse is
//! blown (`false`); an intact fuse (`true`) leaves its column out. A row with
//! every fuse intact is therefore constantly true, and a row with every fuse
//! blown asks for some input and its complement at once and is constantly
//! false.

use vstd::prelude::*;
use crate::chips::Chip;
use crate::columns::{lemma_one_table, lemma_pin_column_total, lookup, pin_column};
use crate::errors::{
    at_line, first_some, lemma_first_some_agree, lemma_first_some_none, Error, ErrorCode, LineNum,
};

pub use crate::chips::Bounds;

verus! {

/// An input of an equation: a pin, possibly negated.
#[derive(Clone, Copy, Debug, PartialEq, Eq, Structural)]
pub struct Pin {
    /// Pin number, counted from 1.
    pub pin: usize,
    pub neg: bool,
}

/// A sum of products. Every inner vector is the AND of its pins, and the
/// term is the OR of the inner vectors. The empty product is true and the
/// empty sum is false.
#[derive(Clone, Debug, PartialEq)]
pub struct Term {
    pub line_num: LineNum,
    pub pins: Vec<Vec<Pin>>,
}

/// The mathematical content of a [`Term`].
pub struct TermView {
    pub line_num: LineNum,
    pub rows: Seq<Seq<Pin>>,
}

impl View for Term {
    type V = TermView;

    open spec fn view(&self) -> TermView {
        TermView {
            line_num: self.line_num,
            rows: Seq::new(self.pins@.len(), |i: int| self.pins@[i]@),
        }
    }
}

impl TermView {
    /// The term without products, which is false.
    pub open spec fn constant_false(line_num: LineNum) -> TermView {
        TermView { line_num, rows: Seq::empty() }
    }

    /// The term whose one product is empty, which is true.
    pub open spec fn constant_true(line_num: LineNum) -> TermView {
        TermView { line_num, rows: seq![Seq::empty()] }
    }

    /// Every pin of the term is a pin of `chip`.
    pub open spec fn pins_on(self, chip: Chip) -> bool {
        forall|i: int, j: int|
            0 <= i < self.rows.len() && 0 <= j < self.rows[i].len() ==> 1 <= (
            #[trigger] self.rows[i][j]).pin <= chip.num_pins()
    }
}

impl Term {
    /// Whether every pin of the term is a pin of `chip`.
    pub fn has_pins_on(&self, chip: Chip) -> (all: bool)
        ensures
            all == self@.pins_on(chip),
    {
        let num_pins = chip.num_pins();
        let mut i: usize = 0;
        while i < self.pins.len()
            invariant
                i <= self.pins@.len(),
                num_pins == chip.num_pins(),
                forall|a: int, b: int|
                    0 <= a < i && 0 <= b < self@.rows[a].len() ==> 1 <= (
                    #[trigger] self@.rows[a][b]).pin <= num_pins,
            decreases self.pins@.len() - i,
        {
            let row = &self.pins[i];
            let mut j: usize = 0;
            while j < row.len()
                invariant
                    i < self.pins@.len(),
                    row@ == self@.rows[i as int],
                    j <= row@.len(),
                    num_pins == chip.num_pins(),
                    forall|b: int| 0 <= b < j ==> 1 <= (#[trigger] row@[b]).pin <= num_pins,
                decreases row@.len() - j,
            {
                let pin = row[j].pin;
                if pin < 1 || pin > num_pins {
                    assert(!(1 <= self@.rows[i as int][j as int].pin <= num_pins));
                    return false;
                }
                j += 1;
            }
            i += 1;
        }
        true
    }
}

/// Whether every pin of `term`, if there is one, is a pin of `chip`.
pub fn opt_has_pins_on(term: &Option<Term>, chip: Chip) -> (all: bool)
    ensures
        all == term_or_false(*term).pins_on(chip),
{
    match term {
        Some(term) => term.has_pins_on(chip),
        None => true,
    }
}

/// The view of an optional term: a missing term stands for the false term.
pub open spec fn term_or_false(term: Option<Term>) -> TermView {
    match term {
        Some(t) => t@,
        None => TermView::constant_false(0),
    }
}

/// The operating mode of a GAL16V8 or GAL20V8, which decides how the chip
/// reads its fuses and which pins reach the logic array.
#[derive(Clone, Copy, Debug, PartialEq, Eq, Structural)]
pub enum Mode {
    /// Combinatorial outputs.
    Simple,
    /// Tristate outputs.
    Complex,
    /// Tristate or registered outputs.
    Registered,
}

impl Mode {
    /// The mode that the two mode fuses stand for. With both fuses clear no
    /// mode has been set.
    pub open spec fn of_fuses(syn: bool, ac0: bool) -> Mode {
        if !syn {
            Mode::Registered
        } else if ac0 {
            Mode::Complex
        } else {
            Mode::Simple
        }
    }

    /// The `syn` fuse of the mode.
    pub open spec fn syn(self) -> bool {
        self != Mode::Registered
    }

    /// The `ac0` fuse of the mode.
    pub open spec fn ac0(self) -> bool {
        self != Mode::Simple
    }
}

/// The diagnostic of pin number `pin`, if it does not lead into the array.
pub open spec fn pin_error(chip: Chip, mode: Mode, pin: usize) -> Option<ErrorCode> {
    match pin_column(chip, mode, pin) {
        Ok(_) => None,
        Err(code) => Some(code),
    }
}

/// The diagnostics of the pins of the product `row`, by position.
pub open spec fn pin_errors(chip: Chip, mode: Mode, row: Seq<Pin>) -> spec_fn(int) -> Option<
    ErrorCode,
> {
    |j: int| pin_error(chip, mode, row[j].pin)
}

/// The diagnostic of the first pin of the product `row` that does not lead
/// into the array.
pub open spec fn row_error(chip: Chip, mode: Mode, row: Seq<Pin>) -> Option<ErrorCode> {
    first_some(pin_errors(chip, mode, row), 0, row.len() as int)
}

/// The diagnostics of the products `rows`, by position.
pub open spec fn row_errors(chip: Chip, mode: Mode, rows: Seq<Seq<Pin>>) -> spec_fn(int) -> Option<
    ErrorCode,
> {
    |i: int| row_error(chip, mode, rows[i])
}

/// The diagnostic for a term of `seen` products that overflows `bounds`.
pub open spec fn overflow(bounds: Bounds, seen: nat) -> ErrorCode {
    if bounds.max_row == bounds.row_offset + 1 {
        ErrorCode::MoreThanOneProduct
    } else {
        ErrorCode::TooManyProducts { max: (bounds.max_row - 1) as usize, seen: seen as usize }
    }
}

/// Why `term` cannot be encoded at `bounds` on `chip` in `mode`, if it
/// cannot.
///
/// The products are taken in order, one row each. A pin that does not lead
/// into the array stops the encoding with its own diagnostic; a product for
/// which no row is left stops it with an overflow. Both are reported at the
/// line of the term.
pub open spec fn term_error(chip: Chip, mode: Mode, term: TermView, bounds: Bounds) -> Option<
    Error,
> {
    let fit = if term.rows.len() <= bounds.rows_left() {
        term.rows.len() as int
    } else {
        bounds.rows_left()
    };
    match first_some(row_errors(chip, mode, term.rows), 0, fit) {
        Some(code) => Some(Error { code, line: term.line_num }),
        None => if term.rows.len() > bounds.rows_left() {
            Some(Error { code: overflow(bounds, term.rows.len()), line: term.line_num })
        } else {
            None
        },
    }
}

/// What a row of the logic array holds.
pub enum RowUse {
    /// Nothing: every fuse is intact, and the row is true.
    Intact,
    /// Every fuse is blown, and the row is false.
    Blown,
    /// The product of these inputs.
    Product(Seq<Pin>),
}

/// What the row `k` rows after the cursor holds once `term` is encoded: a
/// product of the term, or nothing where the products have run out.
pub open spec fn term_row(term: TermView, k: int) -> RowUse {
    if 0 <= k < term.rows.len() {
        RowUse::Product(term.rows[k])
    } else {
        RowUse::Blown
    }
}

////////////////////////////////////////////////////////////////////////
// The fuse state.

/// The fuse state of one chip.
///
/// The fields are public and may be set directly; the methods ask for a
/// state that [`GalView::wf`] accepts.
pub struct GAL {
    pub chip: Chip,
    /// The logic array, row after row.
    pub fuses: Vec<bool>,
    /// One bit per OLMC, set for an active-high output. The bit of the last
    /// OLMC comes first.
    pub xor: Vec<bool>,
    /// The 64 signature bits.
    pub sig: Vec<bool>,
    /// One bit per OLMC, set for a pin that is an input or a tristate
    /// output. The bit of the last OLMC comes first.
    pub ac1: Vec<bool>,
    /// The 64 product term enable bits.
    pub pt: Vec<bool>,
    /// First mode fuse.
    pub syn: bool,
    /// Second mode fuse.
    pub ac0: bool,
}

/// The mathematical content of a [`GAL`].
pub struct GalView {
    pub chip: Chip,
    pub fuses: Seq<bool>,
    pub xor: Seq<bool>,
    pub sig: Seq<bool>,
    pub ac1: Seq<bool>,
    pub pt: Seq<bool>,
    pub syn: bool,
    pub ac0: bool,
}

impl View for GAL {
    type V = GalView;

    open spec fn view(&self) -> GalView {
        GalView {
            chip: self.chip,
            fuses: self.fuses@,
            xor: self.xor@,
            sig: self.sig@,
            ac1: self.ac1@,
            pt: self.pt@,
            syn: self.syn,
            ac0: self.ac0,
        }
    }
}

impl GalView {
    /// Every field has the size that the chip calls for.
    pub open spec fn wf(self) -> bool {
        &&& self.fuses.len() == self.chip.logic_size()
        &&& self.xor.len() == self.chip.num_olmcs()
        &&& self.sig.len() == 64
        &&& self.ac1.len() == self.chip.num_olmcs()
        &&& self.pt.len() == 64
    }

    /// The state of an unprogrammed chip: every fuse is intact, and the two
    /// mode fuses are clear.
    pub open spec fn blank(chip: Chip) -> GalView {
        GalView {
            chip,
            fuses: Seq::new(chip.logic_size() as nat, |i: int| true),
            xor: Seq::new(chip.num_olmcs() as nat, |i: int| true),
            sig: Seq::new(64, |i: int| true),
            ac1: Seq::new(chip.num_olmcs() as nat, |i: int| true),
            pt: Seq::new(64, |i: int| true),
            syn: false,
            ac0: false,
        }
    }

    /// On a chip with modes, a mode has been set.
    pub open spec fn mode_set(self) -> bool {
        self.chip.has_modes() ==> self.syn || self.ac0
    }

    /// The mode that the mode fuses select.
    pub open spec fn mode(self) -> Mode {
        Mode::of_fuses(self.syn, self.ac0)
    }

    /// The state with the mode fuses set for `mode`.
    pub open spec fn with_mode(self, mode: Mode) -> GalView {
        GalView { syn: mode.syn(), ac0: mode.ac0(), ..self }
    }

    /// The state with the logic array replaced by `fuses`.
    pub open spec fn with_fuses(self, fuses: Seq<bool>) -> GalView {
        GalView { fuses, ..self }
    }

    /// Where pin number `pin` leads in the current mode.
    pub open spec fn column(self, pin: usize) -> Result<usize, ErrorCode> {
        pin_column(self.chip, self.mode(), pin)
    }

    /// Whether an equation that reads `pin` has to read it negated.
    ///
    /// A registered output of the GAL22V10 feeds its inverted value back into
    /// the array, whatever its polarity, while the pin itself is inverted
    /// only when the output is active low. An active-high registered output
    /// is thus read back with the wrong sign, and only there.
    pub open spec fn needs_flip(self, pin: usize) -> bool {
        &&& self.chip == Chip::GAL22V10
        &&& self.chip.pin_to_olmc(pin) matches Some(olmc)
        &&& !self.ac1[self.chip.num_olmcs() - 1 - olmc]
        &&& self.xor[self.chip.num_olmcs() - 1 - olmc]
    }

    /// The column whose fuse the input `input` blows, or -1 where its pin
    /// leads nowhere.
    pub open spec fn fuse_column(self, input: Pin) -> int {
        match self.column(input.pin) {
            Ok(c) => if input.neg != self.needs_flip(input.pin) {
                c + 1
            } else {
                c as int
            },
            Err(_) => -1,
        }
    }

    /// Whether encoding the product `row` blows the fuse in column `col`.
    pub open spec fn row_blows(self, row: Seq<Pin>, col: int) -> bool {
        exists|j: int| 0 <= j < row.len() && #[trigger] self.fuse_column(row[j]) == col
    }

    /// The fuse in column `col` of a row that holds `content` and nothing
    /// else.
    pub open spec fn row_fuse(self, content: RowUse, col: int) -> bool {
        match content {
            RowUse::Intact => true,
            RowUse::Blown => false,
            RowUse::Product(pins) => !self.row_blows(pins, col),
        }
    }

    /// Whether encoding `term` at `bounds` spares the fuse in row `row` and
    /// column `col`.
    pub open spec fn spares(self, term: TermView, bounds: Bounds, row: int, col: int) -> bool {
        let k = row - (bounds.start_row + bounds.row_offset);
        0 <= k < bounds.rows_left() ==> self.row_fuse(term_row(term, k), col)
    }

    /// The fuse in row `row` and column `col`.
    pub open spec fn fuse(self, row: int, col: int) -> bool {
        self.fuses[row * self.chip.num_cols() + col]
    }

    /// The two states read every pin alike: they are states of one chip in
    /// one mode, with the same tristate and polarity bits.
    pub open spec fn reads_like(self, other: GalView) -> bool {
        &&& self.chip == other.chip
        &&& self.syn == other.syn
        &&& self.ac0 == other.ac0
        &&& self.ac1 == other.ac1
        &&& self.xor == other.xor
    }

    /// Why `term` cannot be encoded at `bounds` in the current mode, if it
    /// cannot.
    pub open spec fn term_error(self, term: TermView, bounds: Bounds) -> Option<Error> {
        term_error(self.chip, self.mode(), term, bounds)
    }

    /// The fuse at position `idx` of the logic array once `term` has been
    /// encoded at `bounds`.
    ///
    /// Row `k` after the cursor holds product `k`: of the fuses of that row,
    /// those that the product blows are blown and the others stay as they
    /// were. The rows of the reservation that are left over are blown
    /// throughout. Every other row stays as it was.
    pub open spec fn term_fuse(self, term: TermView, bounds: Bounds, idx: int) -> bool {
        let cols = self.chip.num_cols() as int;
        let k = idx / cols - (bounds.start_row + bounds.row_offset);
        if 0 <= k < bounds.rows_left() {
            k < term.rows.len() && self.fuses[idx] && !self.row_blows(term.rows[k], idx % cols)
        } else {
            self.fuses[idx]
        }
    }

    /// The state once `term` has been encoded at `bounds`.
    pub open spec fn with_term(self, term: TermView, bounds: Bounds) -> GalView {
        self.with_fuses(
            Seq::new(self.fuses.len(), |idx: int| self.term_fuse(term, bounds, idx)),
        )
    }

    /// The state once the rows of `bounds` from the cursor on are blown.
    pub open spec fn with_rows_cleared(self, bounds: Bounds) -> GalView {
        self.with_fuses(
            Seq::new(
                self.fuses.len(),
                |idx: int|
                    {
                        let k = idx / (self.chip.num_cols() as int) - (bounds.start_row
                            + bounds.row_offset);
                        self.fuses[idx] && !(0 <= k < bounds.rows_left())
                    },
            ),
        )
    }
}

impl GAL {
    /// Whether every field has the size that the chip calls for.
    pub fn is_wf(&self) -> (wf: bool)
        ensures
            wf == self@.wf(),
    {
        let num_olmcs = self.chip.num_olmcs();
        self.fuses.len() == self.chip.logic_size() && self.xor.len() == num_olmcs && self.sig.len()
            == 64 && self.ac1.len() == num_olmcs && self.pt.len() == 64
    }

    /// The fuse state of an unprogrammed `chip`.
    pub fn new(chip: Chip) -> (gal: GAL)
        ensures
            gal@ == GalView::blank(chip),
            gal@.wf(),
    {
        let fuse_size = chip.logic_size();
        let num_olmcs = chip.num_olmcs();
        let gal = GAL {
            chip,
            fuses: vec![true; fuse_size],
            xor: vec![true; num_olmcs],
            sig: vec![true; 64],
            ac1: vec![true; num_olmcs],
            pt: vec![true; 64],
            syn: false,
            ac0: false,
        };
        proof {
            let blank = GalView::blank(chip);
            assert(gal@.fuses =~= blank.fuses);
            assert(gal@.xor =~= blank.xor);
            assert(gal@.sig =~= blank.sig);
            assert(gal@.ac1 =~= blank.ac1);
            assert(gal@.pt =~= blank.pt);
        }
        gal
    }

    /// Sets the mode fuses of a GAL16V8 or GAL20V8.
    pub fn set_mode(&mut self, mode: Mode)
        requires
            old(self).chip.has_modes(),
        ensures
            final(self)@ == old(self)@.with_mode(mode),
            final(self)@.mode() == mode,
            final(self)@.mode_set(),
    {
        match mode {
            Mode::Simple => {
                self.syn = true;
                self.ac0 = false;
            },
            Mode::Complex => {
                self.syn = true;
                self.ac0 = true;
            },
            Mode::Registered => {
                self.syn = false;
                self.ac0 = true;
            },
        }
    }

    /// Reads the mode of a GAL16V8 or GAL20V8 back from the mode fuses.
    pub fn get_mode(&self) -> (mode: Mode)
        requires
            self.chip.has_modes(),
            self.syn || self.ac0,
        ensures
            mode == self@.mode(),
    {
        if !self.syn {
            Mode::Registered
        } else if self.ac0 {
            Mode::Complex
        } else {
            Mode::Simple
        }
    }

    /// Whether an equation that reads pin `pin_num` has to read it negated.
    pub fn needs_flip(&self, pin_num: usize) -> (flip: bool)
        requires
            self@.wf(),
        ensures
            flip == self@.needs_flip(pin_num),
    {
        match self.chip {
            Chip::GAL22V10 => {},
            _ => {
                return false;
            },
        }
        if let Some(i) = self.chip.pin_to_olmc(pin_num) {
            let olmc_idx = self.chip.num_olmcs() - 1 - i;
            let registered = !self.ac1[olmc_idx];
            let active_high = self.xor[olmc_idx];
            return registered && active_high;
        }
        false
    }

    /// Where pin number `pin_num` leads in the current mode: the column of
    /// the logic array that it feeds, or the reason why it feeds none.
    pub fn pin_to_column(&self, pin_num: usize) -> (column: Result<usize, ErrorCode>)
        requires
            1 <= pin_num <= self.chip.num_pins(),
            self@.mode_set(),
        ensures
            column == self@.column(pin_num),
    {
        let mode = if self.chip.has_modes() {
            self.get_mode()
        } else {
            Mode::Simple
        };
        proof {
            lemma_one_table(self.chip, mode, self@.mode());
        }
        lookup(self.chip, mode, pin_num)
    }

    /// Blows the fuse that makes row `row` ask for pin `pin_num`, negated if
    /// `negation` is set. A pin that does not lead into the array leaves the
    /// state as it was.
    pub fn set_and(&mut self, row: usize, pin_num: usize, negation: bool) -> (done: Result<
        (),
        ErrorCode,
    >)
        requires
            old(self)@.wf(),
            old(self)@.mode_set(),
            row < old(self).chip.num_rows(),
            1 <= pin_num <= old(self).chip.num_pins(),
        ensures
            match old(self)@.column(pin_num) {
                Ok(column) => done == Ok::<(), ErrorCode>(()) && final(self)@ == old(
                    self,
                )@.with_fuses(
                    old(self)@.fuses.update(
                        row * old(self).chip.num_cols() + column + if negation {
                            1int
                        } else {
                            0int
                        },
                        false,
                    ),
                ),
                Err(code) => done == Err::<(), ErrorCode>(code) && final(self)@ == old(self)@,
            },
    {
        let chip = self.chip;
        let row_len = chip.num_cols();
        let column = match self.pin_to_column(pin_num) {
            Ok(column) => column,
            Err(code) => {
                return Err(code);
            },
        };
        let neg_off: usize = if negation {
            1
        } else {
            0
        };
        proof {
            lemma_pin_column_total(chip, self@.mode(), pin_num);
            lemma_row_in_array(chip, row as int);
        }
        self.fuses[row * row_len + column + neg_off] = false;
        Ok(())
    }

    /// Encodes `term` into the rows of `bounds` from the cursor on: one row
    /// per product, in order, and the rows that are left over blown
    /// throughout. Fails at the first pin that does not lead into the array
    /// and at the first product for which no row is left; the logic array is
    /// then left half written and is of no further use.
    pub fn add_term(&mut self, term: &Term, bounds: &Bounds) -> (done: Result<(), Error>)
        requires
            old(self)@.wf(),
            old(self)@.mode_set(),
            bounds.fits(old(self).chip),
            term@.pins_on(old(self).chip),
        ensures
            match old(self)@.term_error(term@, *bounds) {
                Some(error) => {
                    &&& done == Err::<(), Error>(error)
                    &&& final(self)@ == old(self)@.with_fuses(final(self)@.fuses)
                    &&& final(self)@.wf()
                },
                None => {
                    &&& done == Ok::<(), Error>(())
                    &&& final(self)@ == old(self)@.with_term(term@, *bounds)
                },
            },
            done is Ok <==> term_fits(old(self).chip, old(self)@.mode(), term@, *bounds),
    {
        let ghost before = self@;
        let ghost rows = term@.rows;
        proof {
            lemma_term_fits(before.chip, before.mode(), term@, *bounds);
        }
        let ghost fit = if rows.len() <= bounds.rows_left() {
            rows.len() as int
        } else {
            bounds.rows_left()
        };
        let ghost cols = self.chip.num_cols() as int;
        let ghost first = bounds.start_row + bounds.row_offset;
        let mut cursor = *bounds;
        let single_row = cursor.row_offset < cursor.max_row && cursor.max_row - cursor.row_offset
            == 1;
        let mut i: usize = 0;
        while i < term.pins.len()
            invariant
                rows == term@.rows,
                before.wf(),
                before.mode_set(),
                bounds.fits(before.chip),
                term@.pins_on(before.chip),
                cols == before.chip.num_cols(),
                first == bounds.start_row + bounds.row_offset,
                fit == if rows.len() <= bounds.rows_left() {
                    rows.len() as int
                } else {
                    bounds.rows_left()
                },
                single_row == (bounds.max_row == bounds.row_offset + 1),
                i <= fit,
                before == old(self)@,
                before.term_error(term@, *bounds) is None <==> term_fits(
                    before.chip,
                    before.mode(),
                    term@,
                    *bounds,
                ),
                cursor.start_row == bounds.start_row,
                cursor.max_row == bounds.max_row,
                cursor.row_offset == bounds.row_offset + i,
                self@ == before.with_fuses(self.fuses@),
                self.fuses@.len() == before.fuses.len(),
                first_some(row_errors(before.chip, before.mode(), rows), 0, fit) == first_some(
                    row_errors(before.chip, before.mode(), rows),
                    i as int,
                    fit,
                ),
                forall|idx: int|
                    0 <= idx < self.fuses@.len() ==> #[trigger] self.fuses@[idx] == (if 0 <= idx
                        / cols - first < i {
                        before.fuses[idx] && !before.row_blows(rows[idx / cols - first], idx % cols)
                    } else {
                        before.fuses[idx]
                    }),
            decreases term.pins.len() - i,
        {
            if cursor.row_offset >= cursor.max_row {
                return at_line(
                    term.line_num,
                    Err(
                        if single_row {
                            ErrorCode::MoreThanOneProduct
                        } else {
                            ErrorCode::TooManyProducts {
                                max: cursor.max_row - 1,
                                seen: term.pins.len(),
                            }
                        },
                    ),
                );
            }
            let row = &term.pins[i];
            let ghost pins = rows[i as int];
            let ghost at = first + i;
            let mut j: usize = 0;
            while j < row.len()
                invariant
                    rows == term@.rows,
                    pins == rows[i as int],
                    pins == row@,
                    i < rows.len(),
                    before.wf(),
                    before.mode_set(),
                    bounds.fits(before.chip),
                    term@.pins_on(before.chip),
                    cols == before.chip.num_cols(),
                    first == bounds.start_row + bounds.row_offset,
                    at == first + i,
                    at < bounds.start_row + bounds.max_row,
                    before == old(self)@,
                    before.term_error(term@, *bounds) is None <==> term_fits(
                        before.chip,
                        before.mode(),
                        term@,
                        *bounds,
                    ),
                    i < fit,
                    fit == if rows.len() <= bounds.rows_left() {
                        rows.len() as int
                    } else {
                        bounds.rows_left()
                    },
                    first_some(row_errors(before.chip, before.mode(), rows), 0, fit) == first_some(
                        row_errors(before.chip, before.mode(), rows),
                        i as int,
                        fit,
                    ),
                    cursor.start_row + cursor.row_offset == at,
                    j <= row.len(),
                    self@ == before.with_fuses(self.fuses@),
                    self.fuses@.len() == before.fuses.len(),
                    row_error(before.chip, before.mode(), pins) == first_some(
                        pin_errors(before.chip, before.mode(), pins),
                        j as int,
                        pins.len() as int,
                    ),
                    forall|idx: int|
                        0 <= idx < self.fuses@.len() ==> #[trigger] self.fuses@[idx] == (if 0 <= idx
                            / cols - first < i {
                            before.fuses[idx] && !before.row_blows(
                                rows[idx / cols - first],
                                idx % cols,
                            )
                        } else if idx / cols == at {
                            before.fuses[idx] && !before.row_blows(pins.take(j as int), idx % cols)
                        } else {
                            before.fuses[idx]
                        }),
                decreases row.len() - j,
            {
                let input = row[j];
                assert(input == rows[i as int][j as int]);
                let flip = self.needs_flip(input.pin);
                let ghost middle = self@;
                match self.set_and(cursor.start_row + cursor.row_offset, input.pin, input.neg ^ flip) {
                    Ok(()) => {},
                    Err(code) => {
                        return Err(Error { code, line: term.line_num });
                    },
                }
                proof {
                    let c = before.fuse_column(input);
                    lemma_pin_column_total(before.chip, before.mode(), input.pin);
                    assert(self.fuses@ == middle.fuses.update(at * cols + c, false));
                    assert forall|idx: int| 0 <= idx < self.fuses@.len() && idx / cols
                        == at implies #[trigger] self.fuses@[idx] == (before.fuses[idx]
                        && !before.row_blows(pins.take(j + 1), idx % cols)) by {
                        lemma_row_of_fuse(before.chip, idx, at, at + 1);
                        lemma_row_blows_step(before, pins, j as int, idx % cols);
                    }
                    assert forall|idx: int| 0 <= idx < self.fuses@.len() && idx / cols
                        != at implies #[trigger] self.fuses@[idx] == middle.fuses[idx] by {
                        lemma_row_of_fuse(before.chip, idx, at, at + 1);
                    }
                }
                j += 1;
            }
            proof {
                assert(pins.take(j as int) =~= pins);
            }
            cursor.row_offset += 1;
            i += 1;
        }
        let ghost encoded = self@;
        self.clear_rows(&cursor);
        proof {
            assert forall|idx: int| 0 <= idx < self.fuses@.len() implies #[trigger] self.fuses@[idx]
                == before.term_fuse(term@, *bounds, idx) by {
                assert(self.fuses@[idx] == encoded.with_rows_cleared(cursor).fuses[idx]);
            }
            assert(self@.fuses =~= before.with_term(term@, *bounds).fuses);
        }
        Ok(())
    }

    /// Like [`GAL::add_term`], with a missing term taken as the false term:
    /// the rows are blown throughout.
    pub fn add_term_opt(&mut self, term: &Option<Term>, bounds: &Bounds) -> (done: Result<
        (),
        Error,
    >)
        requires
            old(self)@.wf(),
            old(self)@.mode_set(),
            bounds.fits(old(self).chip),
            term_or_false(*term).pins_on(old(self).chip),
        ensures
            match old(self)@.term_error(term_or_false(*term), *bounds) {
                Some(error) => {
                    &&& done == Err::<(), Error>(error)
                    &&& final(self)@ == old(self)@.with_fuses(final(self)@.fuses)
                    &&& final(self)@.wf()
                },
                None => {
                    &&& done == Ok::<(), Error>(())
                    &&& final(self)@ == old(self)@.with_term(term_or_false(*term), *bounds)
                },
            },
            done is Ok <==> term_fits(
                old(self).chip,
                old(self)@.mode(),
                term_or_false(*term),
                *bounds,
            ),
    {
        match term {
            Some(term) => self.add_term(term, bounds),
            None => self.add_term(&false_term(0), bounds),
        }
    }

    /// Blows every fuse of the rows of `bounds` from the cursor on, so that
    /// these rows are false and add nothing to the sum.
    pub fn clear_rows(&mut self, bounds: &Bounds)
        requires
            old(self)@.wf(),
            bounds.start_row + bounds.max_row <= old(self).chip.num_rows(),
        ensures
            final(self)@ == old(self)@.with_rows_cleared(*bounds),
    {
        let ghost before = self@;
        if bounds.row_offset >= bounds.max_row {
            assert(self@.fuses =~= before.with_rows_cleared(*bounds).fuses);
            return ;
        }
        let num_cols = self.chip.num_cols();
        proof {
            lemma_row_in_array(self.chip, bounds.start_row + bounds.row_offset);
            lemma_row_in_array(self.chip, bounds.start_row + bounds.max_row);
        }
        let start = (bounds.start_row + bounds.row_offset) * num_cols;
        let end = (bounds.start_row + bounds.max_row) * num_cols;
        let mut i = start;
        while i < end
            invariant
                start <= i <= end <= self.fuses@.len(),
                self@ == before.with_fuses(self.fuses@),
                self.fuses@.len() == before.fuses.len(),
                forall|idx: int|
                    0 <= idx < self.fuses@.len() ==> #[trigger] self.fuses@[idx] == (
                    before.fuses[idx] && !(start <= idx < i)),
            decreases end - i,
        {
            self.fuses[i] = false;
            i += 1;
        }
        assert forall|idx: int| 0 <= idx < self.fuses@.len() implies #[trigger] self.fuses@[idx]
            == before.with_rows_cleared(*bounds).fuses[idx] by {
            lemma_row_of_fuse(
                self.chip,
                idx,
                bounds.start_row + bounds.row_offset,
                bounds.start_row + bounds.max_row,
            );
        }
        assert(self@.fuses =~= before.with_rows_cleared(*bounds).fuses);
    }
}

/// The term that is always true: one product without pins.
pub fn true_term(line_num: LineNum) -> (term: Term)
    ensures
        term@ == TermView::constant_true(line_num),
{
    let mut pins: Vec<Vec<Pin>> = Vec::new();
    pins.push(Vec::new());
    let term = Term { line_num, pins };
    assert(term@.rows =~= TermView::constant_true(line_num).rows);
    term
}

/// The term that is always false: no product at all.
pub fn false_term(line_num: LineNum) -> (term: Term)
    ensures
        term@ == TermView::constant_false(line_num),
{
    let term = Term { line_num, pins: Vec::new() };
    assert(term@.rows =~= TermView::constant_false(line_num).rows);
    term
}

/// Taking one more pin of a product into account blows the fuses that were
/// blown before and the fuse of that pin.
pub proof fn lemma_row_blows_step(gal: GalView, row: Seq<Pin>, j: int, col: int)
    requires
        0 <= j < row.len(),
    ensures
        gal.row_blows(row.take(j + 1), col) == (gal.row_blows(row.take(j), col) || gal.fuse_column(
            row[j],
        ) == col),
{
    let shorter = row.take(j);
    let longer = row.take(j + 1);
    if gal.row_blows(longer, col) {
        let k = choose|k: int| 0 <= k < longer.len() && #[trigger] gal.fuse_column(longer[k]) == col;
        if k < j {
            assert(gal.fuse_column(shorter[k]) == col);
        }
    }
    if gal.row_blows(shorter, col) {
        let k = choose|k: int|
            0 <= k < shorter.len() && #[trigger] gal.fuse_column(shorter[k]) == col;
        assert(gal.fuse_column(longer[k]) == col);
    }
    if gal.fuse_column(row[j]) == col {
        assert(gal.fuse_column(longer[j]) == col);
    }
}

/// Where the rows of the array begin: row `row` begins at fuse `row` times
/// the number of columns, and the rows up to the last fit into the array.
pub proof fn lemma_row_in_array(chip: Chip, row: int)
    requires
        0 <= row <= chip.num_rows(),
    ensures
        0 <= row * chip.num_cols() <= chip.logic_size(),
        row < chip.num_rows() ==> row * chip.num_cols() + chip.num_cols() <= chip.logic_size(),
        chip.logic_size() == chip.num_rows() * chip.num_cols(),
{
    match chip {
        Chip::GAL16V8 => {
            assert(row * chip.num_cols() == row * 32);
        },
        Chip::GAL20V8 => {
            assert(row * chip.num_cols() == row * 40);
        },
        Chip::GAL22V10 => {
            assert(row * chip.num_cols() == row * 44);
        },
        Chip::GAL20RA10 => {
            assert(row * chip.num_cols() == row * 40);
        },
    }
}

/// A fuse lies in one of the rows `first .. last` exactly if its position
/// lies between the beginning of row `first` and the beginning of row `last`.
pub proof fn lemma_row_of_fuse(chip: Chip, idx: int, first: int, last: int)
    requires
        0 <= idx,
    ensures
        first <= idx / (chip.num_cols() as int) < last <==> first * chip.num_cols() <= idx < last
            * chip.num_cols(),
        0 <= idx % (chip.num_cols() as int) < chip.num_cols(),
        idx == (idx / (chip.num_cols() as int)) * chip.num_cols() + idx % (chip.num_cols() as int),
{
    match chip {
        Chip::GAL16V8 => {},
        Chip::GAL20V8 => {},
        Chip::GAL22V10 => {},
        Chip::GAL20RA10 => {},
    }
}

////////////////////////////////////////////////////////////////////////
// What the encoding of a term comes to.

/// Every pin of the products `rows` leads into the array of `chip` in
/// `mode`.
pub open spec fn pins_lead_in(chip: Chip, mode: Mode, rows: Seq<Seq<Pin>>) -> bool {
    forall|i: int, j: int|
        0 <= i < rows.len() && 0 <= j < rows[i].len() ==> pin_column(
            chip,
            mode,
            (#[trigger] rows[i][j]).pin,
        ) is Ok
}

/// Whether `term` can be encoded at `bounds` on `chip` in `mode`: it has no
/// more products than rows are left, and every pin of it leads into the
/// array.
pub open spec fn term_fits(chip: Chip, mode: Mode, term: TermView, bounds: Bounds) -> bool {
    term.rows.len() <= bounds.rows_left() && pins_lead_in(chip, mode, term.rows)
}

/// A term is encoded without diagnostic exactly if it fits.
pub proof fn lemma_term_fits(chip: Chip, mode: Mode, term: TermView, bounds: Bounds)
    ensures
        term_error(chip, mode, term, bounds) is None <==> term_fits(chip, mode, term, bounds),
{
    let rows = term.rows;
    if rows.len() <= bounds.rows_left() {
        lemma_first_some_none(row_errors(chip, mode, rows), 0, rows.len() as int);
        if pins_lead_in(chip, mode, rows) {
            assert forall|i: int| 0 <= i < rows.len() implies #[trigger] row_errors(
                chip,
                mode,
                rows,
            )(i) is None by {
                lemma_first_some_none(pin_errors(chip, mode, rows[i]), 0, rows[i].len() as int);
                assert forall|j: int| 0 <= j < rows[i].len() implies #[trigger] pin_errors(
                    chip,
                    mode,
                    rows[i],
                )(j) is None by {
                    assert(pin_column(chip, mode, rows[i][j].pin) is Ok);
                }
            }
        }
        if term_error(chip, mode, term, bounds) is None {
            assert forall|i: int, j: int|
                0 <= i < rows.len() && 0 <= j < rows[i].len() implies pin_column(
                chip,
                mode,
                (#[trigger] rows[i][j]).pin,
            ) is Ok by {
                assert(row_errors(chip, mode, rows)(i) is None);
                lemma_first_some_none(pin_errors(chip, mode, rows[i]), 0, rows[i].len() as int);
                assert(pin_errors(chip, mode, rows[i])(j) is None);
            }
        }
    }
}

/// The true term in a reservation with one row left is encoded without
/// diagnostic and blows no fuse at all.
pub proof fn lemma_true_term_blows_nothing(gal: GalView, line_num: LineNum, bounds: Bounds)
    requires
        bounds.rows_left() == 1,
    ensures
        gal.term_error(TermView::constant_true(line_num), bounds) is None,
        gal.with_term(TermView::constant_true(line_num), bounds) == gal,
{
    let term = TermView::constant_true(line_num);
    lemma_term_fits(gal.chip, gal.mode(), term, bounds);
    assert(gal.with_term(term, bounds).fuses =~= gal.fuses);
}

/// The false term is encoded without diagnostic, whatever the reservation,
/// and blows every fuse of every row that is left: it clears these rows.
/// Every other row stays as it was.
pub proof fn lemma_false_term_blows_all(gal: GalView, line_num: LineNum, bounds: Bounds)
    requires
        gal.wf(),
        bounds.fits(gal.chip),
    ensures
        gal.term_error(TermView::constant_false(line_num), bounds) is None,
        gal.with_term(TermView::constant_false(line_num), bounds) == gal.with_rows_cleared(bounds),
        forall|row: int, col: int|
            #![trigger gal.with_term(TermView::constant_false(line_num), bounds).fuses[row * gal.chip.num_cols() + col]]
            0 <= row - (bounds.start_row + bounds.row_offset) < bounds.rows_left() && 0 <= col
                < gal.chip.num_cols() ==> !gal.with_term(
                TermView::constant_false(line_num),
                bounds,
            ).fuses[row * gal.chip.num_cols() + col],
        forall|row: int, col: int|
            #![trigger gal.with_term(TermView::constant_false(line_num), bounds).fuses[row * gal.chip.num_cols() + col]]
            0 <= row < gal.chip.num_rows() && !(0 <= row - (bounds.start_row + bounds.row_offset)
                < bounds.rows_left()) && 0 <= col < gal.chip.num_cols() ==> gal.with_term(
                TermView::constant_false(line_num),
                bounds,
            ).fuses[row * gal.chip.num_cols() + col] == gal.fuses[row * gal.chip.num_cols() + col],
{
    let term = TermView::constant_false(line_num);
    let cols = gal.chip.num_cols() as int;
    lemma_term_fits(gal.chip, gal.mode(), term, bounds);
    assert(gal.with_term(term, bounds).fuses =~= gal.with_rows_cleared(bounds).fuses);
    assert forall|row: int, col: int| 0 <= row < gal.chip.num_rows() && 0 <= col < cols implies 0
        <= #[trigger] (row * cols + col) < gal.fuses.len() && (row * cols + col) / cols == row by {
        lemma_fuse_at(gal.chip, row, col);
    }
}

/// A term with as many products as rows are left, whose pins all lead into
/// the array, is encoded without diagnostic and with no row to spare: every
/// fuse that the encoding blows lies in the row of a product and is one that
/// the product asks for.
pub proof fn lemma_exact_fit(gal: GalView, term: TermView, bounds: Bounds)
    requires
        term.rows.len() == bounds.rows_left(),
        pins_lead_in(gal.chip, gal.mode(), term.rows),
    ensures
        gal.term_error(term, bounds) is None,
        forall|idx: int|
            0 <= idx < gal.fuses.len() && gal.fuses[idx] && !(#[trigger] gal.with_term(
                term,
                bounds,
            ).fuses[idx]) ==> {
                let k = idx / (gal.chip.num_cols() as int) - (bounds.start_row + bounds.row_offset);
                0 <= k < term.rows.len() && gal.row_blows(
                    term.rows[k],
                    idx % (gal.chip.num_cols() as int),
                )
            },
{
    lemma_term_fits(gal.chip, gal.mode(), term, bounds);
}

/// A term with one product more than rows are left overflows, provided that
/// the pins of the products that have a row lead into the array: with the
/// diagnostic for a single row where one row is left, and else with the
/// number of products.
pub proof fn lemma_one_too_many(gal: GalView, term: TermView, bounds: Bounds)
    requires
        term.rows.len() == bounds.rows_left() + 1,
        pins_lead_in(gal.chip, gal.mode(), term.rows.take(bounds.rows_left())),
    ensures
        gal.term_error(term, bounds) == Some(
            Error {
                code: if bounds.rows_left() == 1 {
                    ErrorCode::MoreThanOneProduct
                } else {
                    ErrorCode::TooManyProducts {
                        max: (bounds.max_row - 1) as usize,
                        seen: term.rows.len() as usize,
                    }
                },
                line: term.line_num,
            },
        ),
{
    let fitting = TermView { line_num: term.line_num, rows: term.rows.take(bounds.rows_left()) };
    lemma_term_fits(gal.chip, gal.mode(), fitting, bounds);
    lemma_first_some_agree(
        row_errors(gal.chip, gal.mode(), fitting.rows),
        row_errors(gal.chip, gal.mode(), term.rows),
        0,
        bounds.rows_left(),
    );
}

/// The fuse in row `row` and column `col` lies at position `row` times the
/// number of columns plus `col`.
pub proof fn lemma_fuse_at(chip: Chip, row: int, col: int)
    requires
        0 <= row < chip.num_rows(),
        0 <= col < chip.num_cols(),
    ensures
        0 <= row * chip.num_cols() + col < chip.logic_size(),
        (row * chip.num_cols() + col) / (chip.num_cols() as int) == row,
        (row * chip.num_cols() + col) % (chip.num_cols() as int) == col,
{
    match chip {
        Chip::GAL16V8 => {
            assert(row * chip.num_cols() == row * 32);
        },
        Chip::GAL20V8 => {
            assert(row * chip.num_cols() == row * 40);
        },
        Chip::GAL22V10 => {
            assert(row * chip.num_cols() == row * 44);
        },
        Chip::GAL20RA10 => {
            assert(row * chip.num_cols() == row * 40);
        },
    }
}

/// No pin is read negated on a chip other than the GAL22V10. On the
/// GAL22V10 the pins read negated are those of the OLMCs marked as registered
/// and as active high.
pub proof fn lemma_needs_flip(gal: GalView, pin: usize)
    ensures
        gal.chip != Chip::GAL22V10 ==> !gal.needs_flip(pin),
        gal.chip == Chip::GAL22V10 ==> gal.needs_flip(pin) == (14 <= pin <= 23 && !gal.ac1[23 - pin]
            && gal.xor[23 - pin]),
{
}

/// States that read every pin alike blow the same fuses for a product.
pub proof fn lemma_reads_like(gal: GalView, other: GalView, content: RowUse, col: int)
    requires
        gal.reads_like(other),
    ensures
        gal.row_fuse(content, col) == other.row_fuse(content, col),
{
    if let RowUse::Product(pins) = content {
        if gal.row_blows(pins, col) {
            let j = choose|j: int| 0 <= j < pins.len() && #[trigger] gal.fuse_column(pins[j]) == col;
            assert(other.fuse_column(pins[j]) == col);
        }
        if other.row_blows(pins, col) {
            let j = choose|j: int|
                0 <= j < pins.len() && #[trigger] other.fuse_column(pins[j]) == col;
            assert(gal.fuse_column(pins[j]) == col);
        }
    }
}

/// Encoding a term blows the fuses that it does not spare and no other: a
/// fuse is intact afterwards exactly if it was intact and is spared.
pub proof fn lemma_with_term_at(gal: GalView, term: TermView, bounds: Bounds, row: int, col: int)
    requires
        gal.wf(),
        0 <= row < gal.chip.num_rows(),
        0 <= col < gal.chip.num_cols(),
    ensures
        gal.with_term(term, bounds).fuse(row, col) == (gal.fuse(row, col) && gal.spares(
            term,
            bounds,
            row,
            col,
        )),
        gal.with_term(term, bounds).wf(),
        gal.with_term(term, bounds).reads_like(gal),
{
    lemma_fuse_at(gal.chip, row, col);
}

} // verus!
