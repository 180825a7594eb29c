//! Which column of the logic array a pin feeds.
//!
//! An input pin feeds a pair of columns: the column of the table entry
//! carries the pin and the next column its complement. Which pair it is
//! depends on the chip and, for the chips with modes, on the mode: the pinout
//! differs between them and follows no formula. Some pins feed no column at
//! all, and the tables say why.

use vstd::prelude::*;
use crate::chips::Chip;
use crate::errors::ErrorCode;
use crate::gal::Mode;

verus! {

/// The entry of a pin that feeds column `col`.
pub open spec fn feeds(col: usize) -> Result<usize, ErrorCode> {
    Ok(col)
}

/// The entry of a pin that no path leads from into the array.
pub open spec fn no_path() -> Result<usize, ErrorCode> {
    Err(ErrorCode::BadAnalysis)
}

/// The entry of a power or ground pin.
pub open spec fn power() -> Result<usize, ErrorCode> {
    Err(ErrorCode::BadPower)
}

/// The entry of a pin that registered mode uses as `name`.
pub open spec fn registered_only(pin: usize, name: &'static str) -> Result<usize, ErrorCode> {
    Err(ErrorCode::ReservedRegisteredInput { pin, name })
}

/// The entry of a pin that complex mode cannot read.
pub open spec fn not_in_complex(pin: usize) -> Result<usize, ErrorCode> {
    Err(ErrorCode::NotAnComplexModeInput { pin })
}

/// The entry of a pin that the GAL20RA10 uses as `name`.
pub open spec fn fixed_20ra10(pin: usize, name: &'static str) -> Result<usize, ErrorCode> {
    Err(ErrorCode::ReservedInputGAL20RA10 { pin, name })
}

/// The table of `chip` in `mode`: entry `p - 1` says where pin `p` leads.
/// The chips without modes have one table.
pub open spec fn pin_table(chip: Chip, mode: Mode) -> Seq<Result<usize, ErrorCode>> {
    match chip {
        Chip::GAL16V8 => match mode {
            Mode::Simple => seq![
                feeds(2), feeds(0), feeds(4), feeds(8), feeds(12), feeds(16), feeds(20),
                feeds(24), feeds(28), power(),
                feeds(30), feeds(26), feeds(22), feeds(18), no_path(), no_path(), feeds(14),
                feeds(10), feeds(6), power(),
            ],
            Mode::Complex => seq![
                feeds(2), feeds(0), feeds(4), feeds(8), feeds(12), feeds(16), feeds(20),
                feeds(24), feeds(28), power(),
                feeds(30), not_in_complex(12), feeds(26), feeds(22), feeds(18), feeds(14),
                feeds(10), feeds(6), not_in_complex(19), power(),
            ],
            Mode::Registered => seq![
                registered_only(1, "Clock"), feeds(0), feeds(4), feeds(8), feeds(12),
                feeds(16), feeds(20), feeds(24), feeds(28), power(),
                registered_only(11, "/OE"), feeds(30), feeds(26), feeds(22), feeds(18),
                feeds(14), feeds(10), feeds(6), feeds(2), power(),
            ],
        },
        Chip::GAL20V8 => match mode {
            Mode::Simple => seq![
                feeds(2), feeds(0), feeds(4), feeds(8), feeds(12), feeds(16), feeds(20),
                feeds(24), feeds(28), feeds(32), feeds(36), power(),
                feeds(38), feeds(34), feeds(30), feeds(26), feeds(22), no_path(), no_path(),
                feeds(18), feeds(14), feeds(10), feeds(6), power(),
            ],
            Mode::Complex => seq![
                feeds(2), feeds(0), feeds(4), feeds(8), feeds(12), feeds(16), feeds(20),
                feeds(24), feeds(28), feeds(32), feeds(36), power(),
                feeds(38), feeds(34), not_in_complex(15), feeds(30), feeds(26), feeds(22),
                feeds(18), feeds(14), feeds(10), not_in_complex(22), feeds(6), power(),
            ],
            Mode::Registered => seq![
                registered_only(1, "Clock"), feeds(0), feeds(4), feeds(8), feeds(12),
                feeds(16), feeds(20), feeds(24), feeds(28), feeds(32), feeds(36), power(),
                registered_only(13, "/OE"), feeds(38), feeds(34), feeds(30), feeds(26),
                feeds(22), feeds(18), feeds(14), feeds(10), feeds(6), feeds(2), power(),
            ],
        },
        Chip::GAL22V10 => seq![
            feeds(0), feeds(4), feeds(8), feeds(12), feeds(16), feeds(20), feeds(24),
            feeds(28), feeds(32), feeds(36), feeds(40), power(),
            feeds(42), feeds(38), feeds(34), feeds(30), feeds(26), feeds(22), feeds(18),
            feeds(14), feeds(10), feeds(6), feeds(2), power(),
        ],
        Chip::GAL20RA10 => seq![
            fixed_20ra10(1, "/PL"), feeds(0), feeds(4), feeds(8), feeds(12), feeds(16),
            feeds(20), feeds(24), feeds(28), feeds(32), feeds(36), power(),
            fixed_20ra10(13, "/OE"), feeds(38), feeds(34), feeds(30), feeds(26), feeds(22),
            feeds(18), feeds(14), feeds(10), feeds(6), feeds(2), power(),
        ],
    }
}

/// Where pin number `pin` of `chip` in `mode` leads.
pub open spec fn pin_column(chip: Chip, mode: Mode, pin: usize) -> Result<usize, ErrorCode> {
    pin_table(chip, mode)[pin - 1]
}

/// The tables are total: every pin of the package has an entry, which is
/// either a column or one of the diagnostics for pins, and a diagnostic that
/// names a pin names the pin that was asked for. A column is the
/// true-polarity column of an input, so it is even and its complement
/// column lies inside the array too.
pub proof fn lemma_pin_column_total(chip: Chip, mode: Mode, pin: usize)
    requires
        1 <= pin <= chip.num_pins(),
    ensures
        pin_table(chip, mode).len() == chip.num_pins(),
        match pin_column(chip, mode, pin) {
            Ok(c) => c % 2 == 0 && c + 1 < chip.num_cols(),
            Err(ErrorCode::BadPower) => pin == chip.num_pins() || pin == chip.num_pins() / 2,
            Err(ErrorCode::BadAnalysis) => chip.has_modes() && mode == Mode::Simple,
            Err(ErrorCode::NotAnComplexModeInput { pin: p }) => chip.has_modes() && mode
                == Mode::Complex && p == pin,
            Err(ErrorCode::ReservedRegisteredInput { pin: p, name }) => chip.has_modes() && mode
                == Mode::Registered && p == pin,
            Err(ErrorCode::ReservedInputGAL20RA10 { pin: p, name }) => chip == Chip::GAL20RA10 && p
                == pin,
            Err(_) => false,
        },
{
}

/// No two pins of a package feed the same column.
pub proof fn lemma_pin_column_injective(chip: Chip, mode: Mode, pin1: usize, pin2: usize)
    requires
        1 <= pin1 <= chip.num_pins(),
        1 <= pin2 <= chip.num_pins(),
        pin_column(chip, mode, pin1) is Ok,
        pin_column(chip, mode, pin1) == pin_column(chip, mode, pin2),
    ensures
        pin1 == pin2,
{
}

/// The chips without modes have one table, whatever the mode is taken to
/// be.
pub proof fn lemma_one_table(chip: Chip, mode1: Mode, mode2: Mode)
    requires
        chip.has_modes() ==> mode1 == mode2,
    ensures
        pin_table(chip, mode1) == pin_table(chip, mode2),
{
}

////////////////////////////////////////////////////////////////////////
// The tables as the encoder reads them.

/// The table of the GAL16V8 in simple mode.
fn table_16_simple() -> (t: [Result<usize, ErrorCode>; 20])
    ensures
        t@ == pin_table(Chip::GAL16V8, Mode::Simple),
{
    let pwr: Result<usize, ErrorCode> = Err(ErrorCode::BadPower);
    let bad: Result<usize, ErrorCode> = Err(ErrorCode::BadAnalysis);
    let t = [
        Ok(2), Ok(0), Ok(4), Ok(8), Ok(12), Ok(16), Ok(20), Ok(24), Ok(28), pwr,
        Ok(30), Ok(26), Ok(22), Ok(18), bad, bad, Ok(14), Ok(10), Ok(6), pwr,
    ];
    assert(t@ =~= pin_table(Chip::GAL16V8, Mode::Simple));
    t
}

/// The table of the GAL16V8 in complex mode.
fn table_16_complex() -> (t: [Result<usize, ErrorCode>; 20])
    ensures
        t@ == pin_table(Chip::GAL16V8, Mode::Complex),
{
    let pwr: Result<usize, ErrorCode> = Err(ErrorCode::BadPower);
    let low: Result<usize, ErrorCode> = Err(ErrorCode::NotAnComplexModeInput { pin: 12 });
    let high: Result<usize, ErrorCode> = Err(ErrorCode::NotAnComplexModeInput { pin: 19 });
    let t = [
        Ok(2), Ok(0), Ok(4), Ok(8), Ok(12), Ok(16), Ok(20), Ok(24), Ok(28), pwr,
        Ok(30), low, Ok(26), Ok(22), Ok(18), Ok(14), Ok(10), Ok(6), high, pwr,
    ];
    assert(t@ =~= pin_table(Chip::GAL16V8, Mode::Complex));
    t
}

/// The table of the GAL16V8 in registered mode.
fn table_16_registered() -> (t: [Result<usize, ErrorCode>; 20])
    ensures
        t@ == pin_table(Chip::GAL16V8, Mode::Registered),
{
    let pwr: Result<usize, ErrorCode> = Err(ErrorCode::BadPower);
    let clock: Result<usize, ErrorCode> = Err(
        ErrorCode::ReservedRegisteredInput { pin: 1, name: "Clock" },
    );
    let enable: Result<usize, ErrorCode> = Err(
        ErrorCode::ReservedRegisteredInput { pin: 11, name: "/OE" },
    );
    let t = [
        clock, Ok(0), Ok(4), Ok(8), Ok(12), Ok(16), Ok(20), Ok(24), Ok(28), pwr,
        enable, Ok(30), Ok(26), Ok(22), Ok(18), Ok(14), Ok(10), Ok(6), Ok(2), pwr,
    ];
    assert(t@ =~= pin_table(Chip::GAL16V8, Mode::Registered));
    t
}

/// The table of the GAL20V8 in simple mode.
fn table_20_simple() -> (t: [Result<usize, ErrorCode>; 24])
    ensures
        t@ == pin_table(Chip::GAL20V8, Mode::Simple),
{
    let pwr: Result<usize, ErrorCode> = Err(ErrorCode::BadPower);
    let bad: Result<usize, ErrorCode> = Err(ErrorCode::BadAnalysis);
    let t = [
        Ok(2), Ok(0), Ok(4), Ok(8), Ok(12), Ok(16), Ok(20), Ok(24), Ok(28), Ok(32), Ok(36), pwr,
        Ok(38), Ok(34), Ok(30), Ok(26), Ok(22), bad, bad, Ok(18), Ok(14), Ok(10), Ok(6), pwr,
    ];
    assert(t@ =~= pin_table(Chip::GAL20V8, Mode::Simple));
    t
}

/// The table of the GAL20V8 in complex mode.
fn table_20_complex() -> (t: [Result<usize, ErrorCode>; 24])
    ensures
        t@ == pin_table(Chip::GAL20V8, Mode::Complex),
{
    let pwr: Result<usize, ErrorCode> = Err(ErrorCode::BadPower);
    let low: Result<usize, ErrorCode> = Err(ErrorCode::NotAnComplexModeInput { pin: 15 });
    let high: Result<usize, ErrorCode> = Err(ErrorCode::NotAnComplexModeInput { pin: 22 });
    let t = [
        Ok(2), Ok(0), Ok(4), Ok(8), Ok(12), Ok(16), Ok(20), Ok(24), Ok(28), Ok(32), Ok(36), pwr,
        Ok(38), Ok(34), low, Ok(30), Ok(26), Ok(22), Ok(18), Ok(14), Ok(10), high, Ok(6), pwr,
    ];
    assert(t@ =~= pin_table(Chip::GAL20V8, Mode::Complex));
    t
}

/// The table of the GAL20V8 in registered mode.
fn table_20_registered() -> (t: [Result<usize, ErrorCode>; 24])
    ensures
        t@ == pin_table(Chip::GAL20V8, Mode::Registered),
{
    let pwr: Result<usize, ErrorCode> = Err(ErrorCode::BadPower);
    let clock: Result<usize, ErrorCode> = Err(
        ErrorCode::ReservedRegisteredInput { pin: 1, name: "Clock" },
    );
    let enable: Result<usize, ErrorCode> = Err(
        ErrorCode::ReservedRegisteredInput { pin: 13, name: "/OE" },
    );
    let t = [
        clock, Ok(0), Ok(4), Ok(8), Ok(12), Ok(16), Ok(20), Ok(24), Ok(28), Ok(32), Ok(36), pwr,
        enable, Ok(38), Ok(34), Ok(30), Ok(26), Ok(22), Ok(18), Ok(14), Ok(10), Ok(6), Ok(2), pwr,
    ];
    assert(t@ =~= pin_table(Chip::GAL20V8, Mode::Registered));
    t
}

/// The table of the GAL22V10.
fn table_22v10() -> (t: [Result<usize, ErrorCode>; 24])
    ensures
        forall|mode: Mode| t@ == #[trigger] pin_table(Chip::GAL22V10, mode),
{
    let pwr: Result<usize, ErrorCode> = Err(ErrorCode::BadPower);
    let t = [
        Ok(0), Ok(4), Ok(8), Ok(12), Ok(16), Ok(20), Ok(24), Ok(28), Ok(32), Ok(36), Ok(40), pwr,
        Ok(42), Ok(38), Ok(34), Ok(30), Ok(26), Ok(22), Ok(18), Ok(14), Ok(10), Ok(6), Ok(2), pwr,
    ];
    assert forall|mode: Mode| t@ == #[trigger] pin_table(Chip::GAL22V10, mode) by {
        assert(t@ =~= pin_table(Chip::GAL22V10, mode));
    }
    t
}

/// The table of the GAL20RA10.
fn table_20ra10() -> (t: [Result<usize, ErrorCode>; 24])
    ensures
        forall|mode: Mode| t@ == #[trigger] pin_table(Chip::GAL20RA10, mode),
{
    let pwr: Result<usize, ErrorCode> = Err(ErrorCode::BadPower);
    let preload: Result<usize, ErrorCode> = Err(
        ErrorCode::ReservedInputGAL20RA10 { pin: 1, name: "/PL" },
    );
    let enable: Result<usize, ErrorCode> = Err(
        ErrorCode::ReservedInputGAL20RA10 { pin: 13, name: "/OE" },
    );
    let t = [
        preload, Ok(0), Ok(4), Ok(8), Ok(12), Ok(16), Ok(20), Ok(24), Ok(28), Ok(32), Ok(36), pwr,
        enable, Ok(38), Ok(34), Ok(30), Ok(26), Ok(22), Ok(18), Ok(14), Ok(10), Ok(6), Ok(2), pwr,
    ];
    assert forall|mode: Mode| t@ == #[trigger] pin_table(Chip::GAL20RA10, mode) by {
        assert(t@ =~= pin_table(Chip::GAL20RA10, mode));
    }
    t
}


/// Where pin number `pin` of `chip` in `mode` leads: the column that it
/// feeds, or the reason why it feeds none. The chips without modes take no
/// notice of `mode`.
pub fn lookup(chip: Chip, mode: Mode, pin: usize) -> (column: Result<usize, ErrorCode>)
    requires
        1 <= pin <= chip.num_pins(),
    ensures
        column == pin_column(chip, mode, pin),
{
    match chip {
        Chip::GAL16V8 => {
            let table = match mode {
                Mode::Simple => table_16_simple(),
                Mode::Complex => table_16_complex(),
                Mode::Registered => table_16_registered(),
            };
            table[pin - 1]
        },
        Chip::GAL20V8 => {
            let table = match mode {
                Mode::Simple => table_20_simple(),
                Mode::Complex => table_20_complex(),
                Mode::Registered => table_20_registered(),
            };
            table[pin - 1]
        },
        Chip::GAL22V10 => {
            let table = table_22v10();
            table[pin - 1]
        },
        Chip::GAL20RA10 => {
            let table = table_20ra10();
            table[pin - 1]
        },
    }
}

} // verus!
