//! Construction of the fuse state of a chip from a design.

use vstd::prelude::*;
use crate::acceptance::{design_fits, lemma_build_accepts};
use crate::blueprint::{Active, Blueprint, PinMode, OLMC};
use crate::chips::{Bounds, Chip};
use crate::errors::{
    at_line, first_of, first_some, lemma_first_some_is_first, lemma_first_some_none, Error,
    ErrorCode, OutputSuffix,
};
use crate::fuse_map::{design_state, lemma_build_state};
use crate::gal::{false_term, term_error, term_or_false, GalView, Mode, Term, GAL};

verus! {

////////////////////////////////////////////////////////////////////////
// Mode of a GAL16V8 or GAL20V8.

/// The mode that a GAL16V8 or GAL20V8 has to run in to serve `olmcs`.
///
/// A registered output is only to be had in registered mode. Failing
/// that, a tristate output is only to be had in complex mode. Failing that,
/// simple mode will do unless a pin is read back that simple mode cannot
/// read: an output, or one of the two middle pins used as an input.
pub open spec fn infer_mode(olmcs: Seq<OLMC>) -> Mode {
    if exists|i: int| 0 <= i < olmcs.len() && (#[trigger] olmcs[i]).kind() == Some(PinMode::Registered) {
        Mode::Registered
    } else if exists|i: int|
        0 <= i < olmcs.len() && (#[trigger] olmcs[i]).kind() == Some(PinMode::Tristate) {
        Mode::Complex
    } else if exists|i: int| 0 <= i < olmcs.len() && #[trigger] unfit_for_simple(olmcs[i], i) {
        Mode::Complex
    } else {
        Mode::Simple
    }
}

/// Whether simple mode cannot read back the pin of `olmc`, the OLMC at
/// position `i`, although the design does so.
pub open spec fn unfit_for_simple(olmc: OLMC, i: int) -> bool {
    olmc.feedback && (olmc.output is Some || i == 3 || i == 4)
}

/// A registered output decides the mode, whatever else the design holds.
pub proof fn lemma_registered_wins(olmcs: Seq<OLMC>, i: int)
    requires
        0 <= i < olmcs.len(),
        olmcs[i].kind() == Some(PinMode::Registered),
    ensures
        infer_mode(olmcs) == Mode::Registered,
{
}

/// Where no output is registered, a tristate output decides the mode.
pub proof fn lemma_tristate_wins(olmcs: Seq<OLMC>, i: int)
    requires
        forall|k: int| 0 <= k < olmcs.len() ==> (#[trigger] olmcs[k]).kind() != Some(PinMode::Registered),
        0 <= i < olmcs.len(),
        olmcs[i].kind() == Some(PinMode::Tristate),
    ensures
        infer_mode(olmcs) == Mode::Complex,
{
}

/// Simple mode is inferred exactly for the designs that simple mode can
/// serve: every output is combinatorial, no output is read back, and the two
/// middle pins are not used as inputs.
pub proof fn lemma_simple_mode(olmcs: Seq<OLMC>)
    ensures
        infer_mode(olmcs) == Mode::Simple <==> forall|i: int|
            0 <= i < olmcs.len() ==> {
                &&& (#[trigger] olmcs[i]).kind() is None || olmcs[i].kind() == Some(
                    PinMode::Combinatorial,
                )
                &&& olmcs[i].feedback ==> olmcs[i].output is None && i != 3 && i != 4
            },
{
    if infer_mode(olmcs) == Mode::Simple {
        assert forall|i: int| 0 <= i < olmcs.len() implies {
            &&& (#[trigger] olmcs[i]).kind() is None || olmcs[i].kind() == Some(
                PinMode::Combinatorial,
            )
            &&& olmcs[i].feedback ==> olmcs[i].output is None && i != 3 && i != 4
        } by {
            assert(!unfit_for_simple(olmcs[i], i));
        }
    }
}

/// Works out the mode that a GAL16V8 or GAL20V8 has to run in.
pub fn analyse_mode(olmcs: &[OLMC]) -> (mode: Mode)
    requires
        olmcs@.len() == 8,
    ensures
        mode == infer_mode(olmcs@),
{
    let mut i: usize = 0;
    while i < olmcs.len()
        invariant
            i <= olmcs@.len(),
            forall|k: int| 0 <= k < i ==> (#[trigger] olmcs@[k]).kind() != Some(PinMode::Registered),
        decreases olmcs@.len() - i,
    {
        if let Some((PinMode::Registered, _)) = &olmcs[i].output {
            return Mode::Registered;
        }
        i += 1;
    }
    let mut i: usize = 0;
    while i < olmcs.len()
        invariant
            i <= olmcs@.len(),
            forall|k: int|
                0 <= k < olmcs@.len() ==> (#[trigger] olmcs@[k]).kind() != Some(PinMode::Registered),
            forall|k: int| 0 <= k < i ==> (#[trigger] olmcs@[k]).kind() != Some(PinMode::Tristate),
        decreases olmcs@.len() - i,
    {
        if let Some((PinMode::Tristate, _)) = &olmcs[i].output {
            return Mode::Complex;
        }
        i += 1;
    }
    let mut n: usize = 0;
    while n < olmcs.len()
        invariant
            n <= olmcs@.len(),
            forall|k: int|
                0 <= k < olmcs@.len() ==> (#[trigger] olmcs@[k]).kind() != Some(PinMode::Registered),
            forall|k: int|
                0 <= k < olmcs@.len() ==> (#[trigger] olmcs@[k]).kind() != Some(PinMode::Tristate),
            forall|k: int| 0 <= k < n ==> !#[trigger] unfit_for_simple(olmcs@[k], k),
        decreases olmcs@.len() - n,
    {
        let olmc = &olmcs[n];
        if olmc.feedback {
            match &olmc.output {
                None => {
                    if n == 3 || n == 4 {
                        assert(unfit_for_simple(olmcs@[n as int], n as int));
                        return Mode::Complex;
                    }
                },
                Some(_) => {
                    assert(unfit_for_simple(olmcs@[n as int], n as int));
                    return Mode::Complex;
                },
            }
        }
        n += 1;
    }
    Mode::Simple
}

/// Sets the mode fuses of a GAL16V8 or GAL20V8 to the mode that the design
/// calls for.
pub fn set_mode(gal: &mut GAL, blueprint: &Blueprint)
    requires
        old(gal).chip.has_modes(),
        blueprint.olmcs@.len() == 8,
    ensures
        final(gal)@ == old(gal)@.with_mode(infer_mode(blueprint.olmcs@)),
        final(gal)@.mode() == infer_mode(blueprint.olmcs@),
{
    gal.set_mode(analyse_mode(blueprint.olmcs.as_slice()));
}

////////////////////////////////////////////////////////////////////////
// The fields besides the logic array.

/// Bit `j` of `byte`, counted from the most significant bit.
pub open spec fn sig_bit(byte: u8, j: u8) -> bool {
    byte & (0x80u8 >> j) != 0
}

/// The state with the signature `sig` written: byte `i` of the first eight
/// fills the bits `8 * i .. 8 * i + 8`, most significant bit first. The bits
/// for which `sig` has no byte stay as they were.
pub open spec fn with_sig(gal: GalView, sig: Seq<u8>) -> GalView {
    GalView {
        sig: Seq::new(
            gal.sig.len(),
            |k: int|
                if k < 64 && k / 8 < sig.len() {
                    sig_bit(sig[k / 8], (k % 8) as u8)
                } else {
                    gal.sig[k]
                },
        ),
        ..gal
    }
}

/// Writes the signature.
pub fn set_sig(gal: &mut GAL, blueprint: &Blueprint)
    requires
        old(gal)@.wf(),
    ensures
        final(gal)@ == with_sig(old(gal)@, blueprint.sig@),
{
    let ghost before = gal@;
    let ghost sig = blueprint.sig@;
    let len = if blueprint.sig.len() < 8 {
        blueprint.sig.len()
    } else {
        8
    };
    let mut i: usize = 0;
    while i < len
        invariant
            sig == blueprint.sig@,
            len <= 8,
            len <= sig.len(),
            i <= len,
            before.wf(),
            gal@ == (GalView { sig: gal.sig@, ..before }),
            gal.sig@.len() == 64,
            forall|k: int|
                0 <= k < 64 ==> #[trigger] gal.sig@[k] == (if k / 8 < i {
                    sig_bit(sig[k / 8], (k % 8) as u8)
                } else {
                    before.sig[k]
                }),
        decreases len - i,
    {
        let c = blueprint.sig[i];
        let mut j: u8 = 0;
        while j < 8
            invariant
                sig == blueprint.sig@,
                c == sig[i as int],
                i < len <= 8,
                j <= 8,
                before.wf(),
                gal@ == (GalView { sig: gal.sig@, ..before }),
                gal.sig@.len() == 64,
                forall|k: int|
                    0 <= k < 64 ==> #[trigger] gal.sig@[k] == (if k / 8 < i || (k / 8 == i && k % 8
                        < j) {
                        sig_bit(sig[k / 8], (k % 8) as u8)
                    } else {
                        before.sig[k]
                    }),
            decreases 8 - j,
        {
            assert(((c << j) & 0x80 != 0) == sig_bit(c, j)) by (bit_vector)
                requires
                    j < 8,
            ;
            gal.sig[i * 8 + j as usize] = (c << j) & 0x80 != 0;
            j += 1;
        }
        i += 1;
    }
    assert(gal@.sig =~= with_sig(before, sig).sig);
}

/// Whether the pin of `olmc` is an input or a tristate output. Where
/// `com_is_tri` is set, a combinatorial output is built as a tristate output
/// that is always enabled.
pub open spec fn drives_tristate(olmc: OLMC, com_is_tri: bool) -> bool {
    match olmc.kind() {
        None => olmc.feedback,
        Some(PinMode::Tristate) => true,
        Some(PinMode::Combinatorial) => com_is_tri,
        Some(PinMode::Registered) => false,
    }
}

/// The state with the tristate bit of every OLMC set as the design calls
/// for. The bit of the last OLMC comes first.
pub open spec fn with_tristate(gal: GalView, olmcs: Seq<OLMC>, com_is_tri: bool) -> GalView {
    GalView {
        ac1: Seq::new(
            olmcs.len(),
            |k: int| drives_tristate(olmcs[olmcs.len() - 1 - k], com_is_tri),
        ),
        ..gal
    }
}

/// Sets the tristate bits: set for inputs and tristate outputs.
pub fn set_tristate(gal: &mut GAL, blueprint: &Blueprint, com_is_tri: bool)
    requires
        old(gal)@.wf(),
        blueprint.olmcs@.len() == old(gal).chip.num_olmcs(),
    ensures
        final(gal)@ == with_tristate(old(gal)@, blueprint.olmcs@, com_is_tri),
{
    let ghost before = gal@;
    let num_olmcs = blueprint.olmcs.len();
    let mut i: usize = 0;
    while i < num_olmcs
        invariant
            num_olmcs == blueprint.olmcs@.len(),
            i <= num_olmcs,
            gal@ == (GalView { ac1: gal.ac1@, ..before }),
            gal.ac1@.len() == num_olmcs,
            forall|k: int|
                num_olmcs - i <= k < num_olmcs ==> #[trigger] gal.ac1@[k] == drives_tristate(
                    blueprint.olmcs@[num_olmcs - 1 - k],
                    com_is_tri,
                ),
        decreases num_olmcs - i,
    {
        let olmc = &blueprint.olmcs[i];
        let is_tristate = match &olmc.output {
            None => olmc.feedback,
            Some((PinMode::Tristate, _)) => true,
            Some((PinMode::Combinatorial, _)) => com_is_tri,
            Some((PinMode::Registered, _)) => false,
        };
        gal.ac1[num_olmcs - 1 - i] = is_tristate;
        i += 1;
    }
    assert(gal@.ac1 =~= with_tristate(before, blueprint.olmcs@, com_is_tri).ac1);
}

/// Whether `olmc` has an output that is high when its equation holds.
pub open spec fn active_high(olmc: OLMC) -> bool {
    olmc.output is Some && olmc.active == Active::High
}

/// The state with the polarity bit of every OLMC set as the design calls
/// for. The bit of the last OLMC comes first.
pub open spec fn with_xors(gal: GalView, olmcs: Seq<OLMC>) -> GalView {
    GalView {
        xor: Seq::new(olmcs.len(), |k: int| active_high(olmcs[olmcs.len() - 1 - k])),
        ..gal
    }
}

/// Sets the polarity bits: set for active-high outputs.
pub fn set_xors(gal: &mut GAL, blueprint: &Blueprint)
    requires
        old(gal)@.wf(),
        blueprint.olmcs@.len() == old(gal).chip.num_olmcs(),
    ensures
        final(gal)@ == with_xors(old(gal)@, blueprint.olmcs@),
{
    let ghost before = gal@;
    let num_olmcs = blueprint.olmcs.len();
    let mut i: usize = 0;
    while i < num_olmcs
        invariant
            num_olmcs == blueprint.olmcs@.len(),
            i <= num_olmcs,
            gal@ == (GalView { xor: gal.xor@, ..before }),
            gal.xor@.len() == num_olmcs,
            forall|k: int|
                num_olmcs - i <= k < num_olmcs ==> #[trigger] gal.xor@[k] == active_high(
                    blueprint.olmcs@[num_olmcs - 1 - k],
                ),
        decreases num_olmcs - i,
    {
        let olmc = &blueprint.olmcs[i];
        let high = match olmc.active {
            Active::High => true,
            Active::Low => false,
        };
        gal.xor[num_olmcs - 1 - i] = olmc.output.is_some() && high;
        i += 1;
    }
    assert(gal@.xor =~= with_xors(before, blueprint.olmcs@).xor);
}

/// The state with every product term enable bit set.
pub open spec fn with_pts(gal: GalView) -> GalView {
    GalView { pt: Seq::new(gal.pt.len(), |k: int| true), ..gal }
}

/// Sets the product term enable bits, which the GAL16V8 and GAL20V8 have no
/// use for.
pub fn set_pts(gal: &mut GAL)
    ensures
        final(gal)@ == with_pts(old(gal)@),
{
    let ghost before = gal@;
    let mut i: usize = 0;
    while i < gal.pt.len()
        invariant
            i <= gal.pt@.len(),
            gal@ == (GalView { pt: gal.pt@, ..before }),
            gal.pt@.len() == before.pt.len(),
            forall|k: int| 0 <= k < i ==> #[trigger] gal.pt@[k],
        decreases gal.pt@.len() - i,
    {
        gal.pt[i] = true;
        i += 1;
    }
    assert(gal@.pt =~= with_pts(before).pt);
}

////////////////////////////////////////////////////////////////////////
// Checks on what a design asks of an output.

/// The diagnostic for the first control equation of `olmc`, on a chip
/// without control lines: clock before reset before preset.
pub open spec fn disallowed_control(olmc: OLMC) -> Option<Error> {
    if let Some(term) = olmc.clock {
        Some(
            Error {
                code: ErrorCode::DisallowedControl { suffix: OutputSuffix::CLK },
                line: term.line_num,
            },
        )
    } else if let Some(term) = olmc.arst {
        Some(
            Error {
                code: ErrorCode::DisallowedControl { suffix: OutputSuffix::ARST },
                line: term.line_num,
            },
        )
    } else if let Some(term) = olmc.aprst {
        Some(
            Error {
                code: ErrorCode::DisallowedControl { suffix: OutputSuffix::APRST },
                line: term.line_num,
            },
        )
    } else {
        None
    }
}

/// The diagnostics for the control equations of `olmcs`, by position.
pub open spec fn disallowed_controls(olmcs: Seq<OLMC>) -> spec_fn(int) -> Option<Error> {
    |i: int| disallowed_control(olmcs[i])
}

/// Checks that the design has no clock, reset or preset equation, which
/// only the GAL20RA10 has lines for. Reports the first one that it has.
pub fn check_not_gal20ra10(blueprint: &Blueprint) -> (checked: Result<(), Error>)
    ensures
        checked == match first_some(
            disallowed_controls(blueprint.olmcs@),
            0,
            blueprint.olmcs@.len() as int,
        ) {
            Some(error) => Err::<(), Error>(error),
            None => Ok(()),
        },
        checked is Ok <==> forall|i: int|
            0 <= i < blueprint.olmcs@.len() ==> !(#[trigger] blueprint.olmcs@[i]).has_control(),
{
    let ghost steps = disallowed_controls(blueprint.olmcs@);
    let ghost until = blueprint.olmcs@.len() as int;
    proof {
        lemma_first_some_none(steps, 0, until);
        if first_some(steps, 0, until) is None {
            assert forall|i: int| 0 <= i < until implies !(
            #[trigger] blueprint.olmcs@[i]).has_control() by {
                assert(steps(i) is None);
            }
        } else {
            let at = lemma_first_some_is_first(steps, 0, until);
            assert(blueprint.olmcs@[at].has_control());
        }
    }
    let mut i: usize = 0;
    while i < blueprint.olmcs.len()
        invariant
            steps == disallowed_controls(blueprint.olmcs@),
            until == blueprint.olmcs@.len(),
            i <= until,
            first_some(steps, 0, until) == first_some(steps, i as int, until),
        decreases until - i,
    {
        let olmc = &blueprint.olmcs[i];
        if let Some(term) = &olmc.clock {
            return at_line(
                term.line_num,
                Err(ErrorCode::DisallowedControl { suffix: OutputSuffix::CLK }),
            );
        }
        if let Some(term) = &olmc.arst {
            return at_line(
                term.line_num,
                Err(ErrorCode::DisallowedControl { suffix: OutputSuffix::ARST }),
            );
        }
        if let Some(term) = &olmc.aprst {
            return at_line(
                term.line_num,
                Err(ErrorCode::DisallowedControl { suffix: OutputSuffix::APRST }),
            );
        }
        i += 1;
    }
    Ok(())
}

/// Whether an output driven as `kind` on `chip` can have a tristate enable.
/// An output that is always driven has none to set, and on the chips with
/// modes a registered output takes its enable from a pin.
pub open spec fn tristate_check(chip: Chip, kind: Option<PinMode>) -> Result<(), ErrorCode> {
    match kind {
        None => Err(ErrorCode::UndefinedOutput { suffix: OutputSuffix::E }),
        Some(PinMode::Registered) => if chip.has_modes() {
            Err(ErrorCode::TristateReg)
        } else {
            Ok(())
        },
        Some(PinMode::Combinatorial) => Err(ErrorCode::UnmatchedTristate),
        Some(PinMode::Tristate) => Ok(()),
    }
}

/// Checks that the output of `olmc` can have a tristate enable.
pub fn check_tristate(chip: Chip, olmc: &OLMC) -> (checked: Result<(), ErrorCode>)
    ensures
        checked == tristate_check(chip, olmc.kind()),
{
    match &olmc.output {
        None => Err(ErrorCode::UndefinedOutput { suffix: OutputSuffix::E }),
        Some((PinMode::Registered, _)) => {
            if chip.has_modes() {
                Err(ErrorCode::TristateReg)
            } else {
                Ok(())
            }
        },
        Some((PinMode::Combinatorial, _)) => Err(ErrorCode::UnmatchedTristate),
        Some((PinMode::Tristate, _)) => Ok(()),
    }
}

/// The diagnostic for the control equation `field` of kind `suffix` on an
/// output driven as `kind`: only a registered output has a flip-flop to
/// control.
pub open spec fn aux_check(field: Option<Term>, kind: Option<PinMode>, suffix: OutputSuffix) -> Option<
    Error,
> {
    match field {
        None => None,
        Some(term) => match kind {
            None => Some(
                Error { code: ErrorCode::UndefinedOutput { suffix }, line: term.line_num },
            ),
            Some(PinMode::Registered) => None,
            Some(_) => Some(
                Error { code: ErrorCode::InvalidControl { suffix }, line: term.line_num },
            ),
        },
    }
}

/// Checks that the control equation `field` of kind `suffix`, if there is
/// one, belongs to a registered output.
pub fn check_aux(field: &Option<Term>, olmc: &OLMC, suffix: OutputSuffix) -> (checked: Result<
    (),
    Error,
>)
    ensures
        checked == match aux_check(*field, olmc.kind(), suffix) {
            Some(error) => Err::<(), Error>(error),
            None => Ok(()),
        },
{
    if let Some(term) = field {
        at_line(
            term.line_num,
            match &olmc.output {
                None => Err(ErrorCode::UndefinedOutput { suffix }),
                Some((PinMode::Registered, _)) => Ok(()),
                _ => Err(ErrorCode::InvalidControl { suffix }),
            },
        )
    } else {
        Ok(())
    }
}

////////////////////////////////////////////////////////////////////////
// The main equation and the tristate enable of every output.

/// Where in `bounds`, the block of an output driven as `kind`, its main
/// equation goes.
///
/// The first row of a block is the tristate enable. The chips with modes have
/// none in simple mode nor for a registered output, and give the row to the
/// main equation. The GAL20RA10 keeps the first four rows for the enable, the
/// clock, the reset and the preset.
pub open spec fn main_bounds(chip: Chip, mode: Mode, kind: Option<PinMode>, bounds: Bounds) -> Bounds {
    match chip {
        Chip::GAL16V8 | Chip::GAL20V8 => if mode == Mode::Simple || kind == Some(
            PinMode::Registered,
        ) {
            bounds
        } else {
            Bounds { row_offset: 1, ..bounds }
        },
        Chip::GAL22V10 => Bounds { row_offset: 1, ..bounds },
        Chip::GAL20RA10 => Bounds { row_offset: 4, ..bounds },
    }
}

/// Moves the cursor of `bounds`, the block of `output`, past the rows that
/// are not for the main equation.
pub fn adjust_main_bounds(gal: &GAL, output: &Option<(PinMode, Term)>, bounds: &Bounds) -> (adjusted:
    Bounds)
    requires
        gal@.mode_set(),
    ensures
        adjusted == main_bounds(
            gal.chip,
            gal@.mode(),
            match *output {
                Some((kind, _)) => Some(kind),
                None => None,
            },
            *bounds,
        ),
{
    match gal.chip {
        Chip::GAL16V8 | Chip::GAL20V8 => {
            let reg_out = match output {
                Some((PinMode::Registered, _)) => true,
                _ => false,
            };
            let simple = match gal.get_mode() {
                Mode::Simple => true,
                _ => false,
            };
            if simple || reg_out {
                *bounds
            } else {
                Bounds { row_offset: 1, ..*bounds }
            }
        },
        Chip::GAL22V10 => Bounds { row_offset: 1, ..*bounds },
        Chip::GAL20RA10 => Bounds { row_offset: 4, ..*bounds },
    }
}

/// Where the main equation of `olmc`, the OLMC at position `i`, goes. A
/// pin without output has its whole block blown.
pub open spec fn olmc_main_bounds(chip: Chip, mode: Mode, olmc: OLMC, i: int) -> Bounds {
    match olmc.kind() {
        Some(kind) => main_bounds(chip, mode, Some(kind), chip.block(i)),
        None => chip.block(i),
    }
}

/// Why the main equation and the tristate enable of `olmc`, the OLMC at
/// position `i`, cannot be encoded on `chip` in `mode`, if they cannot: the
/// main equation is encoded first, then the output is checked for an enable,
/// then the enable is encoded.
pub open spec fn core_step_error(chip: Chip, mode: Mode, olmc: OLMC, i: int) -> Option<Error> {
    first_of(
        term_error(chip, mode, olmc.main_term(), olmc_main_bounds(chip, mode, olmc, i)),
        match olmc.tri_con {
            None => None,
            Some(term) => match tristate_check(chip, olmc.kind()) {
                Err(code) => Some(Error { code, line: term.line_num }),
                Ok(_) => term_error(chip, mode, term@, chip.block_row(i, 0)),
            },
        },
    )
}

/// The diagnostics for the main equations and tristate enables of `olmcs`,
/// by position.
pub open spec fn core_step_errors(chip: Chip, mode: Mode, olmcs: Seq<OLMC>) -> spec_fn(int) -> Option<
    Error,
> {
    |i: int| core_step_error(chip, mode, olmcs[i], i)
}

/// The state once the main equation and the tristate enable of `olmc`, the
/// OLMC at position `i`, are encoded: the main equation where
/// [`olmc_main_bounds`] puts it, and the enable, if there is one, in the first
/// row of the block.
pub open spec fn core_step(gal: GalView, olmc: OLMC, i: int) -> GalView {
    let main = gal.with_term(olmc.main_term(), olmc_main_bounds(gal.chip, gal.mode(), olmc, i));
    match olmc.tri_con {
        None => main,
        Some(term) => main.with_term(term@, gal.chip.block_row(i, 0)),
    }
}

/// The state once the main equations and the tristate enables of the first
/// `n` of `olmcs` are encoded, one OLMC after the other.
pub open spec fn core_eqns(gal: GalView, olmcs: Seq<OLMC>, n: int) -> GalView
    decreases n,
{
    if n <= 0 {
        gal
    } else {
        core_step(core_eqns(gal, olmcs, n - 1), olmcs[n - 1], n - 1)
    }
}

/// Why the main equations and the tristate enables of `olmcs` cannot be
/// encoded on `chip` in `mode`, if they cannot.
pub open spec fn core_error(chip: Chip, mode: Mode, olmcs: Seq<OLMC>) -> Option<Error> {
    first_some(core_step_errors(chip, mode, olmcs), 0, olmcs.len() as int)
}

/// Encodes the main equation and the tristate enable of every output.
pub fn set_core_eqns(gal: &mut GAL, blueprint: &Blueprint) -> (done: Result<(), Error>)
    requires
        old(gal)@.wf(),
        old(gal)@.mode_set(),
        old(gal).chip == blueprint.chip,
        blueprint.wf(),
    ensures
        match core_error(old(gal).chip, old(gal)@.mode(), blueprint.olmcs@) {
            Some(error) => done == Err::<(), Error>(error),
            None => {
                &&& done == Ok::<(), Error>(())
                &&& final(gal)@ == core_eqns(
                    old(gal)@,
                    blueprint.olmcs@,
                    blueprint.olmcs@.len() as int,
                )
            },
        },
        final(gal)@ == old(gal)@.with_fuses(final(gal)@.fuses),
        final(gal)@.wf(),
{
    let ghost before = gal@;
    let ghost olmcs = blueprint.olmcs@;
    let ghost steps = core_step_errors(before.chip, before.mode(), olmcs);
    let ghost until = olmcs.len() as int;
    let mut i: usize = 0;
    while i < blueprint.olmcs.len()
        invariant
            before == old(gal)@,
            olmcs == blueprint.olmcs@,
            steps == core_step_errors(before.chip, before.mode(), olmcs),
            until == olmcs.len(),
            i <= until,
            blueprint.wf(),
            before.wf(),
            before.mode_set(),
            before.chip == blueprint.chip,
            gal@ == before.with_fuses(gal.fuses@),
            gal@.wf(),
            gal@ == core_eqns(before, olmcs, i as int),
            first_some(steps, 0, until) == first_some(steps, i as int, until),
        decreases until - i,
    {
        let olmc = &blueprint.olmcs[i];
        let bounds = gal.chip.get_bounds(i);
        assert(olmc.pins_on(blueprint.chip));
        match &olmc.output {
            Some((_, term)) => {
                let bounds = adjust_main_bounds(gal, &olmc.output, &bounds);
                match gal.add_term(term, &bounds) {
                    Ok(()) => {},
                    Err(error) => {
                        return Err(error);
                    },
                }
            },
            None => {
                match gal.add_term(&false_term(0), &bounds) {
                    Ok(()) => {},
                    Err(error) => {
                        return Err(error);
                    },
                }
            },
        }
        if let Some(term) = &olmc.tri_con {
            match at_line(term.line_num, check_tristate(gal.chip, olmc)) {
                Ok(()) => {},
                Err(error) => {
                    return Err(error);
                },
            }
            match gal.add_term(term, &Bounds { row_offset: 0, max_row: 1, ..bounds }) {
                Ok(()) => {},
                Err(error) => {
                    return Err(error);
                },
            }
        }
        i += 1;
    }
    Ok(())
}

////////////////////////////////////////////////////////////////////////
// The reset and preset of the GAL22V10.

/// The row of the GAL22V10 that resets all flip-flops.
pub open spec fn ar_bounds() -> Bounds {
    Bounds { start_row: 0, max_row: 1, row_offset: 0 }
}

/// The row of the GAL22V10 that presets all flip-flops.
pub open spec fn sp_bounds() -> Bounds {
    Bounds { start_row: 131, max_row: 1, row_offset: 0 }
}

/// Why the reset `ar` and the preset `sp` cannot be encoded, if they cannot.
pub open spec fn arsp_error(mode: Mode, ar: Option<Term>, sp: Option<Term>) -> Option<Error> {
    first_of(
        term_error(Chip::GAL22V10, mode, term_or_false(ar), ar_bounds()),
        term_error(Chip::GAL22V10, mode, term_or_false(sp), sp_bounds()),
    )
}

/// The state once the reset `ar` and the preset `sp` are encoded. One that
/// the design does not give is false.
pub open spec fn arsp_eqns(gal: GalView, ar: Option<Term>, sp: Option<Term>) -> GalView {
    gal.with_term(term_or_false(ar), ar_bounds()).with_term(term_or_false(sp), sp_bounds())
}

/// Encodes the reset and the preset of the GAL22V10, each into its own row.
pub fn set_arsp_eqns(gal: &mut GAL, blueprint: &Blueprint) -> (done: Result<(), Error>)
    requires
        old(gal)@.wf(),
        old(gal).chip == Chip::GAL22V10,
        blueprint.chip == Chip::GAL22V10,
        blueprint.wf(),
    ensures
        match arsp_error(old(gal)@.mode(), blueprint.ar, blueprint.sp) {
            Some(error) => done == Err::<(), Error>(error),
            None => {
                &&& done == Ok::<(), Error>(())
                &&& final(gal)@ == arsp_eqns(old(gal)@, blueprint.ar, blueprint.sp)
            },
        },
        final(gal)@ == old(gal)@.with_fuses(final(gal)@.fuses),
        final(gal)@.wf(),
{
    let ar_bounds = Bounds { start_row: 0, max_row: 1, row_offset: 0 };
    match gal.add_term_opt(&blueprint.ar, &ar_bounds) {
        Ok(()) => {},
        Err(error) => {
            return Err(error);
        },
    }
    let sp_bounds = Bounds { start_row: 131, max_row: 1, row_offset: 0 };
    match gal.add_term_opt(&blueprint.sp, &sp_bounds) {
        Ok(()) => {},
        Err(error) => {
            return Err(error);
        },
    }
    Ok(())
}

////////////////////////////////////////////////////////////////////////
// The clock, reset and preset of every output of the GAL20RA10.

/// The diagnostic for a registered output without clock, at the line of its
/// main equation.
pub open spec fn missing_clock(olmc: OLMC) -> Option<Error> {
    match olmc.output {
        Some((PinMode::Registered, term)) => if olmc.clock is None {
            Some(Error { code: ErrorCode::NoCLK, line: term.line_num })
        } else {
            None
        },
        _ => None,
    }
}

/// Why the control equations of `olmc`, the OLMC at position `i`, cannot be
/// encoded, if they cannot. The equations are first checked against the
/// output. Of a registered output, reset and preset are then encoded, and the
/// clock is asked for. At last the clock of every output is encoded.
pub open spec fn aux_step_error(mode: Mode, olmc: OLMC, i: int) -> Option<Error> {
    let chip = Chip::GAL20RA10;
    let kind = olmc.kind();
    let checks = first_of(
        aux_check(olmc.clock, kind, OutputSuffix::CLK),
        first_of(
            aux_check(olmc.arst, kind, OutputSuffix::ARST),
            aux_check(olmc.aprst, kind, OutputSuffix::APRST),
        ),
    );
    let flip_flop = if kind == Some(PinMode::Registered) {
        first_of(
            term_error(chip, mode, term_or_false(olmc.arst), chip.block_row(i, 2)),
            first_of(
                term_error(chip, mode, term_or_false(olmc.aprst), chip.block_row(i, 3)),
                missing_clock(olmc),
            ),
        )
    } else {
        None
    };
    let clock = if kind is Some {
        term_error(chip, mode, term_or_false(olmc.clock), chip.block_row(i, 1))
    } else {
        None
    };
    first_of(checks, first_of(flip_flop, clock))
}

/// The diagnostics for the control equations of `olmcs`, by position.
pub open spec fn aux_step_errors(mode: Mode, olmcs: Seq<OLMC>) -> spec_fn(int) -> Option<Error> {
    |i: int| aux_step_error(mode, olmcs[i], i)
}

/// The state once the control equations of `olmc`, the OLMC at position
/// `i`, are encoded: of a registered output the reset in row 2 and the preset
/// in row 3 of the block, and of every output the clock in row 1. An equation
/// that the design does not give is false. A pin without output keeps its
/// rows as they were.
pub open spec fn aux_step(gal: GalView, olmc: OLMC, i: int) -> GalView {
    let flip_flop = if olmc.kind() == Some(PinMode::Registered) {
        gal.with_term(term_or_false(olmc.arst), gal.chip.block_row(i, 2)).with_term(
            term_or_false(olmc.aprst),
            gal.chip.block_row(i, 3),
        )
    } else {
        gal
    };
    if olmc.kind() is Some {
        flip_flop.with_term(term_or_false(olmc.clock), gal.chip.block_row(i, 1))
    } else {
        flip_flop
    }
}

/// The state once the control equations of the first `n` of `olmcs` are
/// encoded, one OLMC after the other.
pub open spec fn aux_eqns(gal: GalView, olmcs: Seq<OLMC>, n: int) -> GalView
    decreases n,
{
    if n <= 0 {
        gal
    } else {
        aux_step(aux_eqns(gal, olmcs, n - 1), olmcs[n - 1], n - 1)
    }
}

/// Why the control equations of `olmcs` cannot be encoded, if they cannot.
pub open spec fn aux_error(mode: Mode, olmcs: Seq<OLMC>) -> Option<Error> {
    first_some(aux_step_errors(mode, olmcs), 0, olmcs.len() as int)
}

/// Encodes the clock, reset and preset of every output of the GAL20RA10.
pub fn set_aux_eqns(gal: &mut GAL, blueprint: &Blueprint) -> (done: Result<(), Error>)
    requires
        old(gal)@.wf(),
        old(gal).chip == Chip::GAL20RA10,
        blueprint.chip == Chip::GAL20RA10,
        blueprint.wf(),
    ensures
        match aux_error(old(gal)@.mode(), blueprint.olmcs@) {
            Some(error) => done == Err::<(), Error>(error),
            None => {
                &&& done == Ok::<(), Error>(())
                &&& final(gal)@ == aux_eqns(
                    old(gal)@,
                    blueprint.olmcs@,
                    blueprint.olmcs@.len() as int,
                )
            },
        },
        final(gal)@ == old(gal)@.with_fuses(final(gal)@.fuses),
        final(gal)@.wf(),
{
    let ghost before = gal@;
    let ghost olmcs = blueprint.olmcs@;
    let ghost steps = aux_step_errors(before.mode(), olmcs);
    let ghost until = olmcs.len() as int;
    let mut i: usize = 0;
    while i < blueprint.olmcs.len()
        invariant
            before == old(gal)@,
            olmcs == blueprint.olmcs@,
            steps == aux_step_errors(before.mode(), olmcs),
            until == olmcs.len(),
            i <= until,
            blueprint.wf(),
            before.wf(),
            before.chip == Chip::GAL20RA10,
            blueprint.chip == Chip::GAL20RA10,
            gal@ == before.with_fuses(gal.fuses@),
            gal@.wf(),
            gal@ == aux_eqns(before, olmcs, i as int),
            first_some(steps, 0, until) == first_some(steps, i as int, until),
        decreases until - i,
    {
        let olmc = &blueprint.olmcs[i];
        let bounds = gal.chip.get_bounds(i);
        assert(olmc.pins_on(blueprint.chip));
        match check_aux(&olmc.clock, olmc, OutputSuffix::CLK) {
            Ok(()) => {},
            Err(error) => {
                return Err(error);
            },
        }
        match check_aux(&olmc.arst, olmc, OutputSuffix::ARST) {
            Ok(()) => {},
            Err(error) => {
                return Err(error);
            },
        }
        match check_aux(&olmc.aprst, olmc, OutputSuffix::APRST) {
            Ok(()) => {},
            Err(error) => {
                return Err(error);
            },
        }
        if let Some((PinMode::Registered, term)) = &olmc.output {
            let arst_bounds = Bounds { row_offset: 2, max_row: 3, ..bounds };
            match gal.add_term_opt(&olmc.arst, &arst_bounds) {
                Ok(()) => {},
                Err(error) => {
                    return Err(error);
                },
            }
            let aprst_bounds = Bounds { row_offset: 3, max_row: 4, ..bounds };
            match gal.add_term_opt(&olmc.aprst, &aprst_bounds) {
                Ok(()) => {},
                Err(error) => {
                    return Err(error);
                },
            }
            if olmc.clock.is_none() {
                return at_line(term.line_num, Err(ErrorCode::NoCLK));
            }
        }
        if olmc.output.is_some() {
            let clock_bounds = Bounds { row_offset: 1, max_row: 2, ..bounds };
            match gal.add_term_opt(&olmc.clock, &clock_bounds) {
                Ok(()) => {},
                Err(error) => {
                    return Err(error);
                },
            }
        }
        i += 1;
    }
    Ok(())
}

////////////////////////////////////////////////////////////////////////
// The chips, one by one.
//
// The fields are written in a fixed order, because encoding the equations
// reads some of them back: the mode decides where a pin leads, and on the
// GAL22V10 the tristate and polarity bits decide which pins are read negated.

/// The state of a GAL16V8 or GAL20V8 before its equations are encoded: the
/// signature, the mode, the tristate bits and the polarity bits are written.
/// Outside simple mode a combinatorial output is built as a tristate output.
pub open spec fn galxv8_staged(gal: GalView, blueprint: Blueprint) -> GalView {
    let mode = infer_mode(blueprint.olmcs@);
    with_xors(
        with_tristate(
            with_sig(gal, blueprint.sig@).with_mode(mode),
            blueprint.olmcs@,
            mode != Mode::Simple,
        ),
        blueprint.olmcs@,
    )
}

/// Why the design does not fit a GAL16V8 or GAL20V8, if it does not.
pub open spec fn galxv8_error(gal: GalView, blueprint: Blueprint) -> Option<Error> {
    first_of(
        first_some(disallowed_controls(blueprint.olmcs@), 0, blueprint.olmcs@.len() as int),
        core_error(gal.chip, infer_mode(blueprint.olmcs@), blueprint.olmcs@),
    )
}

/// The state of a GAL16V8 or GAL20V8 that holds the design.
pub open spec fn galxv8_built(gal: GalView, blueprint: Blueprint) -> GalView {
    with_pts(
        core_eqns(galxv8_staged(gal, blueprint), blueprint.olmcs@, blueprint.olmcs@.len() as int),
    )
}

/// Writes the design into the state of a GAL16V8 or GAL20V8.
pub fn build_galxv8(gal: &mut GAL, blueprint: &Blueprint) -> (done: Result<(), Error>)
    requires
        old(gal)@.wf(),
        old(gal).chip == blueprint.chip,
        blueprint.chip.has_modes(),
        blueprint.wf(),
    ensures
        match galxv8_error(old(gal)@, *blueprint) {
            Some(error) => done == Err::<(), Error>(error),
            None => {
                &&& done == Ok::<(), Error>(())
                &&& final(gal)@ == galxv8_built(old(gal)@, *blueprint)
            },
        },
        final(gal).chip == old(gal).chip,
        final(gal)@.wf(),
{
    match check_not_gal20ra10(blueprint) {
        Ok(()) => {},
        Err(error) => {
            return Err(error);
        },
    }
    set_sig(gal, blueprint);
    set_mode(gal, blueprint);
    let com_is_tri = match gal.get_mode() {
        Mode::Simple => false,
        _ => true,
    };
    set_tristate(gal, blueprint, com_is_tri);
    set_xors(gal, blueprint);
    match set_core_eqns(gal, blueprint) {
        Ok(()) => {},
        Err(error) => {
            return Err(error);
        },
    }
    set_pts(gal);
    Ok(())
}

/// The state of a GAL22V10 before its equations are encoded: the signature,
/// the tristate bits and the polarity bits are written. A combinatorial
/// output is always built as a tristate output.
pub open spec fn gal22v10_staged(gal: GalView, blueprint: Blueprint) -> GalView {
    with_xors(with_tristate(with_sig(gal, blueprint.sig@), blueprint.olmcs@, true), blueprint.olmcs@)
}

/// Why the design does not fit a GAL22V10, if it does not.
pub open spec fn gal22v10_error(gal: GalView, blueprint: Blueprint) -> Option<Error> {
    first_of(
        first_some(disallowed_controls(blueprint.olmcs@), 0, blueprint.olmcs@.len() as int),
        first_of(
            core_error(gal.chip, gal.mode(), blueprint.olmcs@),
            arsp_error(gal.mode(), blueprint.ar, blueprint.sp),
        ),
    )
}

/// The state of a GAL22V10 that holds the design.
pub open spec fn gal22v10_built(gal: GalView, blueprint: Blueprint) -> GalView {
    arsp_eqns(
        core_eqns(
            gal22v10_staged(gal, blueprint),
            blueprint.olmcs@,
            blueprint.olmcs@.len() as int,
        ),
        blueprint.ar,
        blueprint.sp,
    )
}

/// Writes the design into the state of a GAL22V10.
pub fn build_gal22v10(gal: &mut GAL, blueprint: &Blueprint) -> (done: Result<(), Error>)
    requires
        old(gal)@.wf(),
        old(gal).chip == Chip::GAL22V10,
        blueprint.chip == Chip::GAL22V10,
        blueprint.wf(),
    ensures
        match gal22v10_error(old(gal)@, *blueprint) {
            Some(error) => done == Err::<(), Error>(error),
            None => {
                &&& done == Ok::<(), Error>(())
                &&& final(gal)@ == gal22v10_built(old(gal)@, *blueprint)
            },
        },
        final(gal).chip == old(gal).chip,
        final(gal)@.wf(),
{
    match check_not_gal20ra10(blueprint) {
        Ok(()) => {},
        Err(error) => {
            return Err(error);
        },
    }
    set_sig(gal, blueprint);
    set_tristate(gal, blueprint, true);
    set_xors(gal, blueprint);
    match set_core_eqns(gal, blueprint) {
        Ok(()) => {},
        Err(error) => {
            return Err(error);
        },
    }
    set_arsp_eqns(gal, blueprint)
}

/// The state of a GAL20RA10 before its equations are encoded: the signature
/// and the polarity bits are written.
pub open spec fn gal20ra10_staged(gal: GalView, blueprint: Blueprint) -> GalView {
    with_xors(with_sig(gal, blueprint.sig@), blueprint.olmcs@)
}

/// Why the design does not fit a GAL20RA10, if it does not.
pub open spec fn gal20ra10_error(gal: GalView, blueprint: Blueprint) -> Option<Error> {
    first_of(
        core_error(gal.chip, gal.mode(), blueprint.olmcs@),
        aux_error(gal.mode(), blueprint.olmcs@),
    )
}

/// The state of a GAL20RA10 that holds the design.
pub open spec fn gal20ra10_built(gal: GalView, blueprint: Blueprint) -> GalView {
    aux_eqns(
        core_eqns(
            gal20ra10_staged(gal, blueprint),
            blueprint.olmcs@,
            blueprint.olmcs@.len() as int,
        ),
        blueprint.olmcs@,
        blueprint.olmcs@.len() as int,
    )
}

/// Writes the design into the state of a GAL20RA10.
pub fn build_gal20ra10(gal: &mut GAL, blueprint: &Blueprint) -> (done: Result<(), Error>)
    requires
        old(gal)@.wf(),
        old(gal).chip == Chip::GAL20RA10,
        blueprint.chip == Chip::GAL20RA10,
        blueprint.wf(),
    ensures
        match gal20ra10_error(old(gal)@, *blueprint) {
            Some(error) => done == Err::<(), Error>(error),
            None => {
                &&& done == Ok::<(), Error>(())
                &&& final(gal)@ == gal20ra10_built(old(gal)@, *blueprint)
            },
        },
        final(gal).chip == old(gal).chip,
        final(gal)@.wf(),
{
    set_sig(gal, blueprint);
    set_xors(gal, blueprint);
    match set_core_eqns(gal, blueprint) {
        Ok(()) => {},
        Err(error) => {
            return Err(error);
        },
    }
    set_aux_eqns(gal, blueprint)
}

////////////////////////////////////////////////////////////////////////
// Any chip.

/// Why the design does not fit its chip, if it does not.
pub open spec fn build_error(blueprint: Blueprint) -> Option<Error> {
    let blank = GalView::blank(blueprint.chip);
    match blueprint.chip {
        Chip::GAL16V8 | Chip::GAL20V8 => galxv8_error(blank, blueprint),
        Chip::GAL22V10 => gal22v10_error(blank, blueprint),
        Chip::GAL20RA10 => gal20ra10_error(blank, blueprint),
    }
}

/// The fuse state of the chip of the design that holds the design.
pub open spec fn build_state(blueprint: Blueprint) -> GalView {
    let blank = GalView::blank(blueprint.chip);
    match blueprint.chip {
        Chip::GAL16V8 | Chip::GAL20V8 => galxv8_built(blank, blueprint),
        Chip::GAL22V10 => gal22v10_built(blank, blueprint),
        Chip::GAL20RA10 => gal20ra10_built(blank, blueprint),
    }
}

/// Builds the fuse state of the chip of `blueprint` that holds the design,
/// or reports the first reason why the design does not fit the chip.
///
/// A design that fits its chip is built, and the state that is built is
/// [`design_state`]: every row of the logic array holds the product, or the
/// lack of one, that the design assigns to it. For a design that does not
/// fit, the diagnostic is that of the first step of the encoding that fails.
pub fn build(blueprint: &Blueprint) -> (built: Result<GAL, Error>)
    requires
        blueprint.wf(),
    ensures
        match built {
            Ok(gal) => {
                &&& design_fits(*blueprint)
                &&& gal@ == design_state(*blueprint)
                &&& gal@ == build_state(*blueprint)
                &&& gal@.wf()
            },
            Err(error) => {
                &&& !design_fits(*blueprint)
                &&& build_error(*blueprint) == Some(error)
            },
        },
{
    proof {
        lemma_build_accepts(*blueprint);
        if build_error(*blueprint) is None {
            lemma_build_state(*blueprint);
        }
    }
    let mut gal = GAL::new(blueprint.chip);
    match gal.chip {
        Chip::GAL16V8 | Chip::GAL20V8 => match build_galxv8(&mut gal, blueprint) {
            Ok(()) => {},
            Err(error) => {
                return Err(error);
            },
        },
        Chip::GAL22V10 => match build_gal22v10(&mut gal, blueprint) {
            Ok(()) => {},
            Err(error) => {
                return Err(error);
            },
        },
        Chip::GAL20RA10 => match build_gal20ra10(&mut gal, blueprint) {
            Ok(()) => {},
            Err(error) => {
                return Err(error);
            },
        },
    }
    Ok(gal)
}

} // verus!
