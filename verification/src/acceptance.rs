//! Which designs fit their chip.
//!
//! [`crate::gal_builder::build`] reports the first thing that is wrong with
//! a design. Here is what has to be right for it to report nothing.

use vstd::prelude::*;
use crate::blueprint::{Blueprint, PinMode, OLMC};
use crate::chips::Chip;
use crate::errors::{lemma_first_some_at, lemma_first_some_none, Error, ErrorCode};
use crate::gal::{lemma_term_fits, term_fits, term_or_false, GalView, Mode};
use crate::gal_builder::{
    ar_bounds, aux_step_error, aux_step_errors, build_error, core_error, core_step_error,
    core_step_errors, disallowed_control, disallowed_controls, infer_mode, olmc_main_bounds,
    sp_bounds, tristate_check,
};

verus! {

/// The mode in which the chip of the design reads its pins: the mode that
/// the design calls for on the chips with modes, and the mode of the
/// unprogrammed chip, which is of no account, on the others.
pub open spec fn design_mode(blueprint: Blueprint) -> Mode {
    if blueprint.chip.has_modes() {
        infer_mode(blueprint.olmcs@)
    } else {
        GalView::blank(blueprint.chip).mode()
    }
}

/// Whether what the design asks of `olmc`, the OLMC at position `i`, can be
/// had on `chip` in `mode`.
///
/// The main equation fits the rows of the block that are meant for it. A
/// tristate enable belongs to an output that can have one and fits one row.
/// Only the GAL20RA10 has control equations: they belong to a registered
/// output, which has to have a clock, and fit one row each.
pub open spec fn olmc_fits(chip: Chip, mode: Mode, olmc: OLMC, i: int) -> bool {
    &&& term_fits(chip, mode, olmc.main_term(), olmc_main_bounds(chip, mode, olmc, i))
    &&& olmc.tri_con matches Some(enable) ==> {
        &&& tristate_check(chip, olmc.kind()) is Ok
        &&& term_fits(chip, mode, enable@, chip.block_row(i, 0))
    }
    &&& if chip == Chip::GAL20RA10 {
        &&& olmc.has_control() ==> olmc.kind() == Some(PinMode::Registered)
        &&& olmc.kind() == Some(PinMode::Registered) ==> {
            &&& olmc.clock is Some
            &&& term_fits(chip, mode, term_or_false(olmc.arst), chip.block_row(i, 2))
            &&& term_fits(chip, mode, term_or_false(olmc.aprst), chip.block_row(i, 3))
        }
        &&& olmc.kind() is Some ==> term_fits(
            chip,
            mode,
            term_or_false(olmc.clock),
            chip.block_row(i, 1),
        )
    } else {
        !olmc.has_control()
    }
}

/// Whether the design fits its chip: every OLMC fits, and on the GAL22V10
/// the reset and the preset fit one row each.
pub open spec fn design_fits(blueprint: Blueprint) -> bool {
    let chip = blueprint.chip;
    let mode = design_mode(blueprint);
    &&& forall|i: int|
        0 <= i < blueprint.olmcs@.len() ==> #[trigger] olmc_fits(chip, mode, blueprint.olmcs@[i], i)
    &&& chip == Chip::GAL22V10 ==> {
        &&& term_fits(chip, mode, term_or_false(blueprint.ar), ar_bounds())
        &&& term_fits(chip, mode, term_or_false(blueprint.sp), sp_bounds())
    }
}

/// The steps that encode an OLMC report nothing exactly if the OLMC fits.
proof fn lemma_olmc_fits(chip: Chip, mode: Mode, olmc: OLMC, i: int)
    ensures
        olmc_fits(chip, mode, olmc, i) <==> {
            &&& chip != Chip::GAL20RA10 ==> disallowed_control(olmc) is None
            &&& core_step_error(chip, mode, olmc, i) is None
            &&& chip == Chip::GAL20RA10 ==> aux_step_error(mode, olmc, i) is None
        },
{
    lemma_term_fits(chip, mode, olmc.main_term(), olmc_main_bounds(chip, mode, olmc, i));
    lemma_term_fits(chip, mode, term_or_false(olmc.tri_con), chip.block_row(i, 0));
    lemma_term_fits(chip, mode, term_or_false(olmc.clock), chip.block_row(i, 1));
    lemma_term_fits(chip, mode, term_or_false(olmc.arst), chip.block_row(i, 2));
    lemma_term_fits(chip, mode, term_or_false(olmc.aprst), chip.block_row(i, 3));
}

/// A design is built without diagnostic exactly if it fits its chip.
pub proof fn lemma_build_accepts(blueprint: Blueprint)
    ensures
        build_error(blueprint) is None <==> design_fits(blueprint),
{
    let chip = blueprint.chip;
    let mode = design_mode(blueprint);
    let olmcs = blueprint.olmcs@;
    let n = olmcs.len() as int;
    lemma_first_some_none(disallowed_controls(olmcs), 0, n);
    lemma_first_some_none(core_step_errors(chip, mode, olmcs), 0, n);
    lemma_first_some_none(aux_step_errors(mode, olmcs), 0, n);
    lemma_term_fits(chip, mode, term_or_false(blueprint.ar), ar_bounds());
    lemma_term_fits(chip, mode, term_or_false(blueprint.sp), sp_bounds());
    if build_error(blueprint) is None {
        assert forall|i: int| 0 <= i < n implies #[trigger] olmc_fits(chip, mode, olmcs[i], i) by {
            lemma_olmc_fits(chip, mode, olmcs[i], i);
            assert(chip != Chip::GAL20RA10 ==> disallowed_controls(olmcs)(i) is None);
            assert(core_step_errors(chip, mode, olmcs)(i) is None);
            assert(chip == Chip::GAL20RA10 ==> aux_step_errors(mode, olmcs)(i) is None);
        }
    }
    if design_fits(blueprint) {
        assert forall|i: int| 0 <= i < n implies #[trigger] core_step_errors(chip, mode, olmcs)(
            i,
        ) is None by {
            assert(olmc_fits(chip, mode, olmcs[i], i));
            lemma_olmc_fits(chip, mode, olmcs[i], i);
        }
        if chip == Chip::GAL20RA10 {
            assert forall|i: int| 0 <= i < n implies #[trigger] aux_step_errors(mode, olmcs)(
                i,
            ) is None by {
                assert(olmc_fits(chip, mode, olmcs[i], i));
                lemma_olmc_fits(chip, mode, olmcs[i], i);
            }
        } else {
            assert forall|i: int| 0 <= i < n implies #[trigger] disallowed_controls(olmcs)(
                i,
            ) is None by {
                assert(olmc_fits(chip, mode, olmcs[i], i));
                lemma_olmc_fits(chip, mode, olmcs[i], i);
            }
        }
    }
}

/// A tristate enable on a combinatorial output is reported as unmatched,
/// at the line of the enable, on every chip, provided that nothing is
/// reported before: the design has no control equation that the chip has no
/// line for, the OLMCs before fit, and the main equation of the output fits.
pub proof fn lemma_unmatched_tristate(blueprint: Blueprint, i: int)
    requires
        0 <= i < blueprint.olmcs@.len(),
        blueprint.olmcs@[i].tri_con is Some,
        blueprint.olmcs@[i].kind() == Some(PinMode::Combinatorial),
        blueprint.chip != Chip::GAL20RA10 ==> forall|j: int|
            0 <= j < blueprint.olmcs@.len() ==> !(#[trigger] blueprint.olmcs@[j]).has_control(),
        forall|j: int|
            0 <= j < i ==> #[trigger] core_step_error(
                blueprint.chip,
                design_mode(blueprint),
                blueprint.olmcs@[j],
                j,
            ) is None,
        term_fits(
            blueprint.chip,
            design_mode(blueprint),
            blueprint.olmcs@[i].main_term(),
            olmc_main_bounds(blueprint.chip, design_mode(blueprint), blueprint.olmcs@[i], i),
        ),
    ensures
        build_error(blueprint) == Some(
            Error {
                code: ErrorCode::UnmatchedTristate,
                line: term_or_false(blueprint.olmcs@[i].tri_con).line_num,
            },
        ),
{
    let chip = blueprint.chip;
    let mode = design_mode(blueprint);
    let olmcs = blueprint.olmcs@;
    let n = olmcs.len() as int;
    let steps = core_step_errors(chip, mode, olmcs);
    lemma_term_fits(chip, mode, olmcs[i].main_term(), olmc_main_bounds(chip, mode, olmcs[i], i));
    assert forall|j: int| 0 <= j < i implies #[trigger] steps(j) is None by {
        assert(core_step_error(chip, mode, olmcs[j], j) is None);
    }
    lemma_first_some_at(steps, 0, n, i);
    if chip != Chip::GAL20RA10 {
        lemma_first_some_none(disallowed_controls(olmcs), 0, n);
        assert forall|j: int| 0 <= j < n implies #[trigger] disallowed_controls(olmcs)(
            j,
        ) is None by {
            assert(!olmcs[j].has_control());
        }
    }
}

/// A registered output without clock on the GAL20RA10 is reported as such,
/// at the line of its main equation, provided that nothing is reported
/// before: the main equations and tristate enables fit, the control equations
/// of the OLMCs before fit, and the reset and preset of the output fit.
pub proof fn lemma_missing_clock(blueprint: Blueprint, i: int)
    requires
        blueprint.chip == Chip::GAL20RA10,
        0 <= i < blueprint.olmcs@.len(),
        blueprint.olmcs@[i].kind() == Some(PinMode::Registered),
        blueprint.olmcs@[i].clock is None,
        core_error(blueprint.chip, design_mode(blueprint), blueprint.olmcs@) is None,
        forall|j: int|
            0 <= j < i ==> #[trigger] aux_step_error(
                design_mode(blueprint),
                blueprint.olmcs@[j],
                j,
            ) is None,
        term_fits(
            blueprint.chip,
            design_mode(blueprint),
            term_or_false(blueprint.olmcs@[i].arst),
            blueprint.chip.block_row(i, 2),
        ),
        term_fits(
            blueprint.chip,
            design_mode(blueprint),
            term_or_false(blueprint.olmcs@[i].aprst),
            blueprint.chip.block_row(i, 3),
        ),
    ensures
        build_error(blueprint) == Some(
            Error { code: ErrorCode::NoCLK, line: blueprint.olmcs@[i].main_term().line_num },
        ),
{
    let chip = blueprint.chip;
    let mode = design_mode(blueprint);
    let olmcs = blueprint.olmcs@;
    let n = olmcs.len() as int;
    let steps = aux_step_errors(mode, olmcs);
    lemma_term_fits(chip, mode, term_or_false(olmcs[i].arst), chip.block_row(i, 2));
    lemma_term_fits(chip, mode, term_or_false(olmcs[i].aprst), chip.block_row(i, 3));
    assert forall|j: int| 0 <= j < i implies #[trigger] steps(j) is None by {
        assert(aux_step_error(mode, olmcs[j], j) is None);
    }
    lemma_first_some_at(steps, 0, n, i);
}

} // verus!
