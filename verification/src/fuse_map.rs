//! What the rows of a built logic array hold.
//!
//! [`crate::gal_builder::build`] encodes one equation after the other. Every
//! equation has rows of its own, so the outcome can be told row by row: a
//! row holds one product of one equation, or it is blown, or it is left
//! intact.

use vstd::prelude::*;
use crate::acceptance::{design_mode, lemma_build_accepts, olmc_fits};
use crate::blueprint::{Active, Blueprint, PinMode, OLMC};
use crate::chips::{lemma_blocks_apart, lemma_olmc_start, lemma_row_owner, Chip};
use crate::errors::lemma_first_some_none;
use crate::columns::lemma_pin_column_total;
use crate::gal::{
    lemma_fuse_at, lemma_reads_like, lemma_row_in_array, lemma_row_of_fuse, lemma_term_fits,
    lemma_with_term_at, pins_lead_in, term_or_false, term_row, GalView, Mode, Pin, RowUse,
    TermView,
};
use crate::gal_builder::{
    ar_bounds, arsp_eqns, aux_eqns, aux_step, aux_step_errors, build_error, build_state,
    core_eqns, core_step, core_step_errors, gal20ra10_staged, gal22v10_staged, galxv8_staged,
    infer_mode, main_bounds, olmc_main_bounds, sp_bounds, with_sig, with_tristate, with_xors,
};

verus! {

////////////////////////////////////////////////////////////////////////
// One equation after the other.

/// Whether encoding the main equation and the tristate enable of `olmc`,
/// the OLMC at position `i`, spares the fuse in row `row` and column `col`.
pub open spec fn core_spares(gal: GalView, olmc: OLMC, i: int, row: int, col: int) -> bool {
    &&& gal.spares(olmc.main_term(), olmc_main_bounds(gal.chip, gal.mode(), olmc, i), row, col)
    &&& olmc.tri_con matches Some(term) ==> gal.spares(term@, gal.chip.block_row(i, 0), row, col)
}

/// Whether encoding the control equations of `olmc`, the OLMC at position
/// `i`, spares the fuse in row `row` and column `col`.
pub open spec fn aux_spares(gal: GalView, olmc: OLMC, i: int, row: int, col: int) -> bool {
    &&& olmc.kind() == Some(PinMode::Registered) ==> {
        &&& gal.spares(term_or_false(olmc.arst), gal.chip.block_row(i, 2), row, col)
        &&& gal.spares(term_or_false(olmc.aprst), gal.chip.block_row(i, 3), row, col)
    }
    &&& olmc.kind() is Some ==> gal.spares(
        term_or_false(olmc.clock),
        gal.chip.block_row(i, 1),
        row,
        col,
    )
}

/// States that read every pin alike spare the same fuses.
proof fn lemma_spares_alike(gal: GalView, other: GalView, olmc: OLMC, i: int, row: int, col: int)
    requires
        gal.reads_like(other),
    ensures
        core_spares(gal, olmc, i, row, col) == core_spares(other, olmc, i, row, col),
        aux_spares(gal, olmc, i, row, col) == aux_spares(other, olmc, i, row, col),
{
    let chip = gal.chip;
    let main = olmc_main_bounds(chip, gal.mode(), olmc, i);
    lemma_reads_like(
        gal,
        other,
        term_row(olmc.main_term(), row - (main.start_row + main.row_offset)),
        col,
    );
    lemma_reads_like(gal, other, term_row(term_or_false(olmc.tri_con), row - chip.block_row(i, 0).start_row), col);
    lemma_reads_like(gal, other, term_row(term_or_false(olmc.clock), row - (chip.block_row(i, 1).start_row + 1)), col);
    lemma_reads_like(gal, other, term_row(term_or_false(olmc.arst), row - (chip.block_row(i, 2).start_row + 2)), col);
    lemma_reads_like(gal, other, term_row(term_or_false(olmc.aprst), row - (chip.block_row(i, 3).start_row + 3)), col);
}

/// Encoding the main equation and the tristate enable of an OLMC blows the
/// fuses that it does not spare and no other.
proof fn lemma_core_step_at(gal: GalView, olmc: OLMC, i: int, row: int, col: int)
    requires
        gal.wf(),
        0 <= row < gal.chip.num_rows(),
        0 <= col < gal.chip.num_cols(),
    ensures
        core_step(gal, olmc, i).fuse(row, col) == (gal.fuse(row, col) && core_spares(
            gal,
            olmc,
            i,
            row,
            col,
        )),
        core_step(gal, olmc, i).wf(),
        core_step(gal, olmc, i).reads_like(gal),
{
    let bounds = olmc_main_bounds(gal.chip, gal.mode(), olmc, i);
    let main = gal.with_term(olmc.main_term(), bounds);
    lemma_with_term_at(gal, olmc.main_term(), bounds, row, col);
    if let Some(term) = olmc.tri_con {
        let enable = gal.chip.block_row(i, 0);
        lemma_with_term_at(main, term@, enable, row, col);
        lemma_reads_like(main, gal, term_row(term@, row - enable.start_row), col);
    }
}

/// Encoding the main equations and the tristate enables of the first `n`
/// OLMCs blows the fuses that one of them does not spare and no other.
pub proof fn lemma_core_eqns_at(gal: GalView, olmcs: Seq<OLMC>, n: int, row: int, col: int)
    requires
        gal.wf(),
        0 <= n <= olmcs.len(),
        0 <= row < gal.chip.num_rows(),
        0 <= col < gal.chip.num_cols(),
    ensures
        core_eqns(gal, olmcs, n).fuse(row, col) == (gal.fuse(row, col) && forall|i: int|
            0 <= i < n ==> #[trigger] core_spares(gal, olmcs[i], i, row, col)),
        core_eqns(gal, olmcs, n).wf(),
        core_eqns(gal, olmcs, n).reads_like(gal),
    decreases n,
{
    if n > 0 {
        let before = core_eqns(gal, olmcs, n - 1);
        lemma_core_eqns_at(gal, olmcs, n - 1, row, col);
        lemma_core_step_at(before, olmcs[n - 1], n - 1, row, col);
        lemma_spares_alike(before, gal, olmcs[n - 1], n - 1, row, col);
        if gal.fuse(row, col) && forall|i: int|
            0 <= i < n - 1 ==> #[trigger] core_spares(gal, olmcs[i], i, row, col) {
            if core_spares(gal, olmcs[n - 1], n - 1, row, col) {
                assert forall|i: int| 0 <= i < n implies #[trigger] core_spares(
                    gal,
                    olmcs[i],
                    i,
                    row,
                    col,
                ) by {}
            }
        }
    }
}

/// Encoding the control equations of an OLMC blows the fuses that it does
/// not spare and no other.
proof fn lemma_aux_step_at(gal: GalView, olmc: OLMC, i: int, row: int, col: int)
    requires
        gal.wf(),
        0 <= row < gal.chip.num_rows(),
        0 <= col < gal.chip.num_cols(),
    ensures
        aux_step(gal, olmc, i).fuse(row, col) == (gal.fuse(row, col) && aux_spares(
            gal,
            olmc,
            i,
            row,
            col,
        )),
        aux_step(gal, olmc, i).wf(),
        aux_step(gal, olmc, i).reads_like(gal),
{
    let chip = gal.chip;
    let arst = term_or_false(olmc.arst);
    let aprst = term_or_false(olmc.aprst);
    let clock = term_or_false(olmc.clock);
    let flip_flop = if olmc.kind() == Some(PinMode::Registered) {
        let reset = gal.with_term(arst, chip.block_row(i, 2));
        lemma_with_term_at(gal, arst, chip.block_row(i, 2), row, col);
        lemma_with_term_at(reset, aprst, chip.block_row(i, 3), row, col);
        lemma_reads_like(
            reset,
            gal,
            term_row(aprst, row - (chip.block_row(i, 3).start_row + 3)),
            col,
        );
        reset.with_term(aprst, chip.block_row(i, 3))
    } else {
        gal
    };
    if olmc.kind() is Some {
        lemma_with_term_at(flip_flop, clock, chip.block_row(i, 1), row, col);
        lemma_reads_like(
            flip_flop,
            gal,
            term_row(clock, row - (chip.block_row(i, 1).start_row + 1)),
            col,
        );
    }
}

/// Encoding the control equations of the first `n` OLMCs blows the fuses
/// that one of them does not spare and no other.
pub proof fn lemma_aux_eqns_at(gal: GalView, olmcs: Seq<OLMC>, n: int, row: int, col: int)
    requires
        gal.wf(),
        0 <= n <= olmcs.len(),
        0 <= row < gal.chip.num_rows(),
        0 <= col < gal.chip.num_cols(),
    ensures
        aux_eqns(gal, olmcs, n).fuse(row, col) == (gal.fuse(row, col) && forall|i: int|
            0 <= i < n ==> #[trigger] aux_spares(gal, olmcs[i], i, row, col)),
        aux_eqns(gal, olmcs, n).wf(),
        aux_eqns(gal, olmcs, n).reads_like(gal),
    decreases n,
{
    if n > 0 {
        let before = aux_eqns(gal, olmcs, n - 1);
        lemma_aux_eqns_at(gal, olmcs, n - 1, row, col);
        lemma_aux_step_at(before, olmcs[n - 1], n - 1, row, col);
        lemma_spares_alike(before, gal, olmcs[n - 1], n - 1, row, col);
        if gal.fuse(row, col) && forall|i: int|
            0 <= i < n - 1 ==> #[trigger] aux_spares(gal, olmcs[i], i, row, col) {
            if aux_spares(gal, olmcs[n - 1], n - 1, row, col) {
                assert forall|i: int| 0 <= i < n implies #[trigger] aux_spares(
                    gal,
                    olmcs[i],
                    i,
                    row,
                    col,
                ) by {}
            }
        }
    }
}

////////////////////////////////////////////////////////////////////////
// Row by row.

/// The first row of its block that the main equation of an output driven as
/// `kind` may use.
pub open spec fn first_main_row(chip: Chip, mode: Mode, kind: PinMode) -> int {
    main_bounds(chip, mode, Some(kind), chip.block(0)).row_offset as int
}

/// What row `k` of the block of `olmc` holds once a design that fits the
/// chip is built.
///
/// The block of a pin without output is blown. Else the main equation
/// fills the rows from [`first_main_row`] on, and the rows that it does not
/// need are blown. Of the rows before, the first holds the tristate enable
/// and is left intact where there is none. On the GAL20RA10 the second holds
/// the clock, and the third and fourth hold the reset and the preset of a
/// registered output; a control equation that is not given is false.
pub open spec fn block_row_use(chip: Chip, mode: Mode, olmc: OLMC, k: int) -> RowUse {
    match olmc.output {
        None => RowUse::Blown,
        Some((kind, term)) => {
            if k >= first_main_row(chip, mode, kind) {
                term_row(term@, k - first_main_row(chip, mode, kind))
            } else if k == 0 {
                match olmc.tri_con {
                    Some(enable) => term_row(enable@, 0),
                    None => RowUse::Intact,
                }
            } else if k == 1 {
                term_row(term_or_false(olmc.clock), 0)
            } else if kind == PinMode::Registered {
                term_row(
                    term_or_false(
                        if k == 2 {
                            olmc.arst
                        } else {
                            olmc.aprst
                        },
                    ),
                    0,
                )
            } else {
                RowUse::Intact
            }
        },
    }
}

/// The equations of an OLMC spare every row outside the block of the OLMC.
proof fn lemma_foreign_row(gal: GalView, olmc: OLMC, i: int, row: int, col: int)
    requires
        0 <= i < gal.chip.num_olmcs(),
        !(gal.chip.olmc_start(i) <= row < gal.chip.olmc_start(i) + gal.chip.olmc_rows(i)),
    ensures
        core_spares(gal, olmc, i, row, col),
        aux_spares(gal, olmc, i, row, col),
{
    lemma_olmc_start(gal.chip, i);
}

/// The equations of an OLMC leave in row `k` of its block what
/// [`block_row_use`] says, provided that the OLMC has a tristate enable only
/// where its main equation leaves the first row free.
proof fn lemma_own_row(gal: GalView, olmc: OLMC, i: int, k: int, col: int)
    requires
        0 <= i < gal.chip.num_olmcs(),
        0 <= k < gal.chip.olmc_rows(i),
        olmc.tri_con is Some ==> (olmc.output matches Some((kind, _)) && first_main_row(
            gal.chip,
            gal.mode(),
            kind,
        ) >= 1),
    ensures
        gal.chip != Chip::GAL20RA10 ==> core_spares(
            gal,
            olmc,
            i,
            gal.chip.olmc_start(i) + k,
            col,
        ) == gal.row_fuse(block_row_use(gal.chip, gal.mode(), olmc, k), col),
        gal.chip == Chip::GAL20RA10 ==> (core_spares(gal, olmc, i, gal.chip.olmc_start(i) + k, col)
            && aux_spares(gal, olmc, i, gal.chip.olmc_start(i) + k, col)) == gal.row_fuse(
            block_row_use(gal.chip, gal.mode(), olmc, k),
            col,
        ),
{
    lemma_olmc_start(gal.chip, i);
}

/// The state of the chip of `blueprint` before its equations are encoded.
pub open spec fn staged_state(blueprint: Blueprint) -> GalView {
    let blank = GalView::blank(blueprint.chip);
    match blueprint.chip {
        Chip::GAL16V8 | Chip::GAL20V8 => galxv8_staged(blank, blueprint),
        Chip::GAL22V10 => gal22v10_staged(blank, blueprint),
        Chip::GAL20RA10 => gal20ra10_staged(blank, blueprint),
    }
}

/// Before the equations are encoded every fuse of the logic array is intact.
proof fn lemma_staged(blueprint: Blueprint, row: int, col: int)
    requires
        blueprint.wf(),
        0 <= row < blueprint.chip.num_rows(),
        0 <= col < blueprint.chip.num_cols(),
    ensures
        staged_state(blueprint).wf(),
        staged_state(blueprint).chip == blueprint.chip,
        staged_state(blueprint).fuse(row, col),
        blueprint.chip.has_modes() ==> staged_state(blueprint).mode() == infer_mode(
            blueprint.olmcs@,
        ),
        build_state(blueprint).reads_like(staged_state(blueprint)) ==> build_state(
            blueprint,
        ).mode() == staged_state(blueprint).mode(),
{
    lemma_fuse_at(blueprint.chip, row, col);
}

/// Once a design that fits its chip is built, row `k` of the block of OLMC
/// `i` holds what [`block_row_use`] says, and nothing else.
pub proof fn lemma_built_block(blueprint: Blueprint, i: int, k: int, col: int)
    requires
        blueprint.wf(),
        build_error(blueprint) is None,
        0 <= i < blueprint.olmcs@.len(),
        0 <= k < blueprint.chip.olmc_rows(i),
        0 <= col < blueprint.chip.num_cols(),
    ensures
        ({
            let built = build_state(blueprint);
            built.fuse(blueprint.chip.olmc_start(i) + k, col) == built.row_fuse(
                block_row_use(blueprint.chip, built.mode(), blueprint.olmcs@[i], k),
                col,
            )
        }),
{
    let chip = blueprint.chip;
    let olmcs = blueprint.olmcs@;
    let n = olmcs.len() as int;
    let row = chip.olmc_start(i) + k;
    let staged = staged_state(blueprint);
    let mode = staged.mode();
    let core = core_eqns(staged, olmcs, n);
    let built = build_state(blueprint);
    let content = block_row_use(chip, mode, olmcs[i], k);
    lemma_olmc_start(chip, i);
    lemma_staged(blueprint, row, col);
    lemma_core_eqns_at(staged, olmcs, n, row, col);
    lemma_first_some_none(core_step_errors(chip, mode, olmcs), 0, n);
    assert(core_step_errors(chip, mode, olmcs)(i) is None);
    if chip.has_modes() && mode == Mode::Simple {
        assert(olmcs[i].kind() != Some(PinMode::Tristate));
    }
    lemma_own_row(staged, olmcs[i], i, k, col);
    assert forall|j: int| 0 <= j < n && j != i implies #[trigger] core_spares(
        staged,
        olmcs[j],
        j,
        row,
        col,
    ) by {
        if j < i {
            lemma_blocks_apart(chip, j, i);
        } else {
            lemma_blocks_apart(chip, i, j);
        }
        lemma_foreign_row(staged, olmcs[j], j, row, col);
    }
    assert forall|j: int| 0 <= j < n && j != i implies #[trigger] aux_spares(
        core,
        olmcs[j],
        j,
        row,
        col,
    ) by {
        if j < i {
            lemma_blocks_apart(chip, j, i);
        } else {
            lemma_blocks_apart(chip, i, j);
        }
        lemma_foreign_row(core, olmcs[j], j, row, col);
    }
    assert(core.fuse(row, col) == core_spares(staged, olmcs[i], i, row, col));
    match chip {
        Chip::GAL16V8 | Chip::GAL20V8 => {
            assert(built.fuse(row, col) == core.fuse(row, col));
            assert(built.reads_like(staged));
        },
        Chip::GAL22V10 => {
            lemma_with_term_at(core, term_or_false(blueprint.ar), ar_bounds(), row, col);
            lemma_with_term_at(
                core.with_term(term_or_false(blueprint.ar), ar_bounds()),
                term_or_false(blueprint.sp),
                sp_bounds(),
                row,
                col,
            );
            assert(built == arsp_eqns(core, blueprint.ar, blueprint.sp));
            assert(built.fuse(row, col) == core.fuse(row, col));
            assert(built.reads_like(staged));
        },
        Chip::GAL20RA10 => {
            lemma_aux_eqns_at(core, olmcs, n, row, col);
            lemma_spares_alike(core, staged, olmcs[i], i, row, col);
            assert(built == aux_eqns(core, olmcs, n));
            assert(built.fuse(row, col) == (core.fuse(row, col) && aux_spares(
                core,
                olmcs[i],
                i,
                row,
                col,
            )));
            assert(built.reads_like(staged));
        },
    }
    lemma_reads_like(built, staged, content, col);
}

/// Once a design that fits a GAL22V10 is built, the first row holds the
/// reset and the last row the preset; one that is not given is false.
pub proof fn lemma_built_reset_and_preset(blueprint: Blueprint, col: int)
    requires
        blueprint.wf(),
        blueprint.chip == Chip::GAL22V10,
        build_error(blueprint) is None,
        0 <= col < blueprint.chip.num_cols(),
    ensures
        ({
            let built = build_state(blueprint);
            &&& built.fuse(0, col) == built.row_fuse(term_row(term_or_false(blueprint.ar), 0), col)
            &&& built.fuse(131, col) == built.row_fuse(
                term_row(term_or_false(blueprint.sp), 0),
                col,
            )
        }),
{
    let chip = blueprint.chip;
    let olmcs = blueprint.olmcs@;
    let n = olmcs.len() as int;
    let staged = staged_state(blueprint);
    let core = core_eqns(staged, olmcs, n);
    let reset = core.with_term(term_or_false(blueprint.ar), ar_bounds());
    let built = build_state(blueprint);
    assert(built == arsp_eqns(core, blueprint.ar, blueprint.sp));
    lemma_global_row(blueprint, 0, col);
    lemma_global_row(blueprint, 131, col);
    lemma_with_term_at(core, term_or_false(blueprint.ar), ar_bounds(), 0, col);
    lemma_with_term_at(reset, term_or_false(blueprint.sp), sp_bounds(), 0, col);
    lemma_with_term_at(core, term_or_false(blueprint.ar), ar_bounds(), 131, col);
    lemma_with_term_at(reset, term_or_false(blueprint.sp), sp_bounds(), 131, col);
    lemma_reads_like(built, core, term_row(term_or_false(blueprint.ar), 0), col);
    lemma_reads_like(built, reset, term_row(term_or_false(blueprint.sp), 0), col);
}

/// The main equations and tristate enables leave the rows outside all
/// blocks intact.
proof fn lemma_global_row(blueprint: Blueprint, row: int, col: int)
    requires
        blueprint.wf(),
        blueprint.chip == Chip::GAL22V10,
        row == 0 || row == 131,
        0 <= col < blueprint.chip.num_cols(),
    ensures
        core_eqns(staged_state(blueprint), blueprint.olmcs@, blueprint.olmcs@.len() as int).fuse(
            row,
            col,
        ),
        core_eqns(staged_state(blueprint), blueprint.olmcs@, blueprint.olmcs@.len() as int).wf(),
        core_eqns(
            staged_state(blueprint),
            blueprint.olmcs@,
            blueprint.olmcs@.len() as int,
        ).chip == blueprint.chip,
{
    let olmcs = blueprint.olmcs@;
    let n = olmcs.len() as int;
    let staged = staged_state(blueprint);
    lemma_staged(blueprint, row, col);
    lemma_core_eqns_at(staged, olmcs, n, row, col);
    assert forall|j: int| 0 <= j < n implies #[trigger] core_spares(
        staged,
        olmcs[j],
        j,
        row,
        col,
    ) by {
        lemma_olmc_start(blueprint.chip, j);
        lemma_foreign_row(staged, olmcs[j], j, row, col);
    }
}

/// Once a design that fits its chip is built, the fields besides the logic
/// array hold what the design calls for: the signature; on the chips with
/// modes the mode; the polarity bit of every OLMC; and, but on the GAL20RA10,
/// the tristate bit of every OLMC. What the design does not reach stays as
/// on an unprogrammed chip.
pub proof fn lemma_built_fields(blueprint: Blueprint)
    requires
        blueprint.wf(),
    ensures
        ({
            let built = build_state(blueprint);
            let olmcs = blueprint.olmcs@;
            let blank = GalView::blank(blueprint.chip);
            &&& built.wf()
            &&& built.chip == blueprint.chip
            &&& built.sig == with_sig(blank, blueprint.sig@).sig
            &&& built.pt == blank.pt
            &&& built.xor == with_xors(blank, olmcs).xor
            &&& if blueprint.chip.has_modes() {
                &&& built.mode() == infer_mode(olmcs)
                &&& built.mode_set()
                &&& built.ac1 == with_tristate(blank, olmcs, infer_mode(olmcs) != Mode::Simple).ac1
            } else {
                &&& !built.syn
                &&& !built.ac0
                &&& built.ac1 == if blueprint.chip == Chip::GAL22V10 {
                    with_tristate(blank, olmcs, true).ac1
                } else {
                    blank.ac1
                }
            }
        }),
{
    let chip = blueprint.chip;
    let olmcs = blueprint.olmcs@;
    let n = olmcs.len() as int;
    let staged = staged_state(blueprint);
    let core = core_eqns(staged, olmcs, n);
    lemma_staged(blueprint, 0, 0);
    lemma_core_eqns_at(staged, olmcs, n, 0, 0);
    lemma_frame(staged, olmcs, n);
    match chip {
        Chip::GAL16V8 | Chip::GAL20V8 => {
            assert(build_state(blueprint).pt =~= GalView::blank(chip).pt);
        },
        Chip::GAL22V10 => {},
        Chip::GAL20RA10 => {
            lemma_aux_eqns_at(core, olmcs, n, 0, 0);
            lemma_frame(core, olmcs, n);
        },
    }
}

/// Encoding equations changes the logic array and nothing else.
proof fn lemma_frame(gal: GalView, olmcs: Seq<OLMC>, n: int)
    ensures
        core_eqns(gal, olmcs, n) == gal.with_fuses(core_eqns(gal, olmcs, n).fuses),
        aux_eqns(gal, olmcs, n) == gal.with_fuses(aux_eqns(gal, olmcs, n).fuses),
    decreases n,
{
    if n > 0 {
        lemma_frame(gal, olmcs, n - 1);
    }
}

/// The OLMC in whose block row `row` lies.
pub open spec fn row_owner(chip: Chip, row: int) -> int {
    choose|i: int| #[trigger] chip.owns_row(i, row)
}

/// What row `row` of the logic array holds once a design that fits its chip
/// is built: on the GAL22V10 the first row holds the reset and the last row
/// the preset, and every other row holds what [`block_row_use`] says of its
/// place in the block of its OLMC.
pub open spec fn row_use(blueprint: Blueprint, row: int) -> RowUse {
    let chip = blueprint.chip;
    if chip == Chip::GAL22V10 && row == 0 {
        term_row(term_or_false(blueprint.ar), 0)
    } else if chip == Chip::GAL22V10 && row == 131 {
        term_row(term_or_false(blueprint.sp), 0)
    } else {
        let i = row_owner(chip, row);
        block_row_use(chip, design_mode(blueprint), blueprint.olmcs@[i], row - chip.olmc_start(i))
    }
}

/// The fuse state that holds a design that fits its chip.
///
/// The fields besides the logic array are those of [`staged_state`]: the
/// signature, the mode, the tristate bits and the polarity bits are as the
/// design calls for, as far as the chip has a use for them, and the rest is
/// as on an unprogrammed chip. Every row of the logic array holds what
/// [`row_use`] says and nothing else.
pub open spec fn design_state(blueprint: Blueprint) -> GalView {
    let staged = staged_state(blueprint);
    let cols = blueprint.chip.num_cols() as int;
    staged.with_fuses(
        Seq::new(
            staged.fuses.len(),
            |idx: int| staged.row_fuse(row_use(blueprint, idx / cols), idx % cols),
        ),
    )
}

/// What [`crate::gal_builder::build`] builds, one equation after the other,
/// is the state that holds the design.
pub proof fn lemma_build_state(blueprint: Blueprint)
    requires
        blueprint.wf(),
        build_error(blueprint) is None,
    ensures
        build_state(blueprint) == design_state(blueprint),
        design_state(blueprint).wf(),
{
    let chip = blueprint.chip;
    let cols = chip.num_cols() as int;
    let staged = staged_state(blueprint);
    let built = build_state(blueprint);
    let design = design_state(blueprint);
    lemma_built_fields(blueprint);
    lemma_staged(blueprint, 0, 0);
    assert(built.sig =~= design.sig);
    assert(built.pt =~= design.pt);
    assert(built.xor =~= design.xor);
    assert(built.ac1 =~= design.ac1);
    assert forall|idx: int| 0 <= idx < built.fuses.len() implies #[trigger] built.fuses[idx]
        == design.fuses[idx] by {
        let row = idx / cols;
        let col = idx % cols;
        lemma_row_of_fuse(chip, idx, 0, chip.num_rows() as int);
        lemma_row_in_array(chip, 0);
        assert(built.fuses[idx] == built.fuse(row, col));
        lemma_reads_like(built, staged, row_use(blueprint, row), col);
        if chip == Chip::GAL22V10 && (row == 0 || row == 131) {
            lemma_built_reset_and_preset(blueprint, col);
        } else {
            let witness = lemma_row_owner(chip, row);
            assert(chip.owns_row(witness, row));
            let owner = row_owner(chip, row);
            lemma_built_block(blueprint, owner, row - chip.olmc_start(owner), col);
        }
    }
    assert(built.fuses =~= design.fuses);
}

/// On a GAL22V10 that holds a design, the pins that are read negated are
/// the pins of the registered outputs that are active high.
pub proof fn lemma_flip_follows_design(blueprint: Blueprint, i: int)
    requires
        blueprint.wf(),
        blueprint.chip == Chip::GAL22V10,
        0 <= i < blueprint.olmcs@.len(),
    ensures
        build_state(blueprint).needs_flip((14 + i) as usize) == (blueprint.olmcs@[i].kind() == Some(
            PinMode::Registered,
        ) && blueprint.olmcs@[i].active == Active::High),
{
    lemma_built_fields(blueprint);
}

////////////////////////////////////////////////////////////////////////
// What a row means.
//
// The columns come in pairs, one pair per input of the array: the first
// column of a pair carries the input and the second its complement. A row is
// true when every column whose fuse is blown is.

/// Whether column `col` is true when the inputs of the array are `inputs`.
pub open spec fn column_holds(inputs: spec_fn(int) -> bool, col: int) -> bool {
    inputs(col / 2) != (col % 2 == 1)
}

/// Whether row `row` is true when the inputs of the array are `inputs`.
pub open spec fn row_holds(gal: GalView, row: int, inputs: spec_fn(int) -> bool) -> bool {
    forall|col: int|
        0 <= col < gal.chip.num_cols() && !gal.fuse(row, col) ==> #[trigger] column_holds(
            inputs,
            col,
        )
}

/// Whether every input of the product `pins` is true when the inputs of the
/// array are `inputs`.
pub open spec fn product_holds(gal: GalView, pins: Seq<Pin>, inputs: spec_fn(int) -> bool) -> bool {
    forall|j: int| 0 <= j < pins.len() ==> column_holds(inputs, #[trigger] gal.fuse_column(pins[j]))
}

/// Whether `content` is true when the inputs of the array are `inputs`.
pub open spec fn content_holds(gal: GalView, content: RowUse, inputs: spec_fn(int) -> bool) -> bool {
    match content {
        RowUse::Intact => true,
        RowUse::Blown => false,
        RowUse::Product(pins) => product_holds(gal, pins, inputs),
    }
}

/// A row means what it holds: an intact row is true, a blown row is false
/// whatever the inputs are, and a row that holds a product is true exactly
/// when every input of the product is.
pub proof fn lemma_row_meaning(gal: GalView, row: int, content: RowUse, inputs: spec_fn(int) -> bool)
    requires
        forall|col: int|
            0 <= col < gal.chip.num_cols() ==> #[trigger] gal.fuse(row, col) == gal.row_fuse(
                content,
                col,
            ),
        content matches RowUse::Product(pins) ==> forall|j: int|
            0 <= j < pins.len() ==> 1 <= (#[trigger] pins[j]).pin <= gal.chip.num_pins()
                && gal.column(pins[j].pin) is Ok,
    ensures
        row_holds(gal, row, inputs) == content_holds(gal, content, inputs),
{
    match content {
        RowUse::Intact => {},
        RowUse::Blown => {
            assert(!gal.fuse(row, 0) && !gal.fuse(row, 1));
            assert(column_holds(inputs, 0) != column_holds(inputs, 1));
        },
        RowUse::Product(pins) => {
            if row_holds(gal, row, inputs) {
                assert forall|j: int| 0 <= j < pins.len() implies column_holds(
                    inputs,
                    #[trigger] gal.fuse_column(pins[j]),
                ) by {
                    let col = gal.fuse_column(pins[j]);
                    lemma_pin_column_total(gal.chip, gal.mode(), pins[j].pin);
                    assert(gal.row_blows(pins, col));
                    assert(!gal.fuse(row, col));
                }
            }
            if product_holds(gal, pins, inputs) {
                assert forall|col: int|
                    0 <= col < gal.chip.num_cols() && !gal.fuse(
                        row,
                        col,
                    ) implies #[trigger] column_holds(inputs, col) by {
                    assert(gal.row_blows(pins, col));
                }
            }
        },
    }
}

/// Once a design that fits its chip is built, every pin of a product that a
/// row holds leads into the array.
proof fn lemma_built_products(blueprint: Blueprint, i: int, k: int)
    requires
        blueprint.wf(),
        build_error(blueprint) is None,
        0 <= i < blueprint.olmcs@.len(),
        0 <= k < blueprint.chip.olmc_rows(i),
    ensures
        ({
            let built = build_state(blueprint);
            block_row_use(blueprint.chip, built.mode(), blueprint.olmcs@[i], k) matches RowUse::Product(
                pins,
            ) ==> forall|j: int|
                0 <= j < pins.len() ==> 1 <= (#[trigger] pins[j]).pin <= built.chip.num_pins()
                    && built.column(pins[j].pin) is Ok
        }),
{
    let chip = blueprint.chip;
    let olmcs = blueprint.olmcs@;
    let olmc = olmcs[i];
    let n = olmcs.len() as int;
    let built = build_state(blueprint);
    let mode = built.mode();
    lemma_built_fields(blueprint);
    lemma_staged(blueprint, 0, 0);
    assert(olmc.pins_on(chip));
    lemma_first_some_none(core_step_errors(chip, mode, olmcs), 0, n);
    assert(core_step_errors(chip, mode, olmcs)(i) is None);
    if chip == Chip::GAL20RA10 {
        lemma_first_some_none(aux_step_errors(mode, olmcs), 0, n);
        assert(aux_step_errors(mode, olmcs)(i) is None);
    }
    if let Some((kind, term)) = olmc.output {
        let skip = first_main_row(chip, mode, kind);
        if k >= skip {
            lemma_term_fits(chip, mode, term@, olmc_main_bounds(chip, mode, olmc, i));
            lemma_term_pins(built, term@, k - skip);
        } else if k == 0 {
            if let Some(enable) = olmc.tri_con {
                lemma_term_fits(chip, mode, enable@, chip.block_row(i, 0));
                lemma_term_pins(built, enable@, 0);
            }
        } else if k == 1 {
            lemma_term_fits(chip, mode, term_or_false(olmc.clock), chip.block_row(i, 1));
            lemma_term_pins(built, term_or_false(olmc.clock), 0);
        } else if kind == PinMode::Registered {
            lemma_term_fits(chip, mode, term_or_false(olmc.arst), chip.block_row(i, 2));
            lemma_term_pins(built, term_or_false(olmc.arst), 0);
            lemma_term_fits(chip, mode, term_or_false(olmc.aprst), chip.block_row(i, 3));
            lemma_term_pins(built, term_or_false(olmc.aprst), 0);
        }
    }
}

/// The pins of a product of a term whose pins lead into the array do so.
proof fn lemma_term_pins(gal: GalView, term: TermView, k: int)
    requires
        term.pins_on(gal.chip),
        pins_lead_in(gal.chip, gal.mode(), term.rows),
    ensures
        term_row(term, k) matches RowUse::Product(pins) ==> forall|j: int|
            0 <= j < pins.len() ==> 1 <= (#[trigger] pins[j]).pin <= gal.chip.num_pins()
                && gal.column(pins[j].pin) is Ok,
{
    if 0 <= k < term.rows.len() {
        let pins = term.rows[k];
        assert forall|j: int| 0 <= j < pins.len() implies 1 <= (#[trigger] pins[j]).pin
            <= gal.chip.num_pins() && gal.column(pins[j].pin) is Ok by {
            assert(pins[j] == term.rows[k][j]);
        }
    }
}

/// Once a design that fits its chip is built, row `k` of the block of OLMC
/// `i` means what [`block_row_use`] says that it holds.
pub proof fn lemma_built_block_meaning(
    blueprint: Blueprint,
    i: int,
    k: int,
    inputs: spec_fn(int) -> bool,
)
    requires
        blueprint.wf(),
        build_error(blueprint) is None,
        0 <= i < blueprint.olmcs@.len(),
        0 <= k < blueprint.chip.olmc_rows(i),
    ensures
        ({
            let built = build_state(blueprint);
            row_holds(built, blueprint.chip.olmc_start(i) + k, inputs) == content_holds(
                built,
                block_row_use(blueprint.chip, built.mode(), blueprint.olmcs@[i], k),
                inputs,
            )
        }),
{
    let built = build_state(blueprint);
    let row = blueprint.chip.olmc_start(i) + k;
    let content = block_row_use(blueprint.chip, built.mode(), blueprint.olmcs@[i], k);
    lemma_built_fields(blueprint);
    lemma_built_products(blueprint, i, k);
    assert forall|col: int| 0 <= col < built.chip.num_cols() implies #[trigger] built.fuse(
        row,
        col,
    ) == built.row_fuse(content, col) by {
        lemma_built_block(blueprint, i, k, col);
    }
    lemma_row_meaning(built, row, content, inputs);
}

/// Whether some product of `term` is true when the inputs of the array are
/// `inputs`.
pub open spec fn term_holds(gal: GalView, term: TermView, inputs: spec_fn(int) -> bool) -> bool {
    exists|k: int| 0 <= k < term.rows.len() && product_holds(gal, #[trigger] term.rows[k], inputs)
}

/// Once a design that fits its chip is built, the rows that belong to the
/// main equation of an output sum up to the equation: one of them is true
/// exactly when a product of the equation is. The rows that the equation
/// does not need add nothing.
pub proof fn lemma_built_output_meaning(blueprint: Blueprint, i: int, inputs: spec_fn(int) -> bool)
    requires
        blueprint.wf(),
        build_error(blueprint) is None,
        0 <= i < blueprint.olmcs@.len(),
        blueprint.olmcs@[i].output is Some,
    ensures
        ({
            let chip = blueprint.chip;
            let built = build_state(blueprint);
            let olmc = blueprint.olmcs@[i];
            let first = chip.olmc_start(i) + first_main_row(chip, built.mode(), olmc.kind()->0);
            (exists|row: int|
                first <= row < chip.olmc_start(i) + chip.olmc_rows(i) && #[trigger] row_holds(
                    built,
                    row,
                    inputs,
                )) == term_holds(built, olmc.main_term(), inputs)
        }),
{
    let chip = blueprint.chip;
    let built = build_state(blueprint);
    let mode = built.mode();
    let olmc = blueprint.olmcs@[i];
    let term = olmc.main_term();
    let start = chip.olmc_start(i);
    let skip = first_main_row(chip, mode, olmc.kind()->0);
    lemma_built_fields(blueprint);
    lemma_build_accepts(blueprint);
    lemma_olmc_start(chip, i);
    assert(olmc_fits(chip, mode, olmc, i));
    if exists|row: int|
        start + skip <= row < start + chip.olmc_rows(i) && #[trigger] row_holds(built, row, inputs) {
        let row = choose|row: int|
            start + skip <= row < start + chip.olmc_rows(i) && #[trigger] row_holds(
                built,
                row,
                inputs,
            );
        lemma_built_block_meaning(blueprint, i, row - start, inputs);
        assert(product_holds(built, term.rows[row - start - skip], inputs));
    }
    if term_holds(built, term, inputs) {
        let k = choose|k: int|
            0 <= k < term.rows.len() && product_holds(built, #[trigger] term.rows[k], inputs);
        lemma_built_block_meaning(blueprint, i, skip + k, inputs);
        assert(row_holds(built, start + skip + k, inputs));
    }
}

} // verus!
