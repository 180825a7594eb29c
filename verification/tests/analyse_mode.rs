use galette::blueprint::{Active, PinMode, OLMC};
use galette::gal::{Mode, Term};
use galette::gal_builder::analyse_mode;

fn olmc(mode: PinMode) -> OLMC {
    OLMC {
        output: Some((
            mode,
            Term {
                line_num: 0,
                pins: vec![],
            },
        )),
        active: Active::Low,
        tri_con: None,
        clock: None,
        arst: None,
        aprst: None,
        feedback: false,
    }
}

fn olmc_feedback_no_output() -> OLMC {
    OLMC {
        output: None,
        active: Active::Low,
        tri_con: None,
        clock: None,
        arst: None,
        aprst: None,
        feedback: true,
    }
}

fn olmc_feedback_and_output() -> OLMC {
    OLMC {
        feedback: true,
        ..olmc(PinMode::Combinatorial)
    }
}

#[test]
fn mode1() {
    let olmcs = [
        olmc(PinMode::Combinatorial),
        olmc(PinMode::Combinatorial),
        olmc(PinMode::Combinatorial),
        olmc(PinMode::Combinatorial),
        olmc(PinMode::Combinatorial),
        olmc(PinMode::Combinatorial),
        olmc(PinMode::Combinatorial),
        olmc(PinMode::Combinatorial),
    ];
    assert_eq!(analyse_mode(&olmcs), Mode::Simple);
}

#[test]
fn mode2_tristate_output() {
    let olmcs = [
        olmc(PinMode::Combinatorial),
        olmc(PinMode::Combinatorial),
        olmc(PinMode::Combinatorial),
        olmc(PinMode::Combinatorial),
        olmc(PinMode::Combinatorial),
        olmc(PinMode::Combinatorial),
        olmc(PinMode::Tristate),
        olmc(PinMode::Combinatorial),
    ];
    assert_eq!(analyse_mode(&olmcs), Mode::Complex);
}

#[test]
fn mode2_olmc3() {
    let olmcs = [
        olmc(PinMode::Combinatorial),
        olmc(PinMode::Combinatorial),
        olmc(PinMode::Combinatorial),
        olmc_feedback_no_output(),
        olmc(PinMode::Combinatorial),
        olmc(PinMode::Combinatorial),
        olmc(PinMode::Combinatorial),
        olmc(PinMode::Combinatorial),
    ];
    assert_eq!(analyse_mode(&olmcs), Mode::Complex);
}

#[test]
fn mode2_olmc4() {
    let olmcs = [
        olmc(PinMode::Combinatorial),
        olmc(PinMode::Combinatorial),
        olmc(PinMode::Combinatorial),
        olmc(PinMode::Combinatorial),
        olmc_feedback_no_output(),
        olmc(PinMode::Combinatorial),
        olmc(PinMode::Combinatorial),
        olmc(PinMode::Combinatorial),
    ];
    assert_eq!(analyse_mode(&olmcs), Mode::Complex);
}

#[test]
fn mode2_feedback() {
    let olmcs = [
        olmc(PinMode::Combinatorial),
        olmc(PinMode::Combinatorial),
        olmc(PinMode::Combinatorial),
        olmc(PinMode::Combinatorial),
        olmc(PinMode::Combinatorial),
        olmc(PinMode::Combinatorial),
        olmc_feedback_and_output(),
        olmc(PinMode::Combinatorial),
    ];
    assert_eq!(analyse_mode(&olmcs), Mode::Complex);
}

#[test]
fn mode3_all_registered() {
    let olmcs = [
        olmc(PinMode::Registered),
        olmc(PinMode::Registered),
        olmc(PinMode::Registered),
        olmc(PinMode::Registered),
        olmc(PinMode::Registered),
        olmc(PinMode::Registered),
        olmc(PinMode::Registered),
        olmc(PinMode::Registered),
    ];
    assert_eq!(analyse_mode(&olmcs), Mode::Registered);
}

#[test]
fn mode3_first_tristate() {
    let olmcs = [
        olmc(PinMode::Tristate),
        olmc(PinMode::Registered),
        olmc(PinMode::Registered),
        olmc(PinMode::Registered),
        olmc(PinMode::Registered),
        olmc(PinMode::Registered),
        olmc(PinMode::Registered),
        olmc(PinMode::Registered),
    ];
    assert_eq!(analyse_mode(&olmcs), Mode::Registered);
}

#[test]
fn registered_output_outranks_tristate_outputs() {
    let olmcs = [
        olmc(PinMode::Tristate),
        olmc(PinMode::Tristate),
        olmc(PinMode::Combinatorial),
        olmc(PinMode::Tristate),
        olmc(PinMode::Tristate),
        olmc(PinMode::Registered),
        olmc(PinMode::Tristate),
        olmc(PinMode::Combinatorial),
    ];
    assert_eq!(analyse_mode(&olmcs), Mode::Registered);
    assert_eq!(analyse_mode(&olmcs), analyse_mode(&olmcs));
}

#[test]
fn registered_output_outranks_feedback() {
    let olmcs = [
        olmc_feedback_and_output(),
        olmc(PinMode::Combinatorial),
        olmc(PinMode::Combinatorial),
        olmc_feedback_no_output(),
        olmc(PinMode::Combinatorial),
        olmc(PinMode::Combinatorial),
        olmc(PinMode::Combinatorial),
        olmc(PinMode::Registered),
    ];
    assert_eq!(analyse_mode(&olmcs), Mode::Registered);
}

#[test]
fn feedback_without_output_outside_the_middle_stays_simple() {
    for n in [0usize, 1, 2, 5, 6, 7] {
        let mut olmcs = vec![
            olmc(PinMode::Combinatorial),
            olmc(PinMode::Combinatorial),
            olmc(PinMode::Combinatorial),
            olmc(PinMode::Combinatorial),
            olmc(PinMode::Combinatorial),
            olmc(PinMode::Combinatorial),
            olmc(PinMode::Combinatorial),
            olmc(PinMode::Combinatorial),
        ];
        olmcs[n] = olmc_feedback_no_output();
        assert_eq!(analyse_mode(&olmcs), Mode::Simple);
    }
}

#[test]
fn unused_olmcs_are_simple() {
    let unused = OLMC {
        output: None,
        active: Active::Low,
        tri_con: None,
        clock: None,
        arst: None,
        aprst: None,
        feedback: false,
    };
    let olmcs = vec![unused; 8];
    assert_eq!(analyse_mode(&olmcs), Mode::Simple);
}
