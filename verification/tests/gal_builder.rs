use galette::blueprint::{Active, Blueprint, PinMode, OLMC};
use galette::chips::{Bounds, Chip};
use galette::errors::{Error, ErrorCode, OutputSuffix};
use galette::gal::{Mode, Pin, Term, GAL};
use galette::gal_builder::{
    adjust_main_bounds, build, build_gal20ra10, build_gal22v10, build_galxv8, check_aux,
    check_not_gal20ra10, check_tristate, set_arsp_eqns, set_aux_eqns, set_core_eqns, set_mode,
    set_pts, set_sig, set_tristate, set_xors,
};

const CHIPS: [Chip; 4] = [Chip::GAL16V8, Chip::GAL20V8, Chip::GAL22V10, Chip::GAL20RA10];

fn pin(pin: usize) -> Pin {
    Pin { pin, neg: false }
}

fn not(pin: usize) -> Pin {
    Pin { pin, neg: true }
}

fn term(line_num: u32, pins: Vec<Vec<Pin>>) -> Term {
    Term { line_num, pins }
}

fn unused() -> OLMC {
    OLMC {
        active: Active::Low,
        output: None,
        tri_con: None,
        clock: None,
        arst: None,
        aprst: None,
        feedback: false,
    }
}

fn output(mode: PinMode, t: Term) -> OLMC {
    OLMC { output: Some((mode, t)), ..unused() }
}

fn blueprint(chip: Chip, olmcs: Vec<OLMC>) -> Blueprint {
    assert_eq!(olmcs.len(), chip.num_olmcs());
    Blueprint { chip, sig: vec![], olmcs, ar: None, sp: None }
}

fn empty(chip: Chip) -> Blueprint {
    blueprint(chip, vec![unused(); chip.num_olmcs()])
}

fn code_of(built: Result<GAL, Error>) -> Error {
    match built {
        Ok(_) => panic!("the design was accepted"),
        Err(error) => error,
    }
}

/// The columns of `row` whose fuse is blown.
fn blown(gal: &GAL, row: usize) -> Vec<usize> {
    let cols = gal.chip.num_cols();
    (0..cols).filter(|c| !gal.fuses[row * cols + c]).collect()
}

fn all(gal: &GAL) -> Vec<usize> {
    (0..gal.chip.num_cols()).collect()
}

#[test]
fn all_combinatorial_without_feedback_is_simple_mode() {
    for chip in [Chip::GAL16V8, Chip::GAL20V8] {
        let olmcs: Vec<OLMC> = (0..8)
            .map(|i| output(PinMode::Combinatorial, term(i + 1, vec![vec![pin(2)]])))
            .collect();
        let gal = build(&blueprint(chip, olmcs)).unwrap();
        assert_eq!(gal.chip, chip);
        assert_eq!(gal.get_mode(), Mode::Simple);
        assert_eq!((gal.syn, gal.ac0), (true, false));
        assert_eq!(gal.ac1, vec![false; 8]);
        assert_eq!(gal.xor, vec![false; 8]);
        assert_eq!(gal.pt, vec![true; 64]);
        assert_eq!(gal.sig, vec![true; 64]);
        for block in 0..8 {
            assert_eq!(blown(&gal, block * 8), vec![0]);
            for r in 1..8 {
                assert_eq!(blown(&gal, block * 8 + r), all(&gal));
            }
        }
    }
}

#[test]
fn simple_mode_design_on_the_gal16v8() {
    let mut olmcs = vec![unused(); 8];
    olmcs[0] = output(PinMode::Combinatorial, term(1, vec![vec![pin(2)], vec![not(3), pin(4)]]));
    olmcs[2] = OLMC {
        active: Active::High,
        ..output(PinMode::Combinatorial, term(2, vec![vec![]]))
    };
    olmcs[7] = OLMC { feedback: true, ..unused() };
    let gal = build(&blueprint(Chip::GAL16V8, olmcs)).unwrap();
    assert_eq!(gal.get_mode(), Mode::Simple);
    // Bits run from the last OLMC to the first.
    assert_eq!(gal.ac1, vec![true, false, false, false, false, false, false, false]);
    assert_eq!(gal.xor, vec![false, false, false, false, false, true, false, false]);
    // OLMC 0 owns the rows from 56 on.
    assert_eq!(blown(&gal, 56), vec![0]);
    assert_eq!(blown(&gal, 57), vec![5, 8]);
    for r in 58..64 {
        assert_eq!(blown(&gal, r), all(&gal));
    }
    // OLMC 2 owns the rows from 40 on.
    assert_eq!(blown(&gal, 40), Vec::<usize>::new());
    for r in 41..48 {
        assert_eq!(blown(&gal, r), all(&gal));
    }
    // The blocks without output are blown throughout.
    for r in (0..40).chain(48..56) {
        assert_eq!(blown(&gal, r), all(&gal));
    }
}

#[test]
fn one_registered_output_makes_registered_mode() {
    for chip in [Chip::GAL16V8, Chip::GAL20V8] {
        let mut olmcs: Vec<OLMC> = (0..8)
            .map(|i| output(PinMode::Combinatorial, term(i + 1, vec![vec![pin(3)]])))
            .collect();
        olmcs[3] = output(PinMode::Registered, term(30, vec![vec![pin(2)]]));
        let gal = build(&blueprint(chip, olmcs)).unwrap();
        assert_eq!(gal.get_mode(), Mode::Registered);
        assert_eq!((gal.syn, gal.ac0), (false, true));
        // The combinatorial outputs are built as tristate outputs.
        assert_eq!(gal.ac1, vec![true, true, true, true, false, true, true, true]);
        for block in 0..8 {
            let start = block * 8;
            if block == 4 {
                // OLMC 3, registered: no enable row.
                assert_eq!(blown(&gal, start), vec![0]);
                for r in 1..8 {
                    assert_eq!(blown(&gal, start + r), all(&gal));
                }
            } else {
                // The enable row stays intact: always enabled.
                assert_eq!(blown(&gal, start), Vec::<usize>::new());
                assert_eq!(blown(&gal, start + 1), vec![4]);
                for r in 2..8 {
                    assert_eq!(blown(&gal, start + r), all(&gal));
                }
            }
        }
    }
}

#[test]
fn tristate_output_with_enable_in_complex_mode() {
    let mut olmcs = vec![unused(); 8];
    olmcs[1] = OLMC {
        tri_con: Some(term(6, vec![vec![pin(2), not(11)]])),
        ..output(PinMode::Tristate, term(5, vec![vec![pin(3)], vec![pin(4)]]))
    };
    olmcs[6] = output(PinMode::Combinatorial, term(7, vec![vec![not(13)]]));
    let gal = build(&blueprint(Chip::GAL16V8, olmcs)).unwrap();
    assert_eq!(gal.get_mode(), Mode::Complex);
    assert_eq!((gal.syn, gal.ac0), (true, true));
    assert_eq!(gal.ac1, vec![false, true, false, false, false, false, true, false]);
    // OLMC 1 owns the rows from 48 on.
    assert_eq!(blown(&gal, 48), vec![0, 31]);
    assert_eq!(blown(&gal, 49), vec![4]);
    assert_eq!(blown(&gal, 50), vec![8]);
    for r in 51..56 {
        assert_eq!(blown(&gal, r), all(&gal));
    }
    // OLMC 6 owns the rows from 8 on; pin 13 feeds column 26 in complex mode.
    assert_eq!(blown(&gal, 8), Vec::<usize>::new());
    assert_eq!(blown(&gal, 9), vec![27]);
    for r in 10..16 {
        assert_eq!(blown(&gal, r), all(&gal));
    }
}

#[test]
fn registered_output_without_clock_on_the_gal20ra10() {
    let mut olmcs = vec![unused(); 10];
    olmcs[4] = output(PinMode::Registered, term(17, vec![vec![pin(2)]]));
    assert_eq!(
        code_of(build(&blueprint(Chip::GAL20RA10, olmcs))),
        Error { code: ErrorCode::NoCLK, line: 17 }
    );
}

#[test]
fn missing_clock_is_reported_after_a_bad_reset() {
    let mut olmcs = vec![unused(); 10];
    olmcs[4] = OLMC {
        arst: Some(term(18, vec![vec![pin(2)], vec![pin(3)]])),
        ..output(PinMode::Registered, term(17, vec![vec![pin(2)]]))
    };
    assert_eq!(
        code_of(build(&blueprint(Chip::GAL20RA10, olmcs))),
        Error { code: ErrorCode::MoreThanOneProduct, line: 18 }
    );
}

#[test]
fn tristate_enable_on_a_combinatorial_output() {
    for chip in CHIPS {
        let mut olmcs = vec![unused(); chip.num_olmcs()];
        olmcs[5] = OLMC {
            tri_con: Some(term(9, vec![vec![pin(2)]])),
            ..output(PinMode::Combinatorial, term(8, vec![vec![pin(3)]]))
        };
        assert_eq!(
            code_of(build(&blueprint(chip, olmcs))),
            Error { code: ErrorCode::UnmatchedTristate, line: 9 }
        );
    }
}

#[test]
fn tristate_enable_without_output() {
    for chip in CHIPS {
        let mut olmcs = vec![unused(); chip.num_olmcs()];
        olmcs[0] = OLMC { tri_con: Some(term(3, vec![vec![pin(2)]])), ..unused() };
        assert_eq!(
            code_of(build(&blueprint(chip, olmcs))),
            Error { code: ErrorCode::UndefinedOutput { suffix: OutputSuffix::E }, line: 3 }
        );
    }
}

#[test]
fn tristate_enable_on_a_registered_output() {
    for chip in [Chip::GAL16V8, Chip::GAL20V8] {
        let mut olmcs = vec![unused(); 8];
        olmcs[2] = OLMC {
            tri_con: Some(term(4, vec![vec![pin(2)]])),
            ..output(PinMode::Registered, term(3, vec![vec![pin(3)]]))
        };
        assert_eq!(
            code_of(build(&blueprint(chip, olmcs))),
            Error { code: ErrorCode::TristateReg, line: 4 }
        );
    }
    let mut olmcs = vec![unused(); 10];
    olmcs[2] = OLMC {
        tri_con: Some(term(4, vec![vec![pin(2)]])),
        ..output(PinMode::Registered, term(3, vec![vec![pin(3)]]))
    };
    let gal = build(&blueprint(Chip::GAL22V10, olmcs)).unwrap();
    // OLMC 2 owns the rows from 98 on.
    assert_eq!(blown(&gal, 98), vec![4]);
    assert_eq!(blown(&gal, 99), vec![8]);
}

#[test]
fn control_equations_only_on_the_gal20ra10() {
    for chip in [Chip::GAL16V8, Chip::GAL20V8, Chip::GAL22V10] {
        let registered = output(PinMode::Registered, term(1, vec![vec![pin(2)]]));
        let cases = [
            (OLMC { clock: Some(term(11, vec![])), ..registered.clone() }, OutputSuffix::CLK, 11),
            (OLMC { arst: Some(term(12, vec![])), ..registered.clone() }, OutputSuffix::ARST, 12),
            (OLMC { aprst: Some(term(13, vec![])), ..registered.clone() }, OutputSuffix::APRST, 13),
            (
                OLMC {
                    clock: Some(term(21, vec![])),
                    arst: Some(term(22, vec![])),
                    aprst: Some(term(23, vec![])),
                    ..registered.clone()
                },
                OutputSuffix::CLK,
                21,
            ),
            (
                OLMC {
                    arst: Some(term(32, vec![])),
                    aprst: Some(term(33, vec![])),
                    ..registered.clone()
                },
                OutputSuffix::ARST,
                32,
            ),
        ];
        for (olmc, suffix, line) in cases {
            let mut olmcs = vec![unused(); chip.num_olmcs()];
            olmcs[6] = olmc;
            let bp = blueprint(chip, olmcs);
            let expected = Error { code: ErrorCode::DisallowedControl { suffix }, line };
            assert_eq!(check_not_gal20ra10(&bp), Err(expected));
            assert_eq!(code_of(build(&bp)), expected);
        }
    }
}

#[test]
fn first_control_equation_in_olmc_order_is_reported() {
    let mut olmcs = vec![unused(); 8];
    olmcs[5] = OLMC { clock: Some(term(50, vec![])), ..unused() };
    olmcs[2] = OLMC { aprst: Some(term(20, vec![])), ..unused() };
    let bp = blueprint(Chip::GAL16V8, olmcs);
    assert_eq!(
        check_not_gal20ra10(&bp),
        Err(Error { code: ErrorCode::DisallowedControl { suffix: OutputSuffix::APRST }, line: 20 })
    );
    assert_eq!(check_not_gal20ra10(&empty(Chip::GAL16V8)), Ok(()));
}

#[test]
fn control_equation_comes_before_a_bad_main_equation() {
    let mut olmcs = vec![unused(); 8];
    olmcs[0] = output(PinMode::Combinatorial, term(1, vec![vec![pin(10)]]));
    olmcs[7] = OLMC { arst: Some(term(70, vec![])), ..unused() };
    assert_eq!(
        code_of(build(&blueprint(Chip::GAL16V8, olmcs))),
        Error { code: ErrorCode::DisallowedControl { suffix: OutputSuffix::ARST }, line: 70 }
    );
}

#[test]
fn control_equations_need_a_registered_output() {
    let suffixes = [OutputSuffix::CLK, OutputSuffix::ARST, OutputSuffix::APRST];
    for (n, suffix) in suffixes.into_iter().enumerate() {
        let with_control = |olmc: OLMC| {
            let t = Some(term(60 + n as u32, vec![vec![pin(2)]]));
            match n {
                0 => OLMC { clock: t, ..olmc },
                1 => OLMC { arst: t, ..olmc },
                _ => OLMC { aprst: t, ..olmc },
            }
        };
        let line = 60 + n as u32;

        let olmc = with_control(unused());
        let expected = Error { code: ErrorCode::UndefinedOutput { suffix }, line };
        let field = match n {
            0 => &olmc.clock,
            1 => &olmc.arst,
            _ => &olmc.aprst,
        };
        assert_eq!(check_aux(field, &olmc, suffix), Err(expected));

        for mode in [PinMode::Combinatorial, PinMode::Tristate] {
            let olmc = with_control(output(mode, term(1, vec![vec![pin(3)]])));
            let expected = Error { code: ErrorCode::InvalidControl { suffix }, line };
            let field = match n {
                0 => &olmc.clock,
                1 => &olmc.arst,
                _ => &olmc.aprst,
            };
            assert_eq!(check_aux(field, &olmc, suffix), Err(expected));
            let mut olmcs = vec![unused(); 10];
            olmcs[3] = olmc;
            assert_eq!(code_of(build(&blueprint(Chip::GAL20RA10, olmcs))), expected);
        }

        let olmc = with_control(output(PinMode::Registered, term(1, vec![vec![pin(3)]])));
        let field = match n {
            0 => &olmc.clock,
            1 => &olmc.arst,
            _ => &olmc.aprst,
        };
        assert_eq!(check_aux(field, &olmc, suffix), Ok(()));
        assert_eq!(check_aux(&None, &olmc, suffix), Ok(()));
        assert_eq!(check_aux(&None, &unused(), suffix), Ok(()));
    }
}

#[test]
fn control_equation_without_output_on_the_gal20ra10() {
    let mut olmcs = vec![unused(); 10];
    olmcs[9] = OLMC { clock: Some(term(90, vec![vec![pin(2)]])), ..unused() };
    assert_eq!(
        code_of(build(&blueprint(Chip::GAL20RA10, olmcs))),
        Error { code: ErrorCode::UndefinedOutput { suffix: OutputSuffix::CLK }, line: 90 }
    );
}

#[test]
fn check_tristate_by_output_and_chip() {
    let enable = Some(term(1, vec![vec![]]));
    for chip in CHIPS {
        let none = OLMC { tri_con: enable.clone(), ..unused() };
        assert_eq!(
            check_tristate(chip, &none),
            Err(ErrorCode::UndefinedOutput { suffix: OutputSuffix::E })
        );
        let com = output(PinMode::Combinatorial, term(1, vec![]));
        assert_eq!(check_tristate(chip, &com), Err(ErrorCode::UnmatchedTristate));
        let tri = output(PinMode::Tristate, term(1, vec![]));
        assert_eq!(check_tristate(chip, &tri), Ok(()));
        let reg = output(PinMode::Registered, term(1, vec![]));
        if chip.has_modes() {
            assert_eq!(check_tristate(chip, &reg), Err(ErrorCode::TristateReg));
        } else {
            assert_eq!(check_tristate(chip, &reg), Ok(()));
        }
    }
}

#[test]
fn signature_bits_most_significant_first() {
    let mut gal = GAL::new(Chip::GAL16V8);
    let bp = Blueprint { sig: vec![0x80, 0x01, 0xA5], ..empty(Chip::GAL16V8) };
    set_sig(&mut gal, &bp);
    let mut expected = vec![true; 64];
    for (k, bit) in [
        true, false, false, false, false, false, false, false,
        false, false, false, false, false, false, false, true,
        true, false, true, false, false, true, false, true,
    ]
    .into_iter()
    .enumerate()
    {
        expected[k] = bit;
    }
    assert_eq!(gal.sig, expected);
    assert_eq!(gal.fuses, vec![true; 2048]);
    assert_eq!(gal.pt, vec![true; 64]);
}

#[test]
fn signature_takes_eight_bytes() {
    let bytes = b"GALETTE!and more".to_vec();
    let bp = Blueprint { sig: bytes.clone(), ..empty(Chip::GAL22V10) };
    let gal = build(&bp).unwrap();
    for k in 0..64 {
        assert_eq!(gal.sig[k], (bytes[k / 8] >> (7 - k % 8)) & 1 == 1);
    }
    let bp = Blueprint { sig: vec![0; 8], ..empty(Chip::GAL22V10) };
    assert_eq!(build(&bp).unwrap().sig, vec![false; 64]);
    let bp = Blueprint { sig: vec![0xff; 9], ..empty(Chip::GAL22V10) };
    assert_eq!(build(&bp).unwrap().sig, vec![true; 64]);
}

#[test]
fn set_mode_stores_the_inferred_mode() {
    let mut olmcs = vec![unused(); 8];
    olmcs[4] = output(PinMode::Tristate, term(1, vec![]));
    let mut gal = GAL::new(Chip::GAL20V8);
    set_mode(&mut gal, &blueprint(Chip::GAL20V8, olmcs));
    assert_eq!(gal.get_mode(), Mode::Complex);
    assert_eq!(gal.fuses, vec![true; 2560]);
}

#[test]
fn tristate_bits_by_output() {
    let olmcs = vec![
        unused(),
        OLMC { feedback: true, ..unused() },
        output(PinMode::Tristate, term(1, vec![])),
        output(PinMode::Combinatorial, term(1, vec![])),
        output(PinMode::Registered, term(1, vec![])),
        OLMC { feedback: true, ..output(PinMode::Registered, term(1, vec![])) },
        OLMC { feedback: true, ..output(PinMode::Combinatorial, term(1, vec![])) },
        unused(),
    ];
    let bp = blueprint(Chip::GAL16V8, olmcs);
    let mut gal = GAL::new(Chip::GAL16V8);
    set_tristate(&mut gal, &bp, false);
    assert_eq!(gal.ac1, vec![false, false, false, false, false, true, true, false]);
    set_tristate(&mut gal, &bp, true);
    assert_eq!(gal.ac1, vec![false, true, false, false, true, true, true, false]);
    assert_eq!(gal.xor, vec![true; 8]);
}

#[test]
fn polarity_bits_by_output() {
    let high = |olmc: OLMC| OLMC { active: Active::High, ..olmc };
    let olmcs = vec![
        high(unused()),
        high(output(PinMode::Tristate, term(1, vec![]))),
        output(PinMode::Tristate, term(1, vec![])),
        high(output(PinMode::Combinatorial, term(1, vec![]))),
        high(output(PinMode::Registered, term(1, vec![]))),
        unused(),
        output(PinMode::Registered, term(1, vec![])),
        high(OLMC { feedback: true, ..unused() }),
        unused(),
        high(output(PinMode::Combinatorial, term(1, vec![]))),
    ];
    let bp = blueprint(Chip::GAL20RA10, olmcs);
    let mut gal = GAL::new(Chip::GAL20RA10);
    set_xors(&mut gal, &bp);
    assert_eq!(
        gal.xor,
        vec![true, false, false, false, false, true, true, false, true, false]
    );
    assert_eq!(gal.ac1, vec![true; 10]);
}

#[test]
fn product_term_bits_are_set() {
    let mut gal = GAL::new(Chip::GAL16V8);
    gal.pt = vec![false; 64];
    set_pts(&mut gal);
    assert_eq!(gal.pt, vec![true; 64]);
}

#[test]
fn main_equation_skips_the_rows_of_the_other_equations() {
    let block = Bounds { start_row: 16, max_row: 8, row_offset: 0 };
    let com = Some((PinMode::Combinatorial, term(1, vec![])));
    let tri = Some((PinMode::Tristate, term(1, vec![])));
    let reg = Some((PinMode::Registered, term(1, vec![])));
    for chip in [Chip::GAL16V8, Chip::GAL20V8] {
        let mut gal = GAL::new(chip);
        gal.set_mode(Mode::Simple);
        for out in [&com, &tri, &reg, &None] {
            assert_eq!(adjust_main_bounds(&gal, out, &block), block);
        }
        for mode in [Mode::Complex, Mode::Registered] {
            gal.set_mode(mode);
            for out in [&com, &tri, &None] {
                assert_eq!(
                    adjust_main_bounds(&gal, out, &block),
                    Bounds { start_row: 16, max_row: 8, row_offset: 1 }
                );
            }
            assert_eq!(adjust_main_bounds(&gal, &reg, &block), block);
        }
    }
    for out in [&com, &tri, &reg, &None] {
        assert_eq!(
            adjust_main_bounds(&GAL::new(Chip::GAL22V10), out, &block),
            Bounds { start_row: 16, max_row: 8, row_offset: 1 }
        );
        assert_eq!(
            adjust_main_bounds(&GAL::new(Chip::GAL20RA10), out, &block),
            Bounds { start_row: 16, max_row: 8, row_offset: 4 }
        );
    }
}

#[test]
fn too_many_products_for_a_block() {
    let rows = |n: usize| -> Vec<Vec<Pin>> { (0..n).map(|_| vec![pin(2)]).collect() };
    // Simple mode gives all eight rows to the main equation.
    let mut olmcs = vec![unused(); 8];
    olmcs[0] = output(PinMode::Combinatorial, term(1, rows(8)));
    assert!(build(&blueprint(Chip::GAL16V8, olmcs)).is_ok());
    let mut olmcs = vec![unused(); 8];
    olmcs[0] = output(PinMode::Combinatorial, term(1, rows(9)));
    assert_eq!(
        code_of(build(&blueprint(Chip::GAL16V8, olmcs))),
        Error { code: ErrorCode::TooManyProducts { max: 7, seen: 9 }, line: 1 }
    );
    // A tristate output keeps the first row for the enable.
    let mut olmcs = vec![unused(); 8];
    olmcs[0] = output(PinMode::Tristate, term(2, rows(7)));
    assert!(build(&blueprint(Chip::GAL16V8, olmcs)).is_ok());
    let mut olmcs = vec![unused(); 8];
    olmcs[0] = output(PinMode::Tristate, term(2, rows(8)));
    assert_eq!(
        code_of(build(&blueprint(Chip::GAL16V8, olmcs))),
        Error { code: ErrorCode::TooManyProducts { max: 7, seen: 8 }, line: 2 }
    );
    // The middle blocks of the GAL22V10 hold sixteen products.
    let mut olmcs = vec![unused(); 10];
    olmcs[4] = output(PinMode::Combinatorial, term(3, rows(16)));
    assert!(build(&blueprint(Chip::GAL22V10, olmcs)).is_ok());
    let mut olmcs = vec![unused(); 10];
    olmcs[4] = output(PinMode::Combinatorial, term(3, rows(17)));
    assert_eq!(
        code_of(build(&blueprint(Chip::GAL22V10, olmcs))),
        Error { code: ErrorCode::TooManyProducts { max: 16, seen: 17 }, line: 3 }
    );
    // The GAL20RA10 holds four.
    let mut olmcs = vec![unused(); 10];
    olmcs[4] = output(PinMode::Combinatorial, term(4, rows(5)));
    assert_eq!(
        code_of(build(&blueprint(Chip::GAL20RA10, olmcs))),
        Error { code: ErrorCode::TooManyProducts { max: 7, seen: 5 }, line: 4 }
    );
    // The enable has one row.
    let mut olmcs = vec![unused(); 10];
    olmcs[4] = OLMC {
        tri_con: Some(term(6, rows(2))),
        ..output(PinMode::Tristate, term(5, rows(1)))
    };
    assert_eq!(
        code_of(build(&blueprint(Chip::GAL22V10, olmcs))),
        Error { code: ErrorCode::MoreThanOneProduct, line: 6 }
    );
}

#[test]
fn pin_diagnostics_depend_on_the_inferred_mode() {
    // Pin 15 has no path into the array in simple mode.
    let mut olmcs = vec![unused(); 8];
    olmcs[0] = output(PinMode::Combinatorial, term(1, vec![vec![pin(15)]]));
    assert_eq!(
        code_of(build(&blueprint(Chip::GAL16V8, olmcs))),
        Error { code: ErrorCode::BadAnalysis, line: 1 }
    );
    // In complex mode it has, but pin 12 has none.
    let mut olmcs = vec![unused(); 8];
    olmcs[0] = output(PinMode::Tristate, term(2, vec![vec![pin(15), pin(12)]]));
    assert_eq!(
        code_of(build(&blueprint(Chip::GAL16V8, olmcs))),
        Error { code: ErrorCode::NotAnComplexModeInput { pin: 12 }, line: 2 }
    );
    // In registered mode pin 1 is the clock.
    let mut olmcs = vec![unused(); 8];
    olmcs[0] = output(PinMode::Registered, term(3, vec![vec![pin(12), pin(1)]]));
    assert_eq!(
        code_of(build(&blueprint(Chip::GAL16V8, olmcs))),
        Error {
            code: ErrorCode::ReservedRegisteredInput { pin: 1, name: "Clock" },
            line: 3
        }
    );
    let mut olmcs = vec![unused(); 10];
    olmcs[0] = output(PinMode::Combinatorial, term(4, vec![vec![pin(1)]]));
    assert_eq!(
        code_of(build(&blueprint(Chip::GAL20RA10, olmcs))),
        Error {
            code: ErrorCode::ReservedInputGAL20RA10 { pin: 1, name: "/PL" },
            line: 4
        }
    );
    let mut olmcs = vec![unused(); 10];
    olmcs[0] = output(PinMode::Combinatorial, term(5, vec![vec![pin(12)]]));
    assert_eq!(
        code_of(build(&blueprint(Chip::GAL22V10, olmcs))),
        Error { code: ErrorCode::BadPower, line: 5 }
    );
}

#[test]
fn empty_design_blows_every_block() {
    for chip in CHIPS {
        let gal = build(&empty(chip)).unwrap();
        assert_eq!(gal.chip, chip);
        let n = chip.num_olmcs();
        assert_eq!(gal.xor, vec![false; n]);
        assert_eq!(gal.sig, vec![true; 64]);
        assert_eq!(gal.pt, vec![true; 64]);
        match chip {
            Chip::GAL16V8 | Chip::GAL20V8 => {
                assert_eq!((gal.syn, gal.ac0), (true, false));
                assert_eq!(gal.ac1, vec![false; n]);
            }
            Chip::GAL22V10 => {
                assert_eq!((gal.syn, gal.ac0), (false, false));
                assert_eq!(gal.ac1, vec![false; n]);
            }
            Chip::GAL20RA10 => {
                assert_eq!((gal.syn, gal.ac0), (false, false));
                assert_eq!(gal.ac1, vec![true; n]);
            }
        }
        assert_eq!(gal.fuses, vec![false; chip.logic_size()]);
    }
}

#[test]
fn design_on_the_gal22v10() {
    let mut olmcs = vec![unused(); 10];
    // Pin 23: registered, active high, read back by pin 14.
    olmcs[9] = OLMC {
        active: Active::High,
        feedback: true,
        ..output(PinMode::Registered, term(1, vec![vec![pin(2)], vec![not(3)]]))
    };
    // Pin 22: registered, active low.
    olmcs[8] = OLMC { feedback: true, ..output(PinMode::Registered, term(2, vec![vec![pin(4)]])) };
    // Pin 14: combinatorial, reads both back.
    olmcs[0] = OLMC {
        active: Active::High,
        tri_con: None,
        ..output(PinMode::Combinatorial, term(3, vec![vec![pin(23), pin(22)], vec![not(23)]]))
    };
    // Pin 15: tristate with enable.
    olmcs[1] = OLMC {
        tri_con: Some(term(5, vec![vec![not(13)]])),
        ..output(PinMode::Tristate, term(4, vec![vec![pin(1)]]))
    };
    let bp = Blueprint {
        ar: Some(term(6, vec![vec![pin(5)]])),
        sp: None,
        ..blueprint(Chip::GAL22V10, olmcs)
    };
    let gal = build(&bp).unwrap();
    assert_eq!((gal.syn, gal.ac0), (false, false));
    assert_eq!(
        gal.ac1,
        vec![false, false, false, false, false, false, false, false, true, true]
    );
    assert_eq!(
        gal.xor,
        vec![true, false, false, false, false, false, false, false, false, true]
    );
    assert_eq!(gal.pt, vec![true; 64]);
    // The reset, and the preset that was not given.
    assert_eq!(blown(&gal, 0), vec![16]);
    assert_eq!(blown(&gal, 131), all(&gal));
    // Pin 23 owns the rows from 1 on.
    assert_eq!(blown(&gal, 1), Vec::<usize>::new());
    assert_eq!(blown(&gal, 2), vec![4]);
    assert_eq!(blown(&gal, 3), vec![9]);
    for r in 4..10 {
        assert_eq!(blown(&gal, r), all(&gal));
    }
    // Pin 22 owns the rows from 10 on.
    assert_eq!(blown(&gal, 10), Vec::<usize>::new());
    assert_eq!(blown(&gal, 11), vec![12]);
    for r in 12..21 {
        assert_eq!(blown(&gal, r), all(&gal));
    }
    // Pin 15 owns the rows from 111 on.
    assert_eq!(blown(&gal, 111), vec![43]);
    assert_eq!(blown(&gal, 112), vec![0]);
    for r in 113..122 {
        assert_eq!(blown(&gal, r), all(&gal));
    }
    // Pin 14 owns the rows from 122 on. Pin 23 feeds column 2 and is read
    // negated; pin 22 feeds column 6.
    assert_eq!(blown(&gal, 122), Vec::<usize>::new());
    assert_eq!(blown(&gal, 123), vec![3, 6]);
    assert_eq!(blown(&gal, 124), vec![2]);
    for r in 125..131 {
        assert_eq!(blown(&gal, r), all(&gal));
    }
    // The blocks of the pins 16 to 21 are blown throughout.
    for r in 21..111 {
        assert_eq!(blown(&gal, r), all(&gal));
    }
}

#[test]
fn reset_and_preset_have_one_row_each() {
    let two = term(9, vec![vec![pin(2)], vec![pin(3)]]);
    let bp = Blueprint { ar: Some(two.clone()), ..empty(Chip::GAL22V10) };
    assert_eq!(code_of(build(&bp)), Error { code: ErrorCode::MoreThanOneProduct, line: 9 });
    let bp = Blueprint { sp: Some(two), ..empty(Chip::GAL22V10) };
    assert_eq!(code_of(build(&bp)), Error { code: ErrorCode::MoreThanOneProduct, line: 9 });
    let bp = Blueprint {
        ar: Some(term(1, vec![vec![pin(12)]])),
        sp: Some(term(2, vec![vec![pin(24)]])),
        ..empty(Chip::GAL22V10)
    };
    assert_eq!(code_of(build(&bp)), Error { code: ErrorCode::BadPower, line: 1 });
    let bp = Blueprint {
        ar: Some(term(1, vec![vec![]])),
        sp: Some(term(2, vec![vec![not(23)]])),
        ..empty(Chip::GAL22V10)
    };
    let mut gal = GAL::new(Chip::GAL22V10);
    assert_eq!(set_arsp_eqns(&mut gal, &bp), Ok(()));
    assert_eq!(blown(&gal, 0), Vec::<usize>::new());
    assert_eq!(blown(&gal, 131), vec![3]);
    assert_eq!(gal.fuses.iter().filter(|f| !**f).count(), 1);
}

#[test]
fn design_on_the_gal20ra10() {
    let mut olmcs = vec![unused(); 10];
    // Pin 23: registered with every control equation.
    olmcs[9] = OLMC {
        active: Active::High,
        tri_con: Some(term(2, vec![vec![pin(2)]])),
        clock: Some(term(3, vec![vec![pin(3)]])),
        arst: Some(term(4, vec![vec![pin(4)]])),
        aprst: Some(term(5, vec![vec![not(5)]])),
        ..output(PinMode::Registered, term(1, vec![vec![pin(6)], vec![pin(7)]]))
    };
    // Pin 22: registered with a clock only.
    olmcs[8] = OLMC {
        clock: Some(term(7, vec![vec![pin(14)]])),
        ..output(PinMode::Registered, term(6, vec![vec![pin(23)]]))
    };
    // Pin 21: combinatorial.
    olmcs[7] = output(PinMode::Combinatorial, term(8, vec![vec![not(2)]]));
    let gal = build(&blueprint(Chip::GAL20RA10, olmcs)).unwrap();
    assert_eq!((gal.syn, gal.ac0), (false, false));
    assert_eq!(gal.ac1, vec![true; 10]);
    assert_eq!(
        gal.xor,
        vec![true, false, false, false, false, false, false, false, false, false]
    );
    // Pin 23 owns the rows from 0 on: enable, clock, reset, preset, main.
    assert_eq!(blown(&gal, 0), vec![0]);
    assert_eq!(blown(&gal, 1), vec![4]);
    assert_eq!(blown(&gal, 2), vec![8]);
    assert_eq!(blown(&gal, 3), vec![13]);
    assert_eq!(blown(&gal, 4), vec![16]);
    assert_eq!(blown(&gal, 5), vec![20]);
    assert_eq!(blown(&gal, 6), all(&gal));
    assert_eq!(blown(&gal, 7), all(&gal));
    // Pin 22 owns the rows from 8 on. Reset and preset default to false.
    assert_eq!(blown(&gal, 8), Vec::<usize>::new());
    assert_eq!(blown(&gal, 9), vec![38]);
    assert_eq!(blown(&gal, 10), all(&gal));
    assert_eq!(blown(&gal, 11), all(&gal));
    assert_eq!(blown(&gal, 12), vec![2]);
    for r in 13..16 {
        assert_eq!(blown(&gal, r), all(&gal));
    }
    // Pin 21 owns the rows from 16 on. The clock defaults to false; reset and
    // preset are left alone.
    assert_eq!(blown(&gal, 16), Vec::<usize>::new());
    assert_eq!(blown(&gal, 17), all(&gal));
    assert_eq!(blown(&gal, 18), Vec::<usize>::new());
    assert_eq!(blown(&gal, 19), Vec::<usize>::new());
    assert_eq!(blown(&gal, 20), vec![1]);
    for r in 21..24 {
        assert_eq!(blown(&gal, r), all(&gal));
    }
    for r in 24..80 {
        assert_eq!(blown(&gal, r), all(&gal));
    }
}

#[test]
fn stages_agree_with_build() {
    let mut olmcs = vec![unused(); 8];
    olmcs[3] = OLMC {
        active: Active::High,
        ..output(PinMode::Tristate, term(1, vec![vec![pin(2), not(3)]]))
    };
    let bp = Blueprint { sig: vec![0x12, 0x34], ..blueprint(Chip::GAL20V8, olmcs) };
    let whole = build(&bp).unwrap();

    let mut gal = GAL::new(Chip::GAL20V8);
    assert_eq!(build_galxv8(&mut gal, &bp), Ok(()));
    assert_eq!(gal.fuses, whole.fuses);

    let mut gal = GAL::new(Chip::GAL20V8);
    assert_eq!(check_not_gal20ra10(&bp), Ok(()));
    set_sig(&mut gal, &bp);
    set_mode(&mut gal, &bp);
    set_tristate(&mut gal, &bp, true);
    set_xors(&mut gal, &bp);
    assert_eq!(set_core_eqns(&mut gal, &bp), Ok(()));
    set_pts(&mut gal);
    assert_eq!(gal.fuses, whole.fuses);
    assert_eq!(gal.xor, whole.xor);
    assert_eq!(gal.sig, whole.sig);
    assert_eq!(gal.ac1, whole.ac1);
    assert_eq!(gal.pt, whole.pt);
    assert_eq!((gal.syn, gal.ac0), (whole.syn, whole.ac0));
    assert_eq!((gal.syn, gal.ac0), (true, true));
}

#[test]
fn chip_builders_agree_with_build() {
    let mut olmcs = vec![unused(); 10];
    olmcs[3] = OLMC {
        clock: Some(term(2, vec![vec![pin(2)]])),
        ..output(PinMode::Registered, term(1, vec![vec![pin(2), not(3)]]))
    };
    let bp = blueprint(Chip::GAL20RA10, olmcs.clone());
    let whole = build(&bp).unwrap();
    let mut gal = GAL::new(Chip::GAL20RA10);
    assert_eq!(build_gal20ra10(&mut gal, &bp), Ok(()));
    assert_eq!(gal.fuses, whole.fuses);
    let mut gal = GAL::new(Chip::GAL20RA10);
    set_xors(&mut gal, &bp);
    assert_eq!(set_core_eqns(&mut gal, &bp), Ok(()));
    assert_eq!(set_aux_eqns(&mut gal, &bp), Ok(()));
    assert_eq!(gal.fuses, whole.fuses);

    olmcs[3].clock = None;
    let bp = blueprint(Chip::GAL22V10, olmcs);
    let whole = build(&bp).unwrap();
    let mut gal = GAL::new(Chip::GAL22V10);
    assert_eq!(build_gal22v10(&mut gal, &bp), Ok(()));
    assert_eq!(gal.fuses, whole.fuses);
    assert_eq!(gal.ac1, whole.ac1);
}
