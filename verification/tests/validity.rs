use galette::blueprint::{Active, Blueprint, PinMode, OLMC};
use galette::chips::{Bounds, Chip};
use galette::columns::lookup;
use galette::errors::{at_line, Error, ErrorCode};
use galette::gal::{opt_has_pins_on, Mode, Pin, Term, GAL};
use galette::gal_builder::build;

const CHIPS: [Chip; 4] = [Chip::GAL16V8, Chip::GAL20V8, Chip::GAL22V10, Chip::GAL20RA10];
const MODES: [Mode; 3] = [Mode::Simple, Mode::Complex, Mode::Registered];

fn term_of(pins: Vec<Vec<usize>>) -> Term {
    Term {
        line_num: 1,
        pins: pins
            .into_iter()
            .map(|row| row.into_iter().map(|pin| Pin { pin, neg: false }).collect())
            .collect(),
    }
}

fn unused() -> OLMC {
    OLMC {
        active: Active::Low,
        output: None,
        tri_con: None,
        clock: None,
        arst: None,
        aprst: None,
        feedback: false,
    }
}

#[test]
fn at_line_tags_the_error_only() {
    assert_eq!(at_line(5, Ok::<u8, ErrorCode>(3)), Ok(3));
    assert_eq!(
        at_line(5, Err::<u8, ErrorCode>(ErrorCode::NoCLK)),
        Err(Error { code: ErrorCode::NoCLK, line: 5 })
    );
    assert_eq!(
        at_line(0, Err::<(), ErrorCode>(ErrorCode::TooManyProducts { max: 7, seen: 9 })),
        Err(Error { code: ErrorCode::TooManyProducts { max: 7, seen: 9 }, line: 0 })
    );
}

#[test]
fn lookup_agrees_with_the_fuse_state() {
    for chip in CHIPS {
        for mode in MODES {
            let mut gal = GAL::new(chip);
            if chip.has_modes() {
                gal.set_mode(mode);
            }
            for pin in 1..=chip.num_pins() {
                assert_eq!(lookup(chip, mode, pin), gal.pin_to_column(pin));
            }
        }
    }
    assert_eq!(lookup(Chip::GAL16V8, Mode::Simple, 1), Ok(2));
    assert_eq!(lookup(Chip::GAL16V8, Mode::Registered, 19), Ok(2));
    assert_eq!(lookup(Chip::GAL22V10, Mode::Complex, 13), Ok(42));
    assert_eq!(lookup(Chip::GAL20V8, Mode::Simple, 18), Err(ErrorCode::BadAnalysis));
}

#[test]
fn bounds_fit_inside_the_array() {
    let b = |start_row, max_row, row_offset| Bounds { start_row, max_row, row_offset };
    assert!(b(0, 64, 0).fits_chip(Chip::GAL16V8));
    assert!(b(63, 1, 0).fits_chip(Chip::GAL16V8));
    assert!(b(56, 8, 9).fits_chip(Chip::GAL16V8));
    assert!(!b(57, 8, 0).fits_chip(Chip::GAL16V8));
    assert!(!b(64, 1, 0).fits_chip(Chip::GAL16V8));
    assert!(!b(0, 0, 0).fits_chip(Chip::GAL16V8));
    assert!(!b(0, 65, 0).fits_chip(Chip::GAL16V8));
    assert!(!b(usize::MAX, 1, 0).fits_chip(Chip::GAL16V8));
    assert!(!b(1, usize::MAX, 0).fits_chip(Chip::GAL16V8));
    assert!(b(131, 1, 0).fits_chip(Chip::GAL22V10));
    assert!(!b(131, 1, 0).fits_chip(Chip::GAL20RA10));
    for chip in CHIPS {
        for i in 0..chip.num_olmcs() {
            assert!(chip.get_bounds(i).fits_chip(chip));
        }
    }
}

#[test]
fn pins_of_a_term_on_a_chip() {
    assert!(term_of(vec![]).has_pins_on(Chip::GAL16V8));
    assert!(term_of(vec![vec![], vec![]]).has_pins_on(Chip::GAL16V8));
    assert!(term_of(vec![vec![1, 20], vec![10]]).has_pins_on(Chip::GAL16V8));
    assert!(!term_of(vec![vec![1, 20], vec![21]]).has_pins_on(Chip::GAL16V8));
    assert!(term_of(vec![vec![1, 20], vec![21]]).has_pins_on(Chip::GAL20V8));
    assert!(!term_of(vec![vec![0]]).has_pins_on(Chip::GAL20V8));
    assert!(!term_of(vec![vec![3], vec![4, 25, 5]]).has_pins_on(Chip::GAL22V10));
    assert!(term_of(vec![vec![24]]).has_pins_on(Chip::GAL20RA10));
    assert!(opt_has_pins_on(&None, Chip::GAL16V8));
    assert!(opt_has_pins_on(&Some(term_of(vec![vec![20]])), Chip::GAL16V8));
    assert!(!opt_has_pins_on(&Some(term_of(vec![vec![21]])), Chip::GAL16V8));
}

#[test]
fn pins_of_an_olmc_on_a_chip() {
    let good = Some(term_of(vec![vec![2]]));
    let bad = Some(term_of(vec![vec![2, 99]]));
    assert!(unused().has_pins_on(Chip::GAL16V8));
    let full = OLMC {
        output: Some((PinMode::Registered, term_of(vec![vec![3]]))),
        tri_con: good.clone(),
        clock: good.clone(),
        arst: good.clone(),
        aprst: good.clone(),
        ..unused()
    };
    assert!(full.has_pins_on(Chip::GAL16V8));
    let cases = [
        OLMC { output: Some((PinMode::Tristate, term_of(vec![vec![99]]))), ..full.clone() },
        OLMC { tri_con: bad.clone(), ..full.clone() },
        OLMC { clock: bad.clone(), ..full.clone() },
        OLMC { arst: bad.clone(), ..full.clone() },
        OLMC { aprst: bad.clone(), ..full.clone() },
    ];
    for olmc in cases {
        assert!(!olmc.has_pins_on(Chip::GAL22V10));
    }
}

#[test]
fn well_formed_designs() {
    for chip in CHIPS {
        let n = chip.num_olmcs();
        let good = Blueprint { chip, sig: vec![], olmcs: vec![unused(); n], ar: None, sp: None };
        assert!(good.is_wf());
        assert!(build(&good).is_ok());
        let short = Blueprint { olmcs: vec![unused(); n - 1], ..good_copy(&good) };
        assert!(!short.is_wf());
        let long = Blueprint { olmcs: vec![unused(); n + 1], ..good_copy(&good) };
        assert!(!long.is_wf());
        let mut olmcs = vec![unused(); n];
        olmcs[n - 1].tri_con = Some(term_of(vec![vec![1], vec![2, 77]]));
        let stray = Blueprint { olmcs, ..good_copy(&good) };
        assert!(!stray.is_wf());
        let ar = Blueprint { ar: Some(term_of(vec![vec![0]])), ..good_copy(&good) };
        assert!(!ar.is_wf());
        let sp = Blueprint { sp: Some(term_of(vec![vec![25]])), ..good_copy(&good) };
        assert!(!sp.is_wf());
        let both = Blueprint {
            ar: Some(term_of(vec![vec![1]])),
            sp: Some(term_of(vec![vec![chip.num_pins()]])),
            ..good_copy(&good)
        };
        assert!(both.is_wf());
    }
}

fn good_copy(bp: &Blueprint) -> Blueprint {
    Blueprint {
        chip: bp.chip,
        sig: bp.sig.clone(),
        olmcs: bp.olmcs.clone(),
        ar: bp.ar.clone(),
        sp: bp.sp.clone(),
    }
}

#[test]
fn well_formed_fuse_states() {
    for chip in CHIPS {
        let gal = GAL::new(chip);
        assert!(gal.is_wf());
        let mut short = GAL::new(chip);
        short.fuses.pop();
        assert!(!short.is_wf());
        let mut long = GAL::new(chip);
        long.xor.push(true);
        assert!(!long.is_wf());
        let mut sig = GAL::new(chip);
        sig.sig.truncate(63);
        assert!(!sig.is_wf());
        let mut ac1 = GAL::new(chip);
        ac1.ac1.clear();
        assert!(!ac1.is_wf());
        let mut pt = GAL::new(chip);
        pt.pt.push(false);
        assert!(!pt.is_wf());
    }
    let mut other = GAL::new(Chip::GAL16V8);
    other.chip = Chip::GAL20V8;
    assert!(!other.is_wf());
}
