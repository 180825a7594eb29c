//! Diagnostics reported while a design is encoded into fuses.

use vstd::prelude::*;

verus! {

/// Line of the design source that an equation came from.
pub type LineNum = u32;

/// The kind of equation attached to an output pin besides its main equation.
#[derive(Clone, Copy, Debug, PartialEq, Eq, Structural)]
pub enum OutputSuffix {
    /// Asynchronous preset.
    APRST,
    /// Asynchronous reset.
    ARST,
    /// Clock.
    CLK,
    /// Tristate enable.
    E,
}

/// What went wrong.
#[derive(Clone, Copy, Debug, PartialEq, Eq)]
pub enum ErrorCode {
    /// The pin cannot be routed into the logic array in the current mode.
    BadAnalysis,
    /// The pin is a power or ground pin.
    BadPower,
    /// The pin is taken by the clock or output enable in registered mode.
    ReservedRegisteredInput { pin: usize, name: &'static str },
    /// The pin cannot serve as an input in complex mode.
    NotAnComplexModeInput { pin: usize },
    /// The pin has a fixed function on the GAL20RA10.
    ReservedInputGAL20RA10 { pin: usize, name: &'static str },
    /// A second product was given where only a single row exists.
    MoreThanOneProduct,
    /// More products were given than the rows reserved for them.
    TooManyProducts { max: usize, seen: usize },
    /// A control equation was given for a chip without that control line.
    DisallowedControl { suffix: OutputSuffix },
    /// An auxiliary equation was given for a pin without a main equation.
    UndefinedOutput { suffix: OutputSuffix },
    /// A control equation was given for an output that is not registered.
    InvalidControl { suffix: OutputSuffix },
    /// A registered output has no clock equation.
    NoCLK,
    /// A tristate enable was given for a registered output that cannot have one.
    TristateReg,
    /// A tristate enable was given for a plain combinatorial output.
    UnmatchedTristate,
}

/// A diagnostic together with the source line it refers to.
#[derive(Clone, Copy, Debug, PartialEq, Eq)]
pub struct Error {
    pub code: ErrorCode,
    pub line: LineNum,
}

/// Tags the error of `res`, if any, with `line`; a success passes through.
pub open spec fn spec_at_line<Val>(line: LineNum, res: Result<Val, ErrorCode>) -> Result<Val, Error> {
    match res {
        Ok(v) => Ok(v),
        Err(code) => Err(Error { code, line }),
    }
}

/// Tags the error of `res`, if any, with `line`.
pub fn at_line<Val>(line: LineNum, res: Result<Val, ErrorCode>) -> (tagged: Result<Val, Error>)
    ensures
        tagged == spec_at_line(line, res),
{
    match res {
        Ok(v) => Ok(v),
        Err(code) => Err(Error { code, line }),
    }
}

////////////////////////////////////////////////////////////////////////
// The first failure of a sequence of steps.
//
// Encoding stops at the first step that fails. What a run of steps reports
// is therefore what its first failing step reports.

/// The first value among `step(from)`, ..., `step(until - 1)`.
pub open spec fn first_some<T>(step: spec_fn(int) -> Option<T>, from: int, until: int) -> Option<T>
    decreases until - from,
{
    if from < until {
        match step(from) {
            Some(value) => Some(value),
            None => first_some(step, from + 1, until),
        }
    } else {
        None
    }
}

/// `first` if it holds a value, else `second`.
pub open spec fn first_of<T>(first: Option<T>, second: Option<T>) -> Option<T> {
    match first {
        Some(value) => Some(value),
        None => second,
    }
}

/// [`first_some`] finds nothing exactly if no step yields a value.
pub proof fn lemma_first_some_none<T>(step: spec_fn(int) -> Option<T>, from: int, until: int)
    ensures
        first_some(step, from, until) is None <==> forall|k: int|
            from <= k < until ==> #[trigger] step(k) is None,
    decreases until - from,
{
    if from < until {
        lemma_first_some_none(step, from + 1, until);
        if first_some(step, from, until) is None {
            assert forall|k: int| from <= k < until implies #[trigger] step(k) is None by {
                if k > from {
                    assert(from + 1 <= k < until);
                }
            }
        }
    }
}

/// What [`first_some`] finds is the value of a step before which no step
/// yields a value.
pub proof fn lemma_first_some_is_first<T>(step: spec_fn(int) -> Option<T>, from: int, until: int) -> (at:
    int)
    requires
        first_some(step, from, until) is Some,
    ensures
        from <= at < until,
        step(at) == first_some(step, from, until),
        forall|k: int| from <= k < at ==> #[trigger] step(k) is None,
    decreases until - from,
{
    if step(from) is Some {
        from
    } else {
        lemma_first_some_is_first(step, from + 1, until)
    }
}

/// A value before which no step yields a value is what [`first_some`] finds.
pub proof fn lemma_first_some_at<T>(step: spec_fn(int) -> Option<T>, from: int, until: int, at: int)
    requires
        from <= at < until,
        step(at) is Some,
        forall|k: int| from <= k < at ==> #[trigger] step(k) is None,
    ensures
        first_some(step, from, until) == step(at),
    decreases at - from,
{
    if from < at {
        assert(step(from) is None);
        lemma_first_some_at(step, from + 1, until, at);
    }
}

/// Steps that yield the same at every position have the same first value.
pub proof fn lemma_first_some_agree<T>(
    step1: spec_fn(int) -> Option<T>,
    step2: spec_fn(int) -> Option<T>,
    from: int,
    until: int,
)
    requires
        forall|k: int| from <= k < until ==> #[trigger] step1(k) == step2(k),
    ensures
        first_some(step1, from, until) == first_some(step2, from, until),
    decreases until - from,
{
    if from < until {
        assert(step1(from) == step2(from));
        lemma_first_some_agree(step1, step2, from + 1, until);
    }
}

} // verus!
