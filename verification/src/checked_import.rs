//! The decisions of an import that is checked, once, against the layout
//! report of the library it comes from.
//!
//! The import keeps a status byte that any thread may read: it starts
//! [`UNCHECKED`], is [`LOCKED`] by the one thread that stores a compatible
//! symbol, then [`VALIDATED`]; or it becomes [`INVALIDATED`] when the symbol
//! turned out incompatible.
use vstd::prelude::*;

verus! {

/// The import has not been checked yet.
pub const UNCHECKED: u8 = 0;

/// The import was found compatible and stored.
pub const VALIDATED: u8 = 1;

/// The import was found incompatible.
pub const INVALIDATED: u8 = 2;

/// A thread is storing the import.
pub const LOCKED: u8 = 3;

/// What a reader of the import does next.
#[derive(Debug, Clone, Copy, PartialEq, Eq, Structural)]
pub enum CheckStep {
    /// Runs the validator against the library's report.
    RunValidator,
    /// Returns the stored import.
    ReturnImport,
    /// Returns the report of the mismatch.
    ReturnMismatch,
    /// Waits for the thread that holds the lock, then reads the status again.
    Wait,
}

/// The step that follows reading `status`.
pub fn step_on_status(status: u8) -> (r: CheckStep)
    ensures
        r == step_on_status_spec(status),
        status == UNCHECKED ==> r == CheckStep::RunValidator,
        status == VALIDATED ==> r == CheckStep::ReturnImport,
        status == INVALIDATED ==> r == CheckStep::ReturnMismatch,
        status != UNCHECKED && status != VALIDATED && status != INVALIDATED ==> r == CheckStep::Wait,
{
    if status == UNCHECKED {
        CheckStep::RunValidator
    } else if status == VALIDATED {
        CheckStep::ReturnImport
    } else if status == INVALIDATED {
        CheckStep::ReturnMismatch
    } else {
        CheckStep::Wait
    }
}

/// After the validator ran: the status to store, if any, and the step that follows.
///
/// `compatible` tells whether the validator found the symbol compatible;
/// `locked` whether this reader then moved the status from [`UNCHECKED`] to
/// [`LOCKED`], in which case it stores the import before [`VALIDATED`].
pub fn step_on_check(compatible: bool, locked: bool) -> (r: (Option<u8>, CheckStep))
    ensures
        r == step_on_check_spec(compatible, locked),
        compatible && locked ==> r == (Some(VALIDATED), CheckStep::ReturnImport),
        compatible && !locked ==> r == (None::<u8>, CheckStep::Wait),
        !compatible ==> r == (Some(INVALIDATED), CheckStep::ReturnMismatch),
{
    if !compatible {
        (Some(INVALIDATED), CheckStep::ReturnMismatch)
    } else if locked {
        (Some(VALIDATED), CheckStep::ReturnImport)
    } else {
        (None, CheckStep::Wait)
    }
}

/// Once checked, an import stays as it was found: reading [`VALIDATED`] or
/// [`INVALIDATED`] never leads to running the validator again, and a reader only
/// returns the import after it was validated.
pub proof fn lemma_checked_is_final(status: u8, compatible: bool, locked: bool)
    ensures
        status == VALIDATED || status == INVALIDATED ==> step_on_status_spec(status) != CheckStep::RunValidator,
        step_on_status_spec(status) == CheckStep::ReturnImport ==> status == VALIDATED,
        step_on_check_spec(compatible, locked).1 == CheckStep::ReturnImport ==> step_on_check_spec(
            compatible,
            locked,
        ).0 == Some(VALIDATED),
{
}

/// The step that follows reading `status`.
pub open spec fn step_on_status_spec(status: u8) -> CheckStep {
    if status == UNCHECKED {
        CheckStep::RunValidator
    } else if status == VALIDATED {
        CheckStep::ReturnImport
    } else if status == INVALIDATED {
        CheckStep::ReturnMismatch
    } else {
        CheckStep::Wait
    }
}

/// The status to store and the step that follows a run of the validator.
pub open spec fn step_on_check_spec(compatible: bool, locked: bool) -> (Option<u8>, CheckStep) {
    if !compatible {
        (Some(INVALIDATED), CheckStep::ReturnMismatch)
    } else if locked {
        (Some(VALIDATED), CheckStep::ReturnImport)
    } else {
        (None, CheckStep::Wait)
    }
}

/// The status left by a read on one thread, where no other thread holds the
/// lock: the validator, when it runs, reports `compatible`.
pub open spec fn status_after_read(status: u8, compatible: bool) -> u8 {
    if step_on_status_spec(status) == CheckStep::RunValidator {
        match step_on_check_spec(compatible, true).0 {
            Some(stored) => stored,
            None => status,
        }
    } else {
        status
    }
}

/// What such a read returns: [`CheckStep::ReturnImport`] or
/// [`CheckStep::ReturnMismatch`] once it has returned.
pub open spec fn step_of_read(status: u8, compatible: bool) -> CheckStep {
    if step_on_status_spec(status) == CheckStep::RunValidator {
        step_on_check_spec(compatible, true).1
    } else {
        step_on_status_spec(status)
    }
}

/// The status left by successive reads, the `i`-th one with a validator that
/// reports `compatible[i]` should it run.
pub open spec fn status_after_reads(status: u8, compatible: Seq<bool>) -> u8
    decreases compatible.len(),
{
    if compatible.len() == 0 {
        status
    } else {
        status_after_read(status_after_reads(status, compatible.drop_last()), compatible.last())
    }
}

/// The first read of an unchecked import returns the import exactly when the
/// validator found it compatible, and the mismatch otherwise; every later read
/// returns the same, without running the validator again.
pub proof fn lemma_first_read_is_final(first: bool, later: Seq<bool>, i: int)
    requires
        0 <= i < later.len(),
    ensures
        step_of_read(UNCHECKED, first) == (if first { CheckStep::ReturnImport } else { CheckStep::ReturnMismatch }),
        step_on_status_spec(status_after_reads(status_after_read(UNCHECKED, first), later.take(i)))
            != CheckStep::RunValidator,
        step_of_read(status_after_reads(status_after_read(UNCHECKED, first), later.take(i)), later[i])
            == step_of_read(UNCHECKED, first),
{
    let s1 = status_after_read(UNCHECKED, first);
    assert(s1 == VALIDATED || s1 == INVALIDATED);
    lemma_reads_keep_checked_status(s1, later.take(i));
}

/// Reads leave a checked status as it is.
proof fn lemma_reads_keep_checked_status(status: u8, compatible: Seq<bool>)
    requires
        status == VALIDATED || status == INVALIDATED,
    ensures
        status_after_reads(status, compatible) == status,
    decreases compatible.len(),
{
    if compatible.len() > 0 {
        lemma_reads_keep_checked_status(status, compatible.drop_last());
    }
}

/// Whether the first read of an import still has to call the canary: true for
/// the reader that swapped the flag from 0.
pub fn canary_due(previous_flag: u8) -> (r: bool)
    ensures
        r == (previous_flag == 0),
{
    previous_flag == 0
}

} // verus!
