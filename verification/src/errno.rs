//! The operating system's error numbers that the mouse tells apart.

use vstd::prelude::*;

verus! {

/// The number of the error that an operation on no open file gives (EBADF).
pub open spec fn bad_descriptor_code() -> i32 {
    9
}

/// The numbers that stand for an elapsed time limit (ETIMEDOUT) on the machines
/// that Linux runs on: 145 on MIPS, 60 on SPARC, 110 everywhere else.
pub open spec fn is_timeout_code(code: i32) -> bool {
    code == 110 || code == 145 || code == 60
}

/// Reads `libc::EBADF`, which is 9 on Linux whatever the machine.
#[verifier::external_body]
pub(crate) fn ebadf() -> (code: i32)
    ensures
        code == bad_descriptor_code(),
{
    libc::EBADF
}

/// Reads `libc::ETIMEDOUT`, which on Linux is one of three numbers; which one
/// the machine decides.
#[verifier::external_body]
fn etimedout() -> (code: i32)
    ensures
        is_timeout_code(code),
{
    libc::ETIMEDOUT
}

/// Whether the code is what this machine gives for an elapsed time limit.
pub closed spec fn this_machines_timeout_code(code: i32) -> bool {
    call_ensures(etimedout, (), code)
}

/// What came of the attempt to write the class of device to the controller.
#[derive(Clone, Copy, Debug, PartialEq, Eq, Structural)]
pub enum ClassWriteOutcome {
    /// The controller took the class.
    Written,
    /// The controller did not answer in time; the class may have been written.
    TimedOut,
    /// The attempt failed for another reason.
    Failed,
}

/// What a write of the class came to, where `timeout_code` is the number of an
/// elapsed time limit. `result` holds the number of the system error that ended
/// the attempt, where there is one.
pub open spec fn class_write_outcome_spec(
    result: Result<(), Option<i32>>,
    timeout_code: i32,
) -> ClassWriteOutcome {
    match result {
        Ok(_) => ClassWriteOutcome::Written,
        Err(code) => if code == Some(timeout_code) {
            ClassWriteOutcome::TimedOut
        } else {
            ClassWriteOutcome::Failed
        },
    }
}

/// Sorts the result of a write of the class, given the number of an elapsed time
/// limit.
pub fn classify_class_write(result: Result<(), Option<i32>>, timeout_code: i32) -> (outcome:
    ClassWriteOutcome)
    ensures
        outcome == class_write_outcome_spec(result, timeout_code),
        outcome == ClassWriteOutcome::Written <==> result is Ok,
        outcome == ClassWriteOutcome::TimedOut <==> result == Err::<(), Option<i32>>(
            Some(timeout_code),
        ),
{
    match result {
        Ok(_) => ClassWriteOutcome::Written,
        Err(Some(code)) => {
            if code == timeout_code {
                ClassWriteOutcome::TimedOut
            } else {
                ClassWriteOutcome::Failed
            }
        },
        Err(None) => ClassWriteOutcome::Failed,
    }
}

/// Sorts the result of a write of the class by this machine's number for an
/// elapsed time limit.
pub fn class_write_outcome(result: Result<(), Option<i32>>) -> (outcome: ClassWriteOutcome)
    ensures
        exists|timeout_code: i32| #[trigger]
            this_machines_timeout_code(timeout_code) && outcome == class_write_outcome_spec(
                result,
                timeout_code,
            ) && (outcome == ClassWriteOutcome::TimedOut <==> result == Err::<(), Option<i32>>(
                Some(timeout_code),
            )),
        result is Ok <==> outcome == ClassWriteOutcome::Written,
        outcome == ClassWriteOutcome::TimedOut ==> (result matches Err(Some(code))
            && is_timeout_code(code)),
{
    let timeout_code: i32 = etimedout();
    proof {
        law_timeout_code_is_the_systems(timeout_code);
    }
    classify_class_write(result, timeout_code)
}

/// A write of the class is reported as written exactly where it succeeded, as timed out
/// exactly where it ended with the code of an elapsed time limit, and otherwise as failed.
pub proof fn law_class_writes_are_told_apart(result: Result<(), Option<i32>>, timeout_code: i32)
    ensures
        class_write_outcome_spec(result, timeout_code) == ClassWriteOutcome::Written <==> result
            is Ok,
        class_write_outcome_spec(result, timeout_code) == ClassWriteOutcome::TimedOut <==> result
            == Err::<(), Option<i32>>(Some(timeout_code)),
        class_write_outcome_spec(result, timeout_code) == ClassWriteOutcome::Failed <==> result
            is Err && result->Err_0 != Some(timeout_code),
{
}

/// The machine's code for an elapsed time limit is what the system's headers give, and
/// nothing else.
proof fn law_timeout_code_is_the_systems(code: i32)
    ensures
        this_machines_timeout_code(code) <==> call_ensures(etimedout, (), code),
{
}

/// The codes are those of Linux.
pub proof fn law_codes_are_those_of_linux(code: i32)
    ensures
        bad_descriptor_code() == 9,
        is_timeout_code(code) <==> code == 60 || code == 110 || code == 145,
        this_machines_timeout_code(code) ==> code == 60 || code == 110 || code == 145,
{
}

} // verus!
