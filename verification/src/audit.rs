//! The verdict of an integrity audit.
use vstd::prelude::*;

verus! {

/// What came of auditing an archived block against the ledger.
#[derive(Debug, Clone, Copy, PartialEq, Eq, Structural)]
pub enum AuditOutcome {
    /// There is no block file.
    MissingBlock,
    /// There is no ledger file.
    MissingLedger,
    /// The block could not be read back.
    Corrupted,
    /// The block was read back and compared with the ledger.
    Compared { valid: bool },
}

/// The exit code of the process: 0 for a valid block, 1 for a missing input, 2
/// for a block whose integrity is broken.
pub open spec fn exit_code_of(outcome: AuditOutcome) -> i32 {
    match outcome {
        AuditOutcome::MissingBlock => 1,
        AuditOutcome::MissingLedger => 1,
        AuditOutcome::Corrupted => 2,
        AuditOutcome::Compared { valid } => if valid {
            0
        } else {
            2
        },
    }
}

/// The exit code of the process.
pub fn exit_code(outcome: AuditOutcome) -> (r: i32)
    ensures
        r == exit_code_of(outcome),
{
    match outcome {
        AuditOutcome::MissingBlock => 1,
        AuditOutcome::MissingLedger => 1,
        AuditOutcome::Corrupted => 2,
        AuditOutcome::Compared { valid } => if valid {
            0
        } else {
            2
        },
    }
}

/// The first input that is missing, where one is: the block is looked for
/// before the ledger.
pub open spec fn missing_of(block_exists: bool, ledger_exists: bool) -> Option<AuditOutcome> {
    if !block_exists {
        Some(AuditOutcome::MissingBlock)
    } else if !ledger_exists {
        Some(AuditOutcome::MissingLedger)
    } else {
        None
    }
}

/// The first input that is missing, where one is.
pub fn missing_input(block_exists: bool, ledger_exists: bool) -> (r: Option<AuditOutcome>)
    ensures
        r == missing_of(block_exists, ledger_exists),
{
    if !block_exists {
        Some(AuditOutcome::MissingBlock)
    } else if !ledger_exists {
        Some(AuditOutcome::MissingLedger)
    } else {
        None
    }
}

/// The process succeeds exactly when a block was compared and found valid: a
/// script can never take broken evidence for good.
pub proof fn success_means_valid(outcome: AuditOutcome)
    ensures
        exit_code_of(outcome) == 0 <==> outcome == (AuditOutcome::Compared { valid: true }),
{
}

}
