//! Upload retry strategy: one attempt in passive mode, at most one retry in
//! extended-passive mode when the failure looks like a passive-mode NAT
//! mismatch, and an unconditional reset of the transport mode afterwards.

use vstd::prelude::*;

verus! {

/// FTP data-channel negotiation mode used by transfers.
#[derive(Clone, Copy, PartialEq, Eq, Structural, Debug)]
pub enum TransferMode {
    Passive,
    ExtendedPassive,
}

/// A failed transfer attempt, reduced to plain values.
pub enum TransferFault {
    /// The control or data connection failed at the socket level.
    Connection { timed_out: bool, os_code: Option<i32>, message: String },
    /// The server answered with an unexpected FTP status code.
    Protocol { code: u32, message: String },
    /// Any other failure.
    Other { message: String },
}

/// The Windows socket error code for a connection that timed out.
pub const OS_CODE_TIMED_OUT: i32 = 10060;

/// The FTP status code for a data connection that could not be opened.
pub const STATUS_CANT_OPEN_DATA: u32 = 425;

/// The faults worth one retry in extended-passive mode: a connection-level
/// timeout, the OS-specific "connection timed out" code, or FTP status 425
/// (cannot open data connection). Everything else is terminal.
pub open spec fn retryable_spec(f: TransferFault) -> bool {
    match f {
        TransferFault::Connection { timed_out, os_code, .. } => timed_out || os_code == Some(
            OS_CODE_TIMED_OUT,
        ),
        TransferFault::Protocol { code, .. } => code == STATUS_CANT_OPEN_DATA,
        TransferFault::Other { .. } => false,
    }
}

/// Whether a fault looks like a passive-mode NAT mismatch worth a retry.
pub fn is_retryable(f: &TransferFault) -> (r: bool)
    ensures
        r == retryable_spec(*f),
{
    match f {
        TransferFault::Connection { timed_out, os_code, .. } => *timed_out || match os_code {
            Some(c) => *c == OS_CODE_TIMED_OUT,
            None => false,
        },
        TransferFault::Protocol { code, .. } => *code == STATUS_CANT_OPEN_DATA,
        TransferFault::Other { .. } => false,
    }
}

#[derive(Clone, Copy, PartialEq, Eq, Structural, Debug)]
pub enum UploadPhase {
    FirstAttempt,
    RetryAttempt,
    Finished,
}

/// The upload retry state machine.
pub struct UploadStrategy {
    pub phase: UploadPhase,
}

impl UploadStrategy {
    /// Begin an upload: the first attempt runs in passive mode.
    pub fn begin() -> (r: (UploadStrategy, TransferMode))
        ensures
            r.0.phase == UploadPhase::FirstAttempt,
            r.1 == TransferMode::Passive,
    {
        (UploadStrategy { phase: UploadPhase::FirstAttempt }, TransferMode::Passive)
    }

    /// Report a failed attempt. `Some(mode)` asks for exactly one more
    /// attempt in that mode; `None` ends the upload with this fault. A retry
    /// is granted only to the first attempt, and only for a retryable fault.
    pub fn on_failure(&mut self, fault: &TransferFault) -> (next: Option<TransferMode>)
        requires
            old(self).phase != UploadPhase::Finished,
        ensures
            next == if old(self).phase == UploadPhase::FirstAttempt && retryable_spec(*fault) {
                Some(TransferMode::ExtendedPassive)
            } else {
                None::<TransferMode>
            },
            final(self).phase == if next is Some {
                UploadPhase::RetryAttempt
            } else {
                UploadPhase::Finished
            },
    {
        match self.phase {
            UploadPhase::FirstAttempt => {
                if is_retryable(fault) {
                    self.phase = UploadPhase::RetryAttempt;
                    Some(TransferMode::ExtendedPassive)
                } else {
                    self.phase = UploadPhase::Finished;
                    None
                }
            },
            _ => {
                self.phase = UploadPhase::Finished;
                None
            },
        }
    }

    /// Report a successful attempt: the upload is finished.
    pub fn on_success(&mut self)
        ensures
            final(self).phase == UploadPhase::Finished,
    {
        self.phase = UploadPhase::Finished;
    }

    /// Report a failed attempt straight from the FTP client's error value:
    /// reduces the error to a [`TransferFault`] and decides as `on_failure`
    /// does, whatever the reduction returned.
    pub fn on_ftp_error(&mut self, err: &suppaftp::FtpError) -> (r: (
        Option<TransferMode>,
        TransferFault,
    ))
        requires
            old(self).phase != UploadPhase::Finished,
        ensures
            r.0 == if old(self).phase == UploadPhase::FirstAttempt && retryable_spec(r.1) {
                Some(TransferMode::ExtendedPassive)
            } else {
                None::<TransferMode>
            },
            final(self).phase == if r.0 is Some {
                UploadPhase::RetryAttempt
            } else {
                UploadPhase::Finished
            },
    {
        let fault = fault_of_ftp_error(err);
        let next = self.on_failure(&fault);
        (next, fault)
    }
}

#[verifier::external_type_specification]
#[verifier::external_body]
pub struct ExFtpError(suppaftp::FtpError);

/// Relies on `suppaftp::FtpError` (and the `std::io::Error` inside its
/// connection variant): reads which variant the error is, the io error's
/// kind and raw OS code, the response's status code, and the error's
/// display text.
#[verifier::external_body]
pub(crate) fn fault_of_ftp_error(err: &suppaftp::FtpError) -> TransferFault {
    match err {
        suppaftp::FtpError::ConnectionError(io_err) => TransferFault::Connection {
            timed_out: io_err.kind() == std::io::ErrorKind::TimedOut,
            os_code: io_err.raw_os_error(),
            message: err.to_string(),
        },
        suppaftp::FtpError::UnexpectedResponse(response) => TransferFault::Protocol {
            code: response.status.code(),
            message: err.to_string(),
        },
        _ => TransferFault::Other { message: err.to_string() },
    }
}

/// The record of one whole upload: the modes attempted in order, the final
/// outcome, and the transport mode left on the session.
pub struct UploadReport {
    pub attempts: Vec<TransferMode>,
    pub outcome: Result<(), TransferFault>,
    pub final_mode: TransferMode,
}

/// Drive a whole upload through the strategy: `first` is what the passive
/// attempt produced, `retry` what an extended-passive attempt would produce
/// (consulted only when a retry is due). A retryable first fault gets exactly
/// one retry in extended-passive mode and the retry's outcome is final; any
/// other first fault is final itself; and the transport mode ends up passive
/// whatever happened.
pub fn run_upload(first: Result<(), TransferFault>, retry: Result<(), TransferFault>) -> (r:
    UploadReport)
    ensures
        r.final_mode == TransferMode::Passive,
        r.attempts@.len() >= 1 && r.attempts@[0] == TransferMode::Passive,
        first is Ok ==> r.attempts@.len() == 1 && r.outcome is Ok,
        first matches Err(f) ==> if retryable_spec(f) {
            r.attempts@.len() == 2 && r.attempts@[1] == TransferMode::ExtendedPassive && r.outcome
                == retry
        } else {
            r.attempts@.len() == 1 && r.outcome == Err::<(), TransferFault>(f)
        },
{
    let (mut strategy, first_mode) = UploadStrategy::begin();
    let mut attempts: Vec<TransferMode> = Vec::new();
    attempts.push(first_mode);
    match first {
        Ok(()) => {
            strategy.on_success();
            UploadReport { attempts, outcome: Ok(()), final_mode: TransferMode::Passive }
        },
        Err(f) => {
            match strategy.on_failure(&f) {
                Some(mode) => {
                    attempts.push(mode);
                    match &retry {
                        Ok(_) => strategy.on_success(),
                        Err(f2) => {
                            strategy.on_failure(f2);
                        },
                    }
                    UploadReport { attempts, outcome: retry, final_mode: TransferMode::Passive }
                },
                None => UploadReport {
                    attempts,
                    outcome: Err(f),
                    final_mode: TransferMode::Passive,
                },
            }
        },
    }
}

} // verus!
