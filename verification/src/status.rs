//! Decoding one service's on-disk record set into a tagged status value.
//!
//! The filesystem probes themselves (resolving the directory, statting the
//! `down` sentinel, opening the control channel, reading the status record)
//! are performed by the caller; their outcomes arrive here as plain values,
//! and everything that is decided from them is verified.
use vstd::prelude::*;
use vstd::slice::slice_subrange;
use crate::tai::{Tai, be_val, clamped_sub, unpack};

verus! {

/// Why a service's status could not be decoded.
#[derive(Debug, Copy, Clone, PartialEq, Eq, Structural)]
pub enum SvstatError {
    /// The service's directory could not be resolved.
    UnableToChDir,
    /// The `down` sentinel exists but could not be examined.
    UnableToStatDown,
    /// The control channel refused the open in the way that marks an absent
    /// supervisor.
    SuperviseNotRunning,
    /// The control channel could not be opened for another reason.
    UnableToOpenSuperviseOk,
    /// The status record could not be opened.
    UnableToOpenSuperviseStatus,
    /// The status record did not hold exactly the fixed record length.
    StatusBadFormat,
    /// The status record could not be read.
    StatusOtherError,
}

/// The operator-requested target state recorded by the supervisor.
#[derive(Debug, Copy, Clone, PartialEq, Eq, Structural)]
pub enum SvWants {
    WantsUp,
    WantsDown,
}

/// A service's decoded status: either a fault or the fields of a well-formed
/// record.
#[derive(Debug, Copy, Clone, PartialEq, Eq, Structural)]
pub enum SvstatType {
    SvError(SvstatError),
    SvOk {
        /// The recorded process id, present only when the encoded value is
        /// nonzero.
        pid: Option<u32>,
        /// True when the `down` sentinel is absent.
        normally_up: bool,
        /// True when the paused flag byte is nonzero.
        is_paused: bool,
        /// Seconds since the recorded start instant, clamped to zero for a
        /// start instant in the future.
        duration: u64,
        /// The recorded want flag, if it names a target state.
        wants: Option<SvWants>,
    },
}

/// Outcome of statting the `down` sentinel file.
#[derive(Debug, Copy, Clone, PartialEq, Eq, Structural)]
pub enum DownProbe {
    /// The sentinel exists.
    Present,
    /// The sentinel does not exist.
    NotFound,
    /// The stat failed for another reason.
    OtherError,
}

/// Outcome of the non-blocking open of the control channel for writing.
#[derive(Debug, Copy, Clone, PartialEq, Eq, Structural)]
pub enum OkProbe {
    /// The channel opened.
    Opened,
    /// The open failed in the way that marks an absent supervisor.
    NotRunning,
    /// The open failed for another reason.
    OtherError,
}

/// Outcome of opening and reading the status record.
#[derive(Debug, Clone, PartialEq, Eq)]
pub enum StatusProbe {
    /// The bytes a single read returned, however many.
    Data(Vec<u8>),
    /// The record could not be opened.
    OpenFailed,
    /// The open succeeded but the read failed.
    ReadFailed,
}

/// The fixed length of a well-formed status record.
pub const STATUS_LEN: usize = 18;

/// The recorded process id: a little-endian 32-bit value, least significant
/// byte first.
pub open spec fn le32_val(s: Seq<u8>) -> nat {
    (s[0] + s[1] * 256 + s[2] * 65536 + s[3] * 16777216) as nat
}

/// What a well-formed record's want byte means.
pub open spec fn spec_wants(b: u8) -> Option<SvWants> {
    if b == 117 {  // 'u'
        Some(SvWants::WantsUp)
    } else if b == 100 {  // 'd'
        Some(SvWants::WantsDown)
    } else {
        None
    }
}

/// The status decoded from a well-formed record, the sentinel probe, and the
/// current instant.
pub open spec fn spec_decode_record(rec: Seq<u8>, normally_up: bool, now: Tai) -> SvstatType {
    SvstatType::SvOk {
        pid: if le32_val(rec.subrange(12, 16)) == 0 {
            None
        } else {
            Some(le32_val(rec.subrange(12, 16)) as u32)
        },
        normally_up: normally_up,
        is_paused: rec[16] != 0,
        duration: clamped_sub(now.0, be_val(rec.subrange(0, 8)) as u64),
        wants: spec_wants(rec[17]),
    }
}

/// The status that a set of probe outcomes decodes to: the first failing
/// probe, in order, names the fault; otherwise the record's fields.
pub open spec fn spec_status(
    dir_ok: bool,
    down: DownProbe,
    ok_probe: OkProbe,
    status: StatusProbe,
    now: Tai,
) -> SvstatType {
    if !dir_ok {
        SvstatType::SvError(SvstatError::UnableToChDir)
    } else if down is OtherError {
        SvstatType::SvError(SvstatError::UnableToStatDown)
    } else if ok_probe is NotRunning {
        SvstatType::SvError(SvstatError::SuperviseNotRunning)
    } else if ok_probe is OtherError {
        SvstatType::SvError(SvstatError::UnableToOpenSuperviseOk)
    } else if status is OpenFailed {
        SvstatType::SvError(SvstatError::UnableToOpenSuperviseStatus)
    } else if status is ReadFailed {
        SvstatType::SvError(SvstatError::StatusOtherError)
    } else if status->Data_0@.len() != STATUS_LEN {
        SvstatType::SvError(SvstatError::StatusBadFormat)
    } else {
        spec_decode_record(status->Data_0@, down is NotFound, now)
    }
}

/// The recorded process id from the four pid bytes of the status record,
/// least significant byte first.
pub fn get_pid(pid_slice: &[u8]) -> (pid: u32)
    requires
        pid_slice@.len() == 4,
    ensures
        pid == le32_val(pid_slice@),
{
    let mut pid: u32 = pid_slice[3] as u32;
    pid = pid * 256 + pid_slice[2] as u32;
    pid = pid * 256 + pid_slice[1] as u32;
    pid = pid * 256 + pid_slice[0] as u32;
    pid
}

/// Decode one service's probe outcomes into its status, exactly as
/// `spec_status` states it.
pub fn evaluate_status(
    dir_ok: bool,
    down: DownProbe,
    ok_probe: OkProbe,
    status: &StatusProbe,
    now: Tai,
) -> (r: SvstatType)
    ensures
        r == spec_status(dir_ok, down, ok_probe, *status, now),
{
    if !dir_ok {
        return SvstatType::SvError(SvstatError::UnableToChDir);
    }
    let normally_up = match down {
        DownProbe::Present => false,
        DownProbe::NotFound => true,
        DownProbe::OtherError => {
            return SvstatType::SvError(SvstatError::UnableToStatDown);
        },
    };
    match ok_probe {
        OkProbe::Opened => {},
        OkProbe::NotRunning => {
            return SvstatType::SvError(SvstatError::SuperviseNotRunning);
        },
        OkProbe::OtherError => {
            return SvstatType::SvError(SvstatError::UnableToOpenSuperviseOk);
        },
    }
    let rec: &Vec<u8> = match status {
        StatusProbe::Data(rec) => rec,
        StatusProbe::OpenFailed => {
            return SvstatType::SvError(SvstatError::UnableToOpenSuperviseStatus);
        },
        StatusProbe::ReadFailed => {
            return SvstatType::SvError(SvstatError::StatusOtherError);
        },
    };
    if rec.len() != STATUS_LEN {
        return SvstatType::SvError(SvstatError::StatusBadFormat);
    }
    let pid = get_pid(slice_subrange(rec.as_slice(), 12, 16));
    let want = rec[17];
    let paused = rec[16];
    let when = unpack(slice_subrange(rec.as_slice(), 0, 8));
    let age = now.sub(when);
    SvstatType::SvOk {
        pid: if pid != 0 {
            Some(pid)
        } else {
            None
        },
        normally_up: normally_up,
        is_paused: paused != 0,
        duration: age.as_secs(),
        wants: if want == 117 {
            Some(SvWants::WantsUp)
        } else if want == 100 {
            Some(SvWants::WantsDown)
        } else {
            None
        },
    }
}

} // verus!
