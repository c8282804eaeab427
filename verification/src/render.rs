//! The render-ready display line for one service: exactly the text the
//! rendering collaborator paints, specified character by character.
use vstd::prelude::*;
use crate::registry::Service;
use crate::status::{SvWants, SvstatError, SvstatType};
use crate::text::{push_char, push_str};

verus! {

/// The digit character for a value below ten.
pub open spec fn digit_char(d: nat) -> char {
    ((48 + d) as u8) as char
}

/// The decimal numeral of `n`, most significant digit first, no leading
/// zeros (a single `'0'` for zero).
pub open spec fn dec_digits(n: nat) -> Seq<char>
    decreases n,
{
    if n < 10 {
        seq![digit_char(n)]
    } else {
        dec_digits(n / 10).push(digit_char(n % 10))
    }
}

/// The text a fault reason displays as.
pub open spec fn error_text(e: SvstatError) -> Seq<char> {
    match e {
        SvstatError::UnableToChDir => "UnableToChDir"@,
        SvstatError::UnableToStatDown => "UnableToStatDown"@,
        SvstatError::SuperviseNotRunning => "SuperviseNotRunning"@,
        SvstatError::UnableToOpenSuperviseOk => "UnableToOpenSuperviseOk"@,
        SvstatError::UnableToOpenSuperviseStatus => "UnableToOpenSuperviseStatus"@,
        SvstatError::StatusBadFormat => "StatusBadFormat"@,
        SvstatError::StatusOtherError => "StatusOtherError"@,
    }
}

/// The full display line for a service: name, then the running state with
/// pid and age and the qualifiers that apply, or the fault reason.
pub open spec fn render_line(name: Seq<char>, status: Option<SvstatType>) -> Seq<char> {
    match status {
        Some(SvstatType::SvOk { pid: Some(p), normally_up, is_paused, duration, wants }) => name
            + ": up (pid "@ + dec_digits(p as nat) + ") "@ + dec_digits(duration as nat)
            + " seconds"@ + (if !normally_up {
            ", normally down"@
        } else {
            Seq::empty()
        }) + (if is_paused {
            ", paused"@
        } else {
            Seq::empty()
        }) + (if wants == Some(SvWants::WantsDown) {
            ", want down"@
        } else {
            Seq::empty()
        }),
        Some(SvstatType::SvOk { pid: None, normally_up, is_paused, duration, wants }) => name
            + ": down "@ + dec_digits(duration as nat) + " seconds"@ + (if normally_up {
            ", normally up"@
        } else {
            Seq::empty()
        }) + (if wants == Some(SvWants::WantsUp) {
            ", want up"@
        } else {
            Seq::empty()
        }),
        Some(SvstatType::SvError(e)) => name + ": "@ + error_text(e),
        None => "error with service"@,
    }
}

fn digit_to_char(d: u64) -> (c: char)
    requires
        d < 10,
    ensures
        c == digit_char(d as nat),
{
    (48 + d as u8) as char
}

/// The decimal numeral of `n` as a string.
pub fn u64_to_string(n: u64) -> (r: String)
    ensures
        r@ == dec_digits(n as nat),
    decreases n,
{
    if n < 10 {
        let mut s = String::new();
        push_char(&mut s, digit_to_char(n));
        proof {
            assert(s@ =~= dec_digits(n as nat));
        }
        s
    } else {
        let mut s = u64_to_string(n / 10);
        push_char(&mut s, digit_to_char(n % 10));
        s
    }
}

/// The fault reason's display text.
pub fn error_to_string(e: SvstatError) -> (r: String)
    ensures
        r@ == error_text(e),
{
    let mut s = String::new();
    match e {
        SvstatError::UnableToChDir => push_str(&mut s, "UnableToChDir"),
        SvstatError::UnableToStatDown => push_str(&mut s, "UnableToStatDown"),
        SvstatError::SuperviseNotRunning => push_str(&mut s, "SuperviseNotRunning"),
        SvstatError::UnableToOpenSuperviseOk => push_str(&mut s, "UnableToOpenSuperviseOk"),
        SvstatError::UnableToOpenSuperviseStatus => push_str(&mut s, "UnableToOpenSuperviseStatus"),
        SvstatError::StatusBadFormat => push_str(&mut s, "StatusBadFormat"),
        SvstatError::StatusOtherError => push_str(&mut s, "StatusOtherError"),
    }
    proof {
        assert(Seq::<char>::empty() + error_text(e) =~= error_text(e));
    }
    s
}

impl Service {
    /// The display line for this service, exactly as `render_line` states
    /// it.
    pub fn display_line(&self) -> (r: String)
        ensures
            r@ == render_line(self.name@, self.status),
    {
        let mut out = String::new();
        match &self.status {
            Some(SvstatType::SvOk { pid: Some(p), normally_up, is_paused, duration, wants }) => {
                push_str(&mut out, self.name.as_str());
                push_str(&mut out, ": up (pid ");
                let pid_s = u64_to_string(*p as u64);
                push_str(&mut out, pid_s.as_str());
                push_str(&mut out, ") ");
                let dur_s = u64_to_string(*duration);
                push_str(&mut out, dur_s.as_str());
                push_str(&mut out, " seconds");
                if !*normally_up {
                    push_str(&mut out, ", normally down");
                }
                if *is_paused {
                    push_str(&mut out, ", paused");
                }
                let want_down = match wants {
                    Some(SvWants::WantsDown) => true,
                    _ => false,
                };
                if want_down {
                    push_str(&mut out, ", want down");
                }
                proof {
                    lemma_empty_prefix(out@);
                    assert(out@ =~= render_line(self.name@, self.status));
                }
            },
            Some(SvstatType::SvOk { pid: None, normally_up, is_paused: _, duration, wants }) => {
                push_str(&mut out, self.name.as_str());
                push_str(&mut out, ": down ");
                let dur_s = u64_to_string(*duration);
                push_str(&mut out, dur_s.as_str());
                push_str(&mut out, " seconds");
                if *normally_up {
                    push_str(&mut out, ", normally up");
                }
                let want_up = match wants {
                    Some(SvWants::WantsUp) => true,
                    _ => false,
                };
                if want_up {
                    push_str(&mut out, ", want up");
                }
                proof {
                    lemma_empty_prefix(out@);
                    assert(out@ =~= render_line(self.name@, self.status));
                }
            },
            Some(SvstatType::SvError(e)) => {
                push_str(&mut out, self.name.as_str());
                push_str(&mut out, ": ");
                let err_s = error_to_string(*e);
                push_str(&mut out, err_s.as_str());
                proof {
                    lemma_empty_prefix(out@);
                    assert(out@ =~= render_line(self.name@, self.status));
                }
            },
            None => {
                push_str(&mut out, "error with service");
                proof {
                    lemma_empty_prefix(out@);
                    assert(out@ =~= render_line(self.name@, self.status));
                }
            },
        }
        out
    }
}

proof fn lemma_empty_prefix(s: Seq<char>)
    ensures
        Seq::<char>::empty() + s =~= s,
{
}

} // verus!
