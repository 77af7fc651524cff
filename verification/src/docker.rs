//! How a bot container's inspection reads as health.
use vstd::prelude::*;

use crate::text::{format_signed, opt_view, signed_decimal_seq};

verus! {

/// The health of a bot's container.
#[derive(Clone, Debug)]
pub struct ContainerHealth {
    pub found: bool,
    pub status: String,
    pub running: bool,
    pub exit_code: Option<i64>,
    pub error: Option<String>,
    pub logs: Option<String>,
}

/// What an inspection reports of a container's state; each part may be missing.
pub struct InspectedState {
    pub status: Option<String>,
    pub running: Option<bool>,
    pub exit_code: Option<i64>,
}

/// The error that a container which stopped with `exit_code` shows, if any: a stopped
/// container with a non-zero exit code has exited with an error.
pub open spec fn exit_error(running: bool, exit_code: Option<i64>) -> Option<Seq<char>> {
    match exit_code {
        Some(code) => if !running && code != 0 {
            Some("Container exited with code "@ + signed_decimal_seq(code as int))
        } else {
            None
        },
        None => None,
    }
}

impl ContainerHealth {
    /// The health shown when no Docker client could be made.
    pub fn unavailable() -> (h: ContainerHealth)
        ensures
            !h.found,
            h.status@ == "docker_unavailable"@,
            !h.running,
            h.exit_code is None,
            opt_view(h.error) == Some("Docker client unavailable"@),
            h.logs is None,
    {
        ContainerHealth {
            found: false,
            status: String::from_str("docker_unavailable"),
            running: false,
            exit_code: None,
            error: Some(String::from_str("Docker client unavailable")),
            logs: None,
        }
    }

    /// The health shown when the inspection failed with `error`.
    pub fn not_found(error: String) -> (h: ContainerHealth)
        ensures
            !h.found,
            h.status@ == "not_found"@,
            !h.running,
            h.exit_code is None,
            opt_view(h.error) == Some(error@),
            h.logs is None,
    {
        ContainerHealth {
            found: false,
            status: String::from_str("not_found"),
            running: false,
            exit_code: None,
            error: Some(error),
            logs: None,
        }
    }

    /// The health of an inspected container, before any logs are attached: status
    /// `unknown` and not running where the inspection does not say.
    pub fn from_inspection(state: Option<InspectedState>) -> (h: ContainerHealth)
        ensures
            h.found,
            h.logs is None,
            h.status@ == match state {
                Some(s) => match s.status {
                    Some(t) => t@,
                    None => "unknown"@,
                },
                None => "unknown"@,
            },
            h.running == match state {
                Some(s) => match s.running {
                    Some(b) => b,
                    None => false,
                },
                None => false,
            },
            h.exit_code == match state {
                Some(s) => s.exit_code,
                None => None,
            },
            opt_view(h.error) == exit_error(h.running, h.exit_code),
    {
        let (status, running, exit_code) = match state {
            Some(s) => {
                let status = match s.status {
                    Some(t) => t,
                    None => String::from_str("unknown"),
                };
                let running = match s.running {
                    Some(b) => b,
                    None => false,
                };
                (status, running, s.exit_code)
            },
            None => (String::from_str("unknown"), false, None),
        };
        let error = match exit_code {
            Some(code) => if !running && code != 0 {
                let mut m = String::from_str("Container exited with code ");
                let digits = format_signed(code);
                m.append(digits.as_str());
                Some(m)
            } else {
                None
            },
            None => None,
        };
        ContainerHealth { found: true, status, running, exit_code, error, logs: None }
    }

    /// Whether an inspected container's recent logs are attached: when asked for, or
    /// when the container shows an error.
    pub fn wants_logs(&self, include_logs: bool) -> (r: bool)
        ensures
            r == (include_logs || self.error is Some),
    {
        include_logs || self.error.is_some()
    }
}

} // verus!
