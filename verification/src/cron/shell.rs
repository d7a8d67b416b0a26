//! Jobs that run a shell command.

use crate::cron::agent_run::Block;
use crate::cron::job::CronShellOutputFormat;
use crate::text;
use vstd::prelude::*;
use vstd::string::*;
use vstd::utf8::*;

verus! {

/// How long a shell job may run, in seconds.
pub const SHELL_JOB_TIMEOUT_SECS: u64 = 120;

/// How long the check after an agent job may run, in seconds.
pub const COMPLETION_CHECK_TIMEOUT_SECS: u64 = 30;

/// What is reported of a command that is not run, if it is not. It is looked at in
/// this order: whether the agent may act at all, whether it acted too often,
/// whether the command is a permitted one (`invalid` says why not), and whether it
/// names a path that it may not touch. Where nothing speaks against the command,
/// its action is counted against the budget, and only then.
pub fn shell_gate(
    can_act: bool,
    rate_limited: bool,
    invalid: Option<String>,
    forbidden_path: Option<String>,
) -> (r: Option<String>)
    ensures
        if !can_act {
            r matches Some(s) && s@ == Block::ReadOnly.shown()
        } else if rate_limited {
            r matches Some(s) && s@ == Block::RateLimited.shown()
        } else if invalid is Some {
            r == invalid
        } else if forbidden_path is Some {
            r matches Some(s) && s@ == "blocked by security policy: forbidden path argument: "@
                + forbidden_path->Some_0@
        } else {
            r is None
        },
{
    if !can_act {
        return Some(Block::ReadOnly.message().to_owned());
    }
    if rate_limited {
        return Some(Block::RateLimited.message().to_owned());
    }
    if invalid.is_some() {
        return invalid;
    }
    match forbidden_path {
        Some(path) => {
            let mut s: String = "blocked by security policy: forbidden path argument: ".to_owned();
            s.append(path.as_str());
            Some(s)
        },
        None => None,
    }
}

/// What `String::from_utf8_lossy` reads bytes as.
pub uninterp spec fn lossy_of(bytes: Seq<u8>) -> Seq<char>;

/// `String::from_utf8_lossy`: bytes that are UTF-8 are read as such. What stands
/// for the others is left to the name.
#[verifier::external_body]
fn lossy_text(bytes: &[u8]) -> (r: String)
    ensures
        r@ == lossy_of(bytes@),
        valid_utf8(bytes@) ==> r@ == decode_utf8(bytes@),
{
    String::from_utf8_lossy(bytes).into_owned()
}

/// How a shell command ended.
pub enum ShellEnd {
    /// There was nothing to run it with, or it could not be set up.
    SetupFailed { error: String },
    /// It could not be started, or its end was not seen.
    SpawnFailed { error: String },
    /// It ran for too long; `seconds` is how long it had.
    TimedOut { seconds: String },
    /// It ended; `status` is what is shown of its exit status.
    Exited { success: bool, status: String, stdout: Vec<u8>, stderr: Vec<u8> },
}

/// What is reported of a command that ended, given what it wrote. A successful one
/// is reported bare where that is asked for: then only what it wrote to its
/// standard output counts.
pub open spec fn exit_report(
    format: CronShellOutputFormat,
    success: bool,
    status: Seq<char>,
    stdout: Seq<char>,
    stderr: Seq<char>,
) -> Seq<char> {
    if format == CronShellOutputFormat::Raw && success {
        text::trimmed(stdout)
    } else {
        "status="@ + status + "\nstdout:\n"@ + text::trimmed(stdout) + "\nstderr:\n"@
            + text::trimmed(stderr)
    }
}

/// The text without white space around it.
fn trimmed_text(s: &str) -> (r: String)
    ensures
        r@ == text::trimmed(s@),
{
    let all: Vec<char> = text::chars_of(s);
    text::string_of(text::trim(all.as_slice()))
}

/// What is reported of a command that ended, given what it wrote.
pub fn exit_report_given(
    format: CronShellOutputFormat,
    success: bool,
    status: &str,
    stdout: &str,
    stderr: &str,
) -> (r: String)
    ensures
        r@ == exit_report(format, success, status@, stdout@, stderr@),
{
    if format == CronShellOutputFormat::Raw && success {
        return trimmed_text(stdout);
    }
    let mut r: String = "status=".to_owned();
    r.append(status);
    r.append("\nstdout:\n");
    r.append(trimmed_text(stdout).as_str());
    r.append("\nstderr:\n");
    r.append(trimmed_text(stderr).as_str());
    r
}

/// What is reported of a shell command: whether it succeeded, and its output.
pub open spec fn shell_report(format: CronShellOutputFormat, end: ShellEnd) -> (bool, Seq<char>) {
    match end {
        ShellEnd::SetupFailed { error } => (false, "shell setup error: "@ + error@),
        ShellEnd::SpawnFailed { error } => (false, "spawn error: "@ + error@),
        ShellEnd::TimedOut { seconds } => (
            false,
            "job timed out after "@ + seconds@ + "s"@,
        ),
        ShellEnd::Exited { success, status, stdout, stderr } => (
            success,
            exit_report(format, success, status@, lossy_of(stdout@), lossy_of(stderr@)),
        ),
    }
}

/// What is reported of a shell command: whether it succeeded, and its output.
pub fn run_job_command(format: CronShellOutputFormat, end: ShellEnd) -> (r: (bool, String))
    ensures
        (r.0, r.1@) == shell_report(format, end),
{
    match end {
        ShellEnd::SetupFailed { error } => {
            let mut s: String = "shell setup error: ".to_owned();
            s.append(error.as_str());
            (false, s)
        },
        ShellEnd::SpawnFailed { error } => {
            let mut s: String = "spawn error: ".to_owned();
            s.append(error.as_str());
            (false, s)
        },
        ShellEnd::TimedOut { seconds } => {
            let mut s: String = "job timed out after ".to_owned();
            s.append(seconds.as_str());
            s.append("s");
            (false, s)
        },
        ShellEnd::Exited { success, status, stdout, stderr } => {
            let out: String = lossy_text(stdout.as_slice());
            let err: String = lossy_text(stderr.as_slice());
            let report: String = exit_report_given(
                format,
                success,
                status.as_str(),
                out.as_str(),
                err.as_str(),
            );
            (success, report)
        },
    }
}

/// A command that failed is reported in full, whatever form was asked for; one
/// that succeeded is reported bare only where that was asked for, and then
/// nothing of its standard error is told.
pub proof fn law_failures_are_reported_in_full(
    format: CronShellOutputFormat,
    other: CronShellOutputFormat,
    status: Seq<char>,
    stdout: Seq<char>,
    stderr: Seq<char>,
    other_stderr: Seq<char>,
)
    ensures
        exit_report(format, false, status, stdout, stderr) == exit_report(
            other,
            false,
            status,
            stdout,
            stderr,
        ),
        exit_report(CronShellOutputFormat::Raw, true, status, stdout, stderr) == exit_report(
            CronShellOutputFormat::Raw,
            true,
            status,
            stdout,
            other_stderr,
        ),
{
}

} // verus!
