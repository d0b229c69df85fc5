//! A certbot invocation, as a value: its arguments, the prefix its failure is
//! reported under, and how the result of running it becomes the operation's
//! result.
use vstd::prelude::*;

use crate::text::{copy_str, decimal, push_decimal, strs};

verus! {

/// Hard cap on a single certbot run, in seconds. Validation and issuance
/// normally take seconds, but a stuck network or a wedged challenge could
/// hang the process, so every run is killed after this long.
pub const CERTBOT_TIMEOUT_SECS: u64 = 1800;

/// A certbot run to perform: `certbot <args...>`.
pub struct CertbotCommand {
    /// The arguments after the program name.
    pub args: Vec<String>,
    /// What a failure's message starts with.
    pub fail_prefix: String,
}

/// The model of a [`CertbotCommand`].
pub struct CommandView {
    pub args: Seq<Seq<char>>,
    pub fail_prefix: Seq<char>,
}

impl View for CertbotCommand {
    type V = CommandView;

    open spec fn view(&self) -> CommandView {
        CommandView { args: strs(self.args@), fail_prefix: self.fail_prefix@ }
    }
}

/// How running certbot went.
pub enum CertbotRun {
    /// The process could not be started; the error's text.
    SpawnFailed(String),
    /// The process ran past the timeout and was killed.
    TimedOut,
    /// The process exited; whether successfully, and what it printed
    /// (decoded as UTF-8, invalid sequences replaced).
    Exited { success: bool, stdout: String, stderr: String },
}

/// The model of a [`CertbotRun`].
pub enum CertbotRunView {
    SpawnFailed(Seq<char>),
    TimedOut,
    Exited { success: bool, stdout: Seq<char>, stderr: Seq<char> },
}

impl View for CertbotRun {
    type V = CertbotRunView;

    open spec fn view(&self) -> CertbotRunView {
        match self {
            CertbotRun::SpawnFailed(e) => CertbotRunView::SpawnFailed(e@),
            CertbotRun::TimedOut => CertbotRunView::TimedOut,
            CertbotRun::Exited { success, stdout, stderr } => CertbotRunView::Exited {
                success: *success,
                stdout: stdout@,
                stderr: stderr@,
            },
        }
    }
}

/// The result of a certbot run: its standard output on success, otherwise
/// an error message: the spawn error, the timeout in minutes, or the fail
/// prefix followed by what certbot printed on standard error.
pub open spec fn certbot_result(fail_prefix: Seq<char>, run: CertbotRunView) -> Result<
    Seq<char>,
    Seq<char>,
> {
    match run {
        CertbotRunView::SpawnFailed(e) => Err("Failed to execute certbot: "@ + e),
        CertbotRunView::TimedOut => Err(
            fail_prefix + " timed out after "@ + decimal((CERTBOT_TIMEOUT_SECS / 60) as nat)
                + " minutes"@,
        ),
        CertbotRunView::Exited { success, stdout, stderr } => if success {
            Ok(stdout)
        } else {
            Err(fail_prefix + ": "@ + stderr)
        },
    }
}

/// The model of a text result.
pub open spec fn text_result_view(r: Result<String, String>) -> Result<Seq<char>, Seq<char>> {
    match r {
        Ok(s) => Ok(s@),
        Err(e) => Err(e@),
    }
}

/// Turn how a certbot run went into the operation's result.
pub fn certbot_outcome(fail_prefix: &str, run: CertbotRun) -> (r: Result<String, String>)
    ensures
        text_result_view(r) == certbot_result(fail_prefix@, run@),
{
    match run {
        CertbotRun::SpawnFailed(e) => {
            let mut m = copy_str("Failed to execute certbot: ");
            m.append(e.as_str());
            Err(m)
        },
        CertbotRun::TimedOut => {
            let mut m = copy_str(fail_prefix);
            m.append(" timed out after ");
            push_decimal(&mut m, CERTBOT_TIMEOUT_SECS / 60);
            m.append(" minutes");
            Err(m)
        },
        CertbotRun::Exited { success, stdout, stderr } => {
            if success {
                Ok(stdout)
            } else {
                let mut m = copy_str(fail_prefix);
                m.append(": ");
                m.append(stderr.as_str());
                Err(m)
            }
        },
    }
}

} // verus!
