//! Sequential runner core: run every eligible file in a directory as a child
//! process, merge the child's stdout, stderr and an out-of-band completion
//! signal into one ordered stream, and resolve the child's final exit status
//! from that stream.
//!
//! The hard part of the system is the tagged multiplexer and the
//! child-completion protocol; those live in [`mux`] and [`exec`]. Filename
//! eligibility rules live in [`filter`]. This root module holds the run
//! configuration, the status register and the one-shot report prefix.

use vstd::prelude::*;

pub mod exec;
pub mod filter;
pub mod mux;

verus! {

/// Exit status of a child that succeeded.
pub const OK: i32 = 0;

/// Conventional "internal software error" status, resolved when the child's
/// own exit status could not be determined.
pub const SOFTWARE: i32 = 70;

/// Per-run configuration. Option parsing itself is unverified and happens
/// outside the library; this record carries the parsed result as plain values.
pub struct Opt {
    /// Print the names of the scripts which would be run, without running them.
    pub test: bool,
    /// Print the names of all matching files (not only executables), without
    /// running them.
    pub list: bool,
    /// Print the name of each script to stderr before running it.
    pub verbose: bool,
    /// Print the name of a script, once, to whichever of stdout or stderr the
    /// script first produces output on.
    pub report: bool,
    /// Reverse the execution order.
    pub reverse: bool,
    /// Stop the run as soon as a script exits with a non-zero status.
    pub exit_on_error: bool,
    /// Umask to set before running the scripts, in octal.
    pub umask: String,
    /// Restrict filenames to the LANANA, LSB or Debian cron namespaces.
    pub lsbsysinit: bool,
    /// Custom filename pattern, as a regular expression.
    pub regex: Option<String>,
    /// Arguments passed to every script.
    pub arg: Vec<String>,
    /// The directory whose files are run.
    pub dir: String,
}

/// Status register: the exit code of the most recently completed invocation.
pub struct Status {
    pub exit_code: i32,
}

impl Status {
    /// Reset the register to success before the next file is processed.
    pub fn reset(&mut self)
        ensures
            final(self).exit_code == OK,
    {
        self.exit_code = OK;
    }
}

impl Default for Status {
    fn default() -> (s: Status)
        ensures
            s.exit_code == OK,
    {
        Status { exit_code: OK }
    }
}

/// Mathematical view of a [`Report`].
pub ghost struct ReportView {
    /// The identifying prefix (the file's path), as bytes.
    pub prefix: Seq<u8>,
    /// Whether reporting was requested.
    pub report: bool,
    /// Whether verbose mode already prints names to stderr.
    pub verbose: bool,
    /// Whether the one-shot prefix has already been consumed.
    pub used: bool,
}

/// One-shot record of whether an identifying prefix has already been emitted
/// for the current invocation's output. It transitions `unused -> used` the
/// first time either stream is about to emit a chunk, and never back.
pub struct Report {
    report_string: Vec<u8>,
    report: bool,
    verbose: bool,
    used: bool,
}

impl View for Report {
    type V = ReportView;

    closed spec fn view(&self) -> ReportView {
        ReportView {
            prefix: self.report_string@,
            report: self.report,
            verbose: self.verbose,
            used: self.used,
        }
    }
}

impl Report {
    /// Fresh report state for one invocation of the file at path `fp`.
    pub fn new(opt: &Opt, fp: &[u8]) -> (r: Report)
        ensures
            r@ == (ReportView { prefix: fp@, report: opt.report, verbose: opt.verbose, used: false }),
    {
        Report {
            report_string: vstd::slice::slice_to_vec(fp),
            report: opt.report,
            verbose: opt.verbose,
            used: false,
        }
    }

    /// Consume the one-shot: the first call returns the prefix when
    /// `condition` holds; every call marks the one-shot used.
    fn get_report(&mut self, condition: bool) -> (r: Option<&Vec<u8>>)
        ensures
            final(self)@ == (ReportView { used: true, ..old(self)@ }),
            r is Some <==> !old(self)@.used && condition,
            match r {
                Some(p) => p@ == old(self)@.prefix,
                None => true,
            },
    {
        if self.used {
            return None;
        }
        self.used = true;
        if condition {
            Some(&self.report_string)
        } else {
            None
        }
    }

    /// The prefix due before a stdout chunk, if any; consumes the one-shot.
    pub fn out_report(&mut self) -> (r: Option<&Vec<u8>>)
        ensures
            final(self)@ == (ReportView { used: true, ..old(self)@ }),
            r is Some <==> !old(self)@.used && old(self)@.report,
            match r {
                Some(p) => p@ == old(self)@.prefix,
                None => true,
            },
    {
        let condition = self.report;
        self.get_report(condition)
    }

    /// The prefix due before a stderr chunk, if any; consumes the one-shot.
    /// Suppressed under verbose mode, which already prints names to stderr.
    pub fn err_report(&mut self) -> (r: Option<&Vec<u8>>)
        ensures
            final(self)@ == (ReportView { used: true, ..old(self)@ }),
            r is Some <==> !old(self)@.used && old(self)@.report && !old(self)@.verbose,
            match r {
                Some(p) => p@ == old(self)@.prefix,
                None => true,
            },
    {
        let condition = self.report && !self.verbose;
        self.get_report(condition)
    }
}

/// What to do with one directory entry, decided from the configuration, the
/// running status and whether the file is executable.
#[derive(Clone, Copy, Debug, PartialEq, Eq, Structural)]
pub enum FileAction {
    /// Leave the file alone.
    Skip,
    /// Print the file's name and arguments instead of running it.
    Print,
    /// Run the file; `announce` asks for its name on stderr first.
    Run { announce: bool },
}

/// The decision taken for one file.
pub open spec fn file_action_spec(opt: Opt, prior_exit_code: i32, executable: bool) -> FileAction {
    if opt.exit_on_error && prior_exit_code != OK {
        FileAction::Skip
    } else if opt.list {
        FileAction::Print
    } else if !executable {
        FileAction::Skip
    } else if opt.test {
        FileAction::Print
    } else {
        FileAction::Run { announce: opt.verbose }
    }
}

/// Decide what to do with one file: skip it once a failure must end the run,
/// print it under the listing modes, run it otherwise. Listing prints
/// non-executables too; the dry-run mode does not.
pub fn act_decision(opt: &Opt, prior_exit_code: i32, executable: bool) -> (a: FileAction)
    ensures
        a == file_action_spec(*opt, prior_exit_code, executable),
{
    if opt.exit_on_error && prior_exit_code != OK {
        FileAction::Skip
    } else if opt.list {
        FileAction::Print
    } else if !executable {
        FileAction::Skip
    } else if opt.test {
        FileAction::Print
    } else {
        FileAction::Run { announce: opt.verbose }
    }
}

/// Whether a completed invocation's non-zero status is reported to stderr.
pub fn should_report_failure(opt: &Opt, exit_code: i32) -> (b: bool)
    ensures
        b == ((opt.report || opt.verbose) && exit_code != OK),
{
    (opt.report || opt.verbose) && exit_code != OK
}

} // verus!
