//! A leveled console logger with a global quiet flag.
//!
//! The logger has four levels. Info, warn and success are suppressed when the
//! logger is quiet; error lines are produced whatever the quiet flag says, so
//! a user-facing failure is never silenced. The logger itself only decides and
//! renders: each method returns the painted line to emit, or `None` when the
//! message is suppressed. Printing the line is the caller's business.
//!
//! The global logger is a value that is initialized at most once: a second
//! initialization with a different quiet flag is a no-op, the first value
//! wins.

use vstd::prelude::*;
use colored::Colorize;

verus! {

/// A console logger. `quiet` is fixed at construction time.
pub struct Logger {
    quiet: bool,
}

/// The needle occurs in the hay as a contiguous run.
pub open spec fn occurs_in(hay: Seq<char>, needle: Seq<char>) -> bool {
    exists|k: int|
        0 <= k && k + needle.len() <= hay.len() && #[trigger] hay.subrange(k, k + needle.len())
            == needle
}

/// No terminal escape character in the text. Painting such a text only wraps
/// it; it never rewrites it.
pub open spec fn no_escape(s: Seq<char>) -> bool {
    forall|i: int| 0 <= i < s.len() ==> #[trigger] s[i] != '\u{1b}'
}

/// Relies on colored's `Colorize::bright_cyan` (info lines) and the
/// `ColoredString` `Display` impl: a message without escape characters passes
/// through verbatim, at most wrapped in style codes, so it occurs contiguously
/// in the painted line. Whether color codes are added depends on the terminal.
#[verifier::external_body]
fn paint_bright_cyan(message: &str) -> (r: String)
    ensures
        no_escape(message@) ==> occurs_in(r@, message@),
{
    format!("{}", message.bright_cyan())
}

/// Relies on colored's `Colorize::bright_yellow` (warning lines) and the
/// `ColoredString` `Display` impl, as for the info painter.
#[verifier::external_body]
fn paint_bright_yellow(message: &str) -> (r: String)
    ensures
        no_escape(message@) ==> occurs_in(r@, message@),
{
    format!("{}", message.bright_yellow())
}

/// Relies on colored's `Colorize::bright_red` (error lines) and the
/// `ColoredString` `Display` impl, as for the info painter.
#[verifier::external_body]
fn paint_bright_red(message: &str) -> (r: String)
    ensures
        no_escape(message@) ==> occurs_in(r@, message@),
{
    format!("{}", message.bright_red())
}

/// Relies on colored's `Colorize::bright_green` (success lines) and the
/// `ColoredString` `Display` impl, as for the info painter.
#[verifier::external_body]
fn paint_bright_green(message: &str) -> (r: String)
    ensures
        no_escape(message@) ==> occurs_in(r@, message@),
{
    format!("{}", message.bright_green())
}

impl Logger {
    /// Whether this logger suppresses non-error output.
    pub closed spec fn spec_quiet(&self) -> bool {
        self.quiet
    }

    /// Create a new logger; `quiet` says whether non-error output is
    /// suppressed.
    pub fn new(quiet: bool) -> (r: Logger)
        ensures
            r.spec_quiet() == quiet,
    {
        Logger { quiet }
    }

    /// An info line, painted bright cyan, for standard output.
    /// Suppressed exactly when the logger is quiet; an emitted line carries
    /// the message.
    pub fn info(&self, message: &str) -> (r: Option<String>)
        ensures
            r is Some <==> !self.spec_quiet(),
            r matches Some(line) ==> (no_escape(message@) ==> occurs_in(line@, message@)),
    {
        if !self.quiet {
            Some(paint_bright_cyan(message))
        } else {
            None
        }
    }

    /// A warning line, painted bright yellow, for standard error.
    /// Suppressed exactly when the logger is quiet; an emitted line carries
    /// the message.
    pub fn warn(&self, message: &str) -> (r: Option<String>)
        ensures
            r is Some <==> !self.spec_quiet(),
            r matches Some(line) ==> (no_escape(message@) ==> occurs_in(line@, message@)),
    {
        if !self.quiet {
            Some(paint_bright_yellow(message))
        } else {
            None
        }
    }

    /// An error line, painted bright red, for standard error.
    /// Never suppressed: failures are always surfaced, quiet or not, and the
    /// line carries the message.
    pub fn error(&self, message: &str) -> (r: String)
        ensures
            no_escape(message@) ==> occurs_in(r@, message@),
    {
        paint_bright_red(message)
    }

    /// A success line, painted bright green, for standard output.
    /// Suppressed exactly when the logger is quiet; an emitted line carries
    /// the message.
    pub fn success(&self, message: &str) -> (r: Option<String>)
        ensures
            r is Some <==> !self.spec_quiet(),
            r matches Some(line) ==> (no_escape(message@) ==> occurs_in(line@, message@)),
    {
        if !self.quiet {
            Some(paint_bright_green(message))
        } else {
            None
        }
    }
}

/// The state of the process-wide logger: unset until `init_logger` runs.
pub struct GlobalLogger {
    logger: Option<Logger>,
}

impl GlobalLogger {
    /// The logger held so far, if one was initialized.
    pub closed spec fn spec_logger(&self) -> Option<Logger> {
        self.logger
    }

    /// A fresh, uninitialized global logger state.
    pub fn new() -> (r: GlobalLogger)
        ensures
            r.spec_logger() is None,
    {
        GlobalLogger { logger: None }
    }

    /// The quiet flag of the held logger; an uninitialized state is treated
    /// as not quiet.
    pub fn is_quiet(&self) -> (r: bool)
        ensures
            r == match self.spec_logger() {
                Some(l) => l.spec_quiet(),
                None => false,
            },
    {
        match &self.logger {
            Some(l) => l.quiet,
            None => false,
        }
    }
}

/// Initialize the global logger. The first initialization wins: once a
/// logger is held, later calls change nothing, whatever quiet flag they
/// carry.
pub fn init_logger(state: &mut GlobalLogger, quiet: bool)
    ensures
        old(state).spec_logger() is None ==> (final(state).spec_logger() is Some
            && final(state).spec_logger()->Some_0.spec_quiet() == quiet),
        old(state).spec_logger() is Some ==> final(state).spec_logger() == old(state).spec_logger(),
        final(state).spec_logger() is Some,
{
    if state.logger.is_none() {
        state.logger = Some(Logger::new(quiet));
    }
}

} // verus!
