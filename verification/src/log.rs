//! Log levels and the colouring of log records on a terminal.
use vstd::prelude::*;

verus! {

/// The importance of a log record.
#[derive(Debug, Clone, Copy)]
pub enum LogLevel {
    Debug,
    Info,
    Warn,
    Error,
    Critical,
    Always,
}

/// The terminal graphic rendition that a record of level `lvl` is shown with.
pub open spec fn spec_color_code(lvl: LogLevel) -> Seq<char> {
    match lvl {
        LogLevel::Debug => "2"@,
        LogLevel::Info => ""@,
        LogLevel::Warn => "1;33"@,
        LogLevel::Error => "1;31"@,
        LogLevel::Critical => "1;37;41"@,
        LogLevel::Always => ""@,
    }
}

/// The terminal graphic rendition that a record of level `lvl` is shown with:
/// dim for debug records, bold yellow for warnings, bold red for errors,
/// bold white on red for critical records, and plain otherwise.
pub fn color_code(lvl: LogLevel) -> (r: &'static str)
    ensures
        r@ == spec_color_code(lvl),
{
    match lvl {
        LogLevel::Debug => "2",
        LogLevel::Info => "",
        LogLevel::Warn => "1;33",
        LogLevel::Error => "1;31",
        LogLevel::Critical => "1;37;41",
        LogLevel::Always => "",
    }
}

/// A log handler that colours each record according to its level before
/// handing it to the handler it wraps.
pub struct TermColorLogHandler<H> {
    h: H,
}

impl<H> TermColorLogHandler<H> {
    /// The wrapped handler.
    pub closed spec fn spec_inner(&self) -> H {
        self.h
    }

    pub fn new(h: H) -> (r: Self)
        ensures
            r.spec_inner() == h,
    {
        Self { h }
    }

    /// The wrapped handler.
    pub fn inner(&self) -> (r: &H)
        ensures
            *r == self.spec_inner(),
    {
        &self.h
    }
}

/// A named part of the system whose records can be switched on or off.
pub trait Domain {
    fn name(&self) -> &str;
    fn enabled(&self) -> bool;
}

} // verus!
