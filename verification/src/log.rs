//! Where the proxy writes its logs: one directory per line kind, one file
//! per tag or line.

use vstd::prelude::*;
use crate::gate::hub::line_header::LineType;
use crate::text::{push_decimal, spec_decimal};

verus! {

/// The log files of a line kind.
#[derive(Debug, Clone, Copy, PartialEq, Eq, Structural)]
pub enum LogTag {
    Unique,
    Event,
    Establish,
    GoodBye,
    Unexpected,
    Default,
}

pub open spec fn tag_text(t: LogTag) -> Seq<char> {
    match t {
        LogTag::Unique => "Unique"@,
        LogTag::Event => "Event"@,
        LogTag::Establish => "Establish"@,
        LogTag::GoodBye => "GoodBye"@,
        LogTag::Unexpected => "Unexpected"@,
        LogTag::Default => "Default"@,
    }
}

impl LogTag {
    /// The tag's name, as it appears in file names.
    pub fn name(&self) -> (r: &'static str)
        ensures
            r@ == tag_text(*self),
    {
        match self {
            LogTag::Unique => "Unique",
            LogTag::Event => "Event",
            LogTag::Establish => "Establish",
            LogTag::GoodBye => "GoodBye",
            LogTag::Unexpected => "Unexpected",
            LogTag::Default => "Default",
        }
    }
}

pub open spec fn kind_text(k: LineType) -> Seq<char> {
    match k {
        LineType::Fox => "Fox"@,
        LineType::Caller => "Caller"@,
        LineType::Operator => "Operator"@,
        LineType::Spider => "Spider"@,
        LineType::Http => "Http"@,
    }
}

impl LineType {
    /// The kind's name, as it appears in directory names.
    pub fn name(&self) -> (r: &'static str)
        ensures
            r@ == kind_text(*self),
    {
        match self {
            LineType::Fox => "Fox",
            LineType::Caller => "Caller",
            LineType::Operator => "Operator",
            LineType::Spider => "Spider",
            LineType::Http => "Http",
        }
    }
}

/// The log file of `name` under a line kind.
pub open spec fn log_path(kind: LineType, name: Seq<char>) -> Seq<char> {
    "log/"@ + kind_text(kind) + "/"@ + name + ".log"@
}

/// The directory of a line kind's logs.
pub open spec fn log_dir(kind: LineType) -> Seq<char> {
    "log/"@ + kind_text(kind)
}

/// A log entry: the time in milliseconds, a bar, the message and a newline.
pub open spec fn log_entry(now: u64, msg: Seq<char>) -> Seq<char> {
    spec_decimal(now as nat) + "|"@ + msg + "\n"@
}

pub struct Log {}

impl Log {
    /// The log file to create for `name` (the name of a tag, or a line's
    /// id in decimal) under a line kind.
    pub fn new(kind: LineType, name: &str) -> (path: String)
        ensures
            path@ == log_path(kind, name@),
    {
        Log::get_path(kind, name)
    }

    /// The file whose presence and size report a panic.
    pub fn panic_file() -> (r: String)
        ensures
            r@ == "log/panic.log"@,
    {
        "log/panic.log".to_owned()
    }

    /// The directory holding a line kind's logs.
    pub fn dir(kind: LineType) -> (r: String)
        ensures
            r@ == log_dir(kind),
    {
        let mut s = String::new();
        s.append("log/");
        s.append(kind.name());
        assert(s@ =~= log_dir(kind));
        s
    }

    /// The text of a log entry written at time `now`.
    pub fn entry(now: u64, msg: &str) -> (r: String)
        ensures
            r@ == log_entry(now, msg@),
    {
        let mut s = String::new();
        push_decimal(&mut s, now);
        s.append("|");
        s.append(msg);
        s.append("\n");
        assert(s@ =~= log_entry(now, msg@));
        s
    }

    pub fn get_path(kind: LineType, name: &str) -> (path: String)
        ensures
            path@ == log_path(kind, name@),
    {
        let mut s = String::new();
        s.append("log/");
        s.append(kind.name());
        s.append("/");
        s.append(name);
        s.append(".log");
        assert(s@ =~= log_path(kind, name@));
        s
    }
}

} // verus!
