use vstd::prelude::*;

verus! {

/// GELF's representation of an error level.
///
/// GELF's error levels are equivalent to syslog's severity scale
/// (Emergency = 0 up to Debug = 7).  The levels do not match the coarser
/// five-step scale an application logging facade uses, but lossy
/// conversion in both directions is provided by `from_rust` and
/// `to_rust`.
#[derive(Clone, Copy, Debug, PartialEq, Eq, Structural)]
pub enum Level {
    Emergency,
    Alert,
    Critical,
    Error,
    Warning,
    Notice,
    Informational,
    Debug,
}

/// The five-step severity scale of an application logging facade
/// (most severe first), mirrored here as plain data so that the
/// mapping to and from GELF levels can be verified.
#[derive(Clone, Copy, Debug, PartialEq, Eq, Structural)]
pub enum RustLevel {
    Error,
    Warn,
    Info,
    Debug,
    Trace,
}

impl Level {
    /// The small-integer ordinal this level is serialized as.
    pub open spec fn as_int(self) -> int {
        match self {
            Level::Emergency => 0,
            Level::Alert => 1,
            Level::Critical => 2,
            Level::Error => 3,
            Level::Warning => 4,
            Level::Notice => 5,
            Level::Informational => 6,
            Level::Debug => 7,
        }
    }

    /// Return the level's ordinal on the 8-step GELF/syslog scale.
    pub fn ordinal(self) -> (r: u8)
        ensures
            r as int == self.as_int(),
    {
        match self {
            Level::Emergency => 0,
            Level::Alert => 1,
            Level::Critical => 2,
            Level::Error => 3,
            Level::Warning => 4,
            Level::Notice => 5,
            Level::Informational => 6,
            Level::Debug => 7,
        }
    }

    /// The GELF level a given application level maps to.
    pub open spec fn spec_from_rust(level: RustLevel) -> Level {
        match level {
            RustLevel::Error => Level::Error,
            RustLevel::Warn => Level::Warning,
            RustLevel::Info => Level::Informational,
            RustLevel::Debug => Level::Debug,
            RustLevel::Trace => Level::Debug,
        }
    }

    /// The application level a given GELF level maps to.
    pub open spec fn spec_to_rust(self) -> RustLevel {
        match self {
            Level::Emergency => RustLevel::Error,
            Level::Alert => RustLevel::Error,
            Level::Critical => RustLevel::Error,
            Level::Error => RustLevel::Error,
            Level::Warning => RustLevel::Warn,
            Level::Notice => RustLevel::Info,
            Level::Informational => RustLevel::Info,
            Level::Debug => RustLevel::Debug,
        }
    }

    /// Get the GELF error level from a given application error level.
    pub fn from_rust(level: RustLevel) -> (r: Level)
        ensures
            r == Level::spec_from_rust(level),
    {
        match level {
            RustLevel::Error => Level::Error,
            RustLevel::Warn => Level::Warning,
            RustLevel::Info => Level::Informational,
            RustLevel::Debug | RustLevel::Trace => Level::Debug,
        }
    }

    /// The level a small-integer ordinal decodes to: the matching
    /// GELF level, or `Informational` for anything off the scale.
    pub open spec fn spec_from_int(value: i64) -> Level {
        if value == 0 {
            Level::Emergency
        } else if value == 1 {
            Level::Alert
        } else if value == 2 {
            Level::Critical
        } else if value == 3 {
            Level::Error
        } else if value == 4 {
            Level::Warning
        } else if value == 5 {
            Level::Notice
        } else if value == 6 {
            Level::Informational
        } else if value == 7 {
            Level::Debug
        } else {
            Level::Informational
        }
    }

    /// Get the application error level from this GELF error level.
    pub fn to_rust(self) -> (r: RustLevel)
        ensures
            r == self.spec_to_rust(),
    {
        match self {
            Level::Emergency | Level::Alert | Level::Critical | Level::Error => RustLevel::Error,
            Level::Warning => RustLevel::Warn,
            Level::Notice | Level::Informational => RustLevel::Info,
            Level::Debug => RustLevel::Debug,
        }
    }
}

impl From<i64> for Level {
    /// Decode a level from its small-integer ordinal; a value off the
    /// 8-step scale decodes to `Informational`.
    fn from(value: i64) -> (r: Level) {
        match value {
            0 => Level::Emergency,
            1 => Level::Alert,
            2 => Level::Critical,
            3 => Level::Error,
            4 => Level::Warning,
            5 => Level::Notice,
            6 => Level::Informational,
            7 => Level::Debug,
            _ => Level::Informational,
        }
    }
}

impl vstd::std_specs::convert::FromSpecImpl<i64> for Level {
    open spec fn obeys_from_spec() -> bool {
        true
    }

    open spec fn from_spec(value: i64) -> Level {
        Level::spec_from_int(value)
    }
}

} // verus!
