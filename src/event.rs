//! Domain events and their severities.
use vstd::prelude::*;

verus! {

/// How serious an event is, from least to most.
#[derive(Debug, Clone, Copy, PartialEq, Eq, Structural)]
pub enum EventLevel {
    Info,
    Notice,
    Warning,
    Critical,
}

impl EventLevel {
    pub open spec fn rank(self) -> int {
        match self {
            EventLevel::Info => 0,
            EventLevel::Notice => 1,
            EventLevel::Warning => 2,
            EventLevel::Critical => 3,
        }
    }

    /// Whether an event of this level reaches a subscriber that asked for
    /// `minimum` and above.
    pub fn meets(self, minimum: EventLevel) -> (r: bool)
        ensures
            r == (self.rank() >= minimum.rank()),
    {
        let a: u8 = match self {
            EventLevel::Info => 0,
            EventLevel::Notice => 1,
            EventLevel::Warning => 2,
            EventLevel::Critical => 3,
        };
        let b: u8 = match minimum {
            EventLevel::Info => 0,
            EventLevel::Notice => 1,
            EventLevel::Warning => 2,
            EventLevel::Critical => 3,
        };
        a >= b
    }
}

/// An immutable record of something that happened.
#[derive(Debug, Clone)]
pub struct Event {
    /// Milliseconds since the Unix epoch.
    pub timestamp: i64,
    pub level: EventLevel,
    pub kind: String,
    pub ip: String,
    pub message: String,
}

impl Event {
    pub fn new(timestamp: i64, level: EventLevel, kind: &str, ip: &str, message: &str) -> (r: Event)
        ensures
            r.timestamp == timestamp,
            r.level == level,
            r.kind@ == kind@,
            r.ip@ == ip@,
            r.message@ == message@,
    {
        Event { timestamp, level, kind: kind.to_owned(), ip: ip.to_owned(), message: message.to_owned() }
    }

    /// A copy of this event.
    pub fn duplicate(&self) -> (r: Event)
        ensures
            r == *self,
    {
        Event {
            timestamp: self.timestamp,
            level: self.level,
            kind: self.kind.clone(),
            ip: self.ip.clone(),
            message: self.message.clone(),
        }
    }
}

} // verus!
