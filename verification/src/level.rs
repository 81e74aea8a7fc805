//! The severity level model: a totally ordered, finite enumeration of log
//! levels with exact rank and name conversions.
//!
//! Every level has a unique integer rank in `[0, NUM_LEVELS)` and a unique
//! canonical uppercase name. Ordering is defined purely by rank. The `Silent`
//! sentinel is strictly more severe than every real level and serves only as
//! a threshold meaning "accept nothing".

use crate::text::str_eq;
use core::cmp::Ordering;
use vstd::prelude::*;
use vstd::std_specs::cmp::PartialOrdSpec;

verus! {

/// Number of defined severity levels, the `Silent` sentinel included.
pub const NUM_LEVELS: usize = 9;

/// Ordered classification of a log record's importance, from least (`Debug`)
/// to most (`Emergency`), plus the `Silent` sentinel.
#[derive(Clone, Copy, Debug, PartialEq, Eq, Structural)]
pub enum LogLevel {
    Debug,
    Info,
    Notice,
    Warning,
    Error,
    Critical,
    Alert,
    Emergency,
    Silent,
}

/// Every failure the facility can report.
#[derive(Clone, Copy, Debug, PartialEq, Eq, Structural)]
pub enum LogError {
    /// A second initialization of the dispatcher was attempted.
    AlreadyInitialized,
    /// A numeric rank outside `[0, NUM_LEVELS)` was given to `from_rank`.
    InvalidRank,
    /// A string that is not a canonical level name was given to `from_name`.
    UnknownLevelName,
}

/// The unique integer rank of a level; ordering of levels is ordering of ranks.
pub open spec fn spec_rank(l: LogLevel) -> int {
    match l {
        LogLevel::Debug => 0,
        LogLevel::Info => 1,
        LogLevel::Notice => 2,
        LogLevel::Warning => 3,
        LogLevel::Error => 4,
        LogLevel::Critical => 5,
        LogLevel::Alert => 6,
        LogLevel::Emergency => 7,
        LogLevel::Silent => 8,
    }
}

/// The level holding a given in-range rank.
pub open spec fn spec_from_rank(n: int) -> LogLevel {
    if n == 0 {
        LogLevel::Debug
    } else if n == 1 {
        LogLevel::Info
    } else if n == 2 {
        LogLevel::Notice
    } else if n == 3 {
        LogLevel::Warning
    } else if n == 4 {
        LogLevel::Error
    } else if n == 5 {
        LogLevel::Critical
    } else if n == 6 {
        LogLevel::Alert
    } else if n == 7 {
        LogLevel::Emergency
    } else {
        LogLevel::Silent
    }
}

/// The canonical uppercase display name of a level.
pub open spec fn spec_name(l: LogLevel) -> Seq<char> {
    match l {
        LogLevel::Debug => "DEBUG"@,
        LogLevel::Info => "INFO"@,
        LogLevel::Notice => "NOTICE"@,
        LogLevel::Warning => "WARNING"@,
        LogLevel::Error => "ERROR"@,
        LogLevel::Critical => "CRITICAL"@,
        LogLevel::Alert => "ALERT"@,
        LogLevel::Emergency => "EMERGENCY"@,
        LogLevel::Silent => "SILENT"@,
    }
}

/// Exact case-sensitive lookup of a level by its canonical name.
pub open spec fn spec_from_name(s: Seq<char>) -> Result<LogLevel, LogError> {
    if s == spec_name(LogLevel::Debug) {
        Ok(LogLevel::Debug)
    } else if s == spec_name(LogLevel::Info) {
        Ok(LogLevel::Info)
    } else if s == spec_name(LogLevel::Notice) {
        Ok(LogLevel::Notice)
    } else if s == spec_name(LogLevel::Warning) {
        Ok(LogLevel::Warning)
    } else if s == spec_name(LogLevel::Error) {
        Ok(LogLevel::Error)
    } else if s == spec_name(LogLevel::Critical) {
        Ok(LogLevel::Critical)
    } else if s == spec_name(LogLevel::Alert) {
        Ok(LogLevel::Alert)
    } else if s == spec_name(LogLevel::Emergency) {
        Ok(LogLevel::Emergency)
    } else if s == spec_name(LogLevel::Silent) {
        Ok(LogLevel::Silent)
    } else {
        Err(LogError::UnknownLevelName)
    }
}

impl LogLevel {
    /// The level's rank; total and infallible.
    pub fn to_rank(&self) -> (r: usize)
        ensures
            r == spec_rank(*self),
    {
        match *self {
            LogLevel::Debug => 0,
            LogLevel::Info => 1,
            LogLevel::Notice => 2,
            LogLevel::Warning => 3,
            LogLevel::Error => 4,
            LogLevel::Critical => 5,
            LogLevel::Alert => 6,
            LogLevel::Emergency => 7,
            LogLevel::Silent => 8,
        }
    }

    /// The level of a given rank; fails with `InvalidRank` exactly on ranks
    /// outside `[0, NUM_LEVELS)`.
    pub fn from_rank(n: usize) -> (r: Result<LogLevel, LogError>)
        ensures
            n < NUM_LEVELS ==> r == Ok::<LogLevel, LogError>(spec_from_rank(n as int)),
            n >= NUM_LEVELS ==> r == Err::<LogLevel, LogError>(LogError::InvalidRank),
    {
        match n {
            0 => Ok(LogLevel::Debug),
            1 => Ok(LogLevel::Info),
            2 => Ok(LogLevel::Notice),
            3 => Ok(LogLevel::Warning),
            4 => Ok(LogLevel::Error),
            5 => Ok(LogLevel::Critical),
            6 => Ok(LogLevel::Alert),
            7 => Ok(LogLevel::Emergency),
            8 => Ok(LogLevel::Silent),
            _ => Err(LogError::InvalidRank),
        }
    }

    /// The canonical uppercase name. The fallible signature is defensive: by
    /// construction of the closed enumeration the error branch is unreachable,
    /// and the contract proves the result is always the canonical name.
    pub fn to_name(&self) -> (r: Result<&'static str, LogError>)
        ensures
            r matches Ok(s) && s@ == spec_name(*self),
    {
        match *self {
            LogLevel::Debug => Ok("DEBUG"),
            LogLevel::Info => Ok("INFO"),
            LogLevel::Notice => Ok("NOTICE"),
            LogLevel::Warning => Ok("WARNING"),
            LogLevel::Error => Ok("ERROR"),
            LogLevel::Critical => Ok("CRITICAL"),
            LogLevel::Alert => Ok("ALERT"),
            LogLevel::Emergency => Ok("EMERGENCY"),
            LogLevel::Silent => Ok("SILENT"),
        }
    }

    /// The level whose canonical name matches `s` exactly (case-sensitive);
    /// fails with `UnknownLevelName` on every other string.
    pub fn from_name(s: &str) -> (r: Result<LogLevel, LogError>)
        ensures
            r == spec_from_name(s@),
    {
        if str_eq(s, "DEBUG") {
            Ok(LogLevel::Debug)
        } else if str_eq(s, "INFO") {
            Ok(LogLevel::Info)
        } else if str_eq(s, "NOTICE") {
            Ok(LogLevel::Notice)
        } else if str_eq(s, "WARNING") {
            Ok(LogLevel::Warning)
        } else if str_eq(s, "ERROR") {
            Ok(LogLevel::Error)
        } else if str_eq(s, "CRITICAL") {
            Ok(LogLevel::Critical)
        } else if str_eq(s, "ALERT") {
            Ok(LogLevel::Alert)
        } else if str_eq(s, "EMERGENCY") {
            Ok(LogLevel::Emergency)
        } else if str_eq(s, "SILENT") {
            Ok(LogLevel::Silent)
        } else {
            Err(LogError::UnknownLevelName)
        }
    }
}

impl PartialOrd for LogLevel {
    fn partial_cmp(&self, other: &Self) -> (r: Option<Ordering>) {
        let a = self.to_rank();
        let b = other.to_rank();
        if a < b {
            Some(Ordering::Less)
        } else if a == b {
            Some(Ordering::Equal)
        } else {
            Some(Ordering::Greater)
        }
    }
}

impl vstd::std_specs::cmp::PartialOrdSpecImpl for LogLevel {
    open spec fn obeys_partial_cmp_spec() -> bool {
        true
    }

    open spec fn partial_cmp_spec(&self, other: &Self) -> Option<Ordering> {
        if spec_rank(*self) < spec_rank(*other) {
            Some(Ordering::Less)
        } else if spec_rank(*self) == spec_rank(*other) {
            Some(Ordering::Equal)
        } else {
            Some(Ordering::Greater)
        }
    }
}

/// Rank round trip: every rank in `[0, NUM_LEVELS)` names a level, and that
/// level's rank is the one it was looked up by.
pub proof fn lemma_rank_round_trip(r: int)
    requires
        0 <= r < NUM_LEVELS,
    ensures
        spec_rank(spec_from_rank(r)) == r,
{
}

/// The ordering of two levels matches the numeric ordering of their ranks,
/// for each of the comparison relations, and equality is rank equality.
pub proof fn lemma_order_matches_rank(a: LogLevel, b: LogLevel)
    ensures
        a.partial_cmp_spec(&b) == Some(Ordering::Less) <==> spec_rank(a) < spec_rank(b),
        a.partial_cmp_spec(&b) == Some(Ordering::Equal) <==> spec_rank(a) == spec_rank(b),
        a.partial_cmp_spec(&b) == Some(Ordering::Greater) <==> spec_rank(a) > spec_rank(b),
        a == b <==> spec_rank(a) == spec_rank(b),
{
    lemma_rank_injective(a, b);
}

/// Distinct levels have distinct ranks.
pub proof fn lemma_rank_injective(a: LogLevel, b: LogLevel)
    ensures
        a == b <==> spec_rank(a) == spec_rank(b),
{
}

/// Level round trip: looking a level's own rank back up yields the level.
pub proof fn lemma_level_round_trip(l: LogLevel)
    ensures
        spec_from_rank(spec_rank(l)) == l,
{
}

/// Name round trip: converting a level to its canonical name and back yields
/// the same level.
pub proof fn lemma_name_round_trip(l: LogLevel)
    ensures
        spec_from_name(spec_name(l)) == Ok::<LogLevel, LogError>(l),
{
    lemma_names_distinct();
}

/// A string that is no level's canonical name is rejected with
/// `UnknownLevelName`.
pub proof fn lemma_unknown_name(s: Seq<char>)
    requires
        forall|l: LogLevel| s != #[trigger] spec_name(l),
    ensures
        spec_from_name(s) == Err::<LogLevel, LogError>(LogError::UnknownLevelName),
{
    assert(s != spec_name(LogLevel::Debug));
    assert(s != spec_name(LogLevel::Info));
    assert(s != spec_name(LogLevel::Notice));
    assert(s != spec_name(LogLevel::Warning));
    assert(s != spec_name(LogLevel::Error));
    assert(s != spec_name(LogLevel::Critical));
    assert(s != spec_name(LogLevel::Alert));
    assert(s != spec_name(LogLevel::Emergency));
    assert(s != spec_name(LogLevel::Silent));
}

/// Distinct levels have distinct canonical names.
pub proof fn lemma_names_distinct()
    ensures
        forall|a: LogLevel, b: LogLevel| a != b ==> spec_name(a) != spec_name(b),
{
    reveal_strlit("DEBUG");
    reveal_strlit("INFO");
    reveal_strlit("NOTICE");
    reveal_strlit("WARNING");
    reveal_strlit("ERROR");
    reveal_strlit("CRITICAL");
    reveal_strlit("ALERT");
    reveal_strlit("EMERGENCY");
    reveal_strlit("SILENT");
    assert forall|a: LogLevel, b: LogLevel| a != b implies spec_name(a) != spec_name(b) by {
        assert(spec_name(LogLevel::Debug)[0] == 'D');
        assert(spec_name(LogLevel::Error)[0] == 'E');
        assert(spec_name(LogLevel::Alert)[0] == 'A');
        assert(spec_name(LogLevel::Notice)[0] == 'N');
        assert(spec_name(LogLevel::Silent)[0] == 'S');
        assert(spec_name(LogLevel::Info).len() == 4);
        assert(spec_name(LogLevel::Warning).len() == 7);
        assert(spec_name(LogLevel::Critical).len() == 8);
        assert(spec_name(LogLevel::Emergency).len() == 9);
    }
}

} // verus!
