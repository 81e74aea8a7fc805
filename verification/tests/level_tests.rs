use logos::level::NUM_LEVELS;
use logos::LogError;
use logos::LogLevel;

const ALL_LEVELS: [LogLevel; 9] = [
    LogLevel::Debug,
    LogLevel::Info,
    LogLevel::Notice,
    LogLevel::Warning,
    LogLevel::Error,
    LogLevel::Critical,
    LogLevel::Alert,
    LogLevel::Emergency,
    LogLevel::Silent,
];

#[test]
fn rank_round_trip_in_range() {
    for r in 0..NUM_LEVELS {
        let level = LogLevel::from_rank(r).expect("every rank below NUM_LEVELS names a level");
        assert_eq!(level.to_rank(), r);
    }
}

#[test]
fn from_rank_rejects_out_of_range() {
    assert_eq!(LogLevel::from_rank(NUM_LEVELS), Err(LogError::InvalidRank));
    assert_eq!(LogLevel::from_rank(10), Err(LogError::InvalidRank));
    assert_eq!(LogLevel::from_rank(usize::MAX), Err(LogError::InvalidRank));
}

#[test]
fn ordering_matches_rank() {
    for a in ALL_LEVELS {
        for b in ALL_LEVELS {
            let (ra, rb) = (a.to_rank(), b.to_rank());
            assert_eq!(a < b, ra < rb);
            assert_eq!(a > b, ra > rb);
            assert_eq!(a <= b, ra <= rb);
            assert_eq!(a >= b, ra >= rb);
            assert_eq!(a == b, ra == rb);
        }
    }
}

#[test]
fn canonical_names_are_exact() {
    let expected = [
        "DEBUG",
        "INFO",
        "NOTICE",
        "WARNING",
        "ERROR",
        "CRITICAL",
        "ALERT",
        "EMERGENCY",
        "SILENT",
    ];
    for (level, name) in ALL_LEVELS.iter().zip(expected.iter()) {
        assert_eq!(level.to_name(), Ok(*name));
    }
}

#[test]
fn name_round_trip() {
    for level in ALL_LEVELS {
        let name = level.to_name().expect("every level has a canonical name");
        assert_eq!(LogLevel::from_name(name), Ok(level));
    }
}

#[test]
fn from_name_rejects_unknown_strings() {
    assert_eq!(LogLevel::from_name(""), Err(LogError::UnknownLevelName));
    assert_eq!(LogLevel::from_name("warning"), Err(LogError::UnknownLevelName));
    assert_eq!(LogLevel::from_name("Warning"), Err(LogError::UnknownLevelName));
    assert_eq!(LogLevel::from_name("WARN"), Err(LogError::UnknownLevelName));
    assert_eq!(LogLevel::from_name("WARNING "), Err(LogError::UnknownLevelName));
    assert_eq!(LogLevel::from_name("3"), Err(LogError::UnknownLevelName));
}
