use logos::filter::levels_at_or_above;
use logos::filter::parse_event_list;
use logos::filter::parse_min_level;
use logos::filter::MarkerSet;
use logos::LogLevel;

#[test]
fn named_events_without_level_stay_disabled() {
    let markers = MarkerSet::build("Startup, Shutdown", None);
    assert!(markers.event_enabled("Startup"));
    assert!(markers.event_enabled("Shutdown"));
    assert!(!markers.level_enabled(&LogLevel::Info));
    // Both marker families must be present: AND, not OR.
    assert!(!markers.call_site_enabled("Startup", &LogLevel::Info));
    assert!(!markers.call_site_enabled("Shutdown", &LogLevel::Emergency));
}

#[test]
fn warning_minimum_enables_five_levels() {
    let markers = MarkerSet::build("", Some("WARNING"));
    let enabled = markers.levels();
    assert_eq!(enabled.len(), 5);
    for level in [
        LogLevel::Warning,
        LogLevel::Error,
        LogLevel::Critical,
        LogLevel::Alert,
        LogLevel::Emergency,
    ] {
        assert!(markers.level_enabled(&level));
    }
    for level in [LogLevel::Debug, LogLevel::Info, LogLevel::Notice, LogLevel::Silent] {
        assert!(!markers.level_enabled(&level));
    }
}

#[test]
fn both_marker_families_enable_a_call_site() {
    let markers = MarkerSet::build("Startup, Shutdown", Some("WARNING"));
    assert!(markers.call_site_enabled("Startup", &LogLevel::Error));
    assert!(markers.call_site_enabled("Shutdown", &LogLevel::Warning));
    assert!(!markers.call_site_enabled("Startup", &LogLevel::Info));
    assert!(!markers.call_site_enabled("Other", &LogLevel::Error));
}

#[test]
fn event_entries_are_trimmed_and_empties_dropped() {
    let events = parse_event_list("  Startup ,\tShutdown\n, , Restart");
    assert_eq!(events, vec!["Startup", "Shutdown", "Restart"]);
    let markers = MarkerSet::build(" Startup , ,, ", None);
    assert!(markers.event_enabled("Startup"));
    assert!(!markers.event_enabled(" Startup "));
    assert!(!markers.event_enabled(""));
}

#[test]
fn empty_event_configuration_enables_nothing() {
    assert_eq!(parse_event_list(""), Vec::<String>::new());
    let markers = MarkerSet::build("", Some("DEBUG"));
    assert!(!markers.event_enabled(""));
    assert!(!markers.call_site_enabled("Startup", &LogLevel::Error));
}

#[test]
fn minimum_level_token_parses_names_and_ranks() {
    assert_eq!(parse_min_level("WARNING"), Some(LogLevel::Warning));
    assert_eq!(parse_min_level("3"), Some(LogLevel::Warning));
    assert_eq!(parse_min_level("0"), Some(LogLevel::Debug));
    assert_eq!(parse_min_level("007"), Some(LogLevel::Emergency));
    assert_eq!(parse_min_level("8"), Some(LogLevel::Silent));
    assert_eq!(parse_min_level(""), None);
    assert_eq!(parse_min_level("warning"), None);
    assert_eq!(parse_min_level("9"), None);
    assert_eq!(parse_min_level("99999999999999999999999999"), None);
    assert_eq!(parse_min_level(" 3"), None);
}

#[test]
fn misconfigured_minimum_degrades_to_no_level_markers() {
    for bad in ["banana", "9", "-1", "WARNING ", "3.5"] {
        let markers = MarkerSet::build("Startup", Some(bad));
        assert!(markers.levels().is_empty());
        assert!(!markers.call_site_enabled("Startup", &LogLevel::Emergency));
    }
}

#[test]
fn numeric_rank_matches_named_minimum() {
    let by_name = MarkerSet::build("", Some("ERROR"));
    let by_rank = MarkerSet::build("", Some("4"));
    assert_eq!(by_name.levels(), by_rank.levels());
}

#[test]
fn silent_minimum_enables_no_real_level() {
    let markers = MarkerSet::build("", Some("SILENT"));
    assert!(markers.levels().is_empty());
    assert!(levels_at_or_above(&LogLevel::Silent).is_empty());
    assert_eq!(levels_at_or_above(&LogLevel::Emergency), vec![LogLevel::Emergency]);
}
