//! The log filter and the readiness flag.
use siphon_ai::telemetry::log_filter::{
    LogFilterError, LogFilterHandle, MISPLACED_SPACE, has_global_level, with_floor,
};
use siphon_ai::telemetry::readiness::ReadinessFlag;

#[test]
fn target_only_directives_get_the_floor() {
    for d in [
        "siphon_ai=debug",
        "siphon_ai=info,siphon=info,forge=info",
        "siphon_ai::registration=debug",
        "siphon_ai[call{call_id}]=trace",
        "[span{field=1}]=debug",
    ] {
        let (eff, added) = with_floor(d);
        assert!(added, "{d}");
        assert_eq!(eff, format!("warn,{d}"));
        assert!(!has_global_level(d));
    }
}

#[test]
fn a_global_level_anywhere_is_left_alone() {
    for d in [
        "warn,siphon_ai=debug",
        "siphon_ai=debug,warn",
        "info",
        "OFF",
        "Debug,hyper=off",
        " error , siphon_ai=trace ",
    ] {
        let (eff, added) = with_floor(d);
        assert!(!added, "{d}");
        assert_eq!(eff, d.trim());
        assert!(has_global_level(d));
    }
}

#[test]
fn empty_becomes_the_bare_floor() {
    assert_eq!(with_floor(""), ("warn".to_string(), true));
    assert_eq!(with_floor("   "), ("warn".to_string(), true));
}

#[test]
fn level_lookalikes_do_not_count_as_a_floor() {
    // A target that happens to be spelled like a level is still a
    // target directive, and a level-valued target is not global.
    assert!(!has_global_level("warn=debug"));
    assert!(!has_global_level("info[span]=trace"));
    assert!(!has_global_level("warning"));
}

#[test]
fn handle_set_applies_the_floor_unless_disabled() {
    let mut h = LogFilterHandle::new("off".to_string());
    let (_, eff) = h.set_effective("siphon_ai=debug").unwrap();
    assert_eq!(eff, "warn,siphon_ai=debug");
    let (_, eff) = h.set_effective("off").unwrap();
    assert_eq!(eff, "off");

    let mut h = LogFilterHandle::new("off".to_string()).with_enforce_floor(false);
    let (_, eff) = h.set_effective("siphon_ai=debug").unwrap();
    assert_eq!(eff, "siphon_ai=debug");
}

#[test]
fn a_directive_that_does_not_parse_leaves_the_filter_alone() {
    let mut h = LogFilterHandle::new("info".to_string());
    assert!(h.set("siphon_ai=notalevel").is_err());
    assert_eq!(h.current(), "info");
    match h.set("siphon_ai=notalevel").unwrap_err() {
        LogFilterError::Parse { directive, err } => {
            assert!(directive.contains("siphon_ai=notalevel"));
            assert!(!err.is_empty());
        }
        other => panic!("expected a parse error, got {other:?}"),
    }
}

#[test]
fn defaults_to_not_ready() {
    let f = ReadinessFlag::new();
    assert!(!f.is_ready());
}

#[test]
fn mark_ready_is_idempotent() {
    let f = ReadinessFlag::new();
    f.mark_ready();
    assert!(f.is_ready());
    f.mark_ready();
    assert!(f.is_ready());
}

#[test]
fn clone_shares_state() {
    let a = ReadinessFlag::new();
    let b = a.clone();
    assert!(!a.is_ready() && !b.is_ready());
    a.mark_ready();
    assert!(a.is_ready() && b.is_ready());
    b.mark_not_ready();
    assert!(!a.is_ready() && !b.is_ready());
}

fn refusal(directive: &str, floor: bool) -> Option<String> {
    let mut h = LogFilterHandle::new("off".to_string()).with_enforce_floor(floor);
    match h.set(directive) {
        Ok(_) => None,
        Err(LogFilterError::Parse { directive: d, err }) => {
            assert_eq!(d, directive);
            assert_eq!(h.current(), "off");
            Some(err)
        }
        Err(other) => panic!("{other:?}"),
    }
}

#[test]
fn white_space_that_shifts_a_part_into_a_character_is_refused() {
    for directive in [
        "warn,\u{a0}a=debug",
        "warn, \u{e9}=debug",
        "warn, \u{e9}[s]",
        "warn, [\u{e9}]=debug",
        "warn,\u{3000}[s{f}]=debug",
        "warn,    [s{f=....\u{e9}}]=x",
    ] {
        for floor in [true, false] {
            assert_eq!(refusal(directive, floor).as_deref(), Some(MISPLACED_SPACE), "{directive}");
        }
    }
}

#[test]
fn white_space_that_shifts_no_part_into_a_character_is_read() {
    for directive in [
        "warn, \u{e9}",
        "\u{e9}=info,\u{3000}x",
        "warn,\u{e9}=debug",
        "warn, a",
        "warn, \u{e9}\u{e9}",
    ] {
        for floor in [true, false] {
            assert_eq!(refusal(directive, floor), None, "{directive}");
        }
    }
    let mut h = LogFilterHandle::noop();
    h.set("warn, \u{e9}").unwrap();
    assert_eq!(h.current(), " \u{e9}=trace,warn");
}

#[test]
fn an_error_before_the_shifted_part_is_the_parsers() {
    for directive in [
        "warn,a=nolevel,\u{a0}a=debug",
        "warn, !\u{e9}=debug",
        "warn, [\u{e9}",
        "warn,    [s{f=((((\u{e9}}]=x",
    ] {
        for floor in [true, false] {
            let err = refusal(directive, floor).expect("refused");
            assert_ne!(err, MISPLACED_SPACE, "{directive}");
        }
    }
}
