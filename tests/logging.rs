use transit_sim::line_definitions::{
    generate_line_css, get_line_color, get_other_rail_lines, get_overground_lines, get_underground_lines,
    line_infos, LineType,
};
use transit_sim::log::{
    debug, debug_enabled, debug_with_category, debug_with_category_and_source, debug_with_source, decimal,
    error, error_with_category, format_and_log, get_log_level, info, info_with_category, is_category_enabled,
    set_category_enabled, set_log_level, warn, warn_with_category, with_context, ContextLogger, LogCategory,
    LogConfig, LogLevel,
};
use transit_sim::map_helpers;

fn some(s: &str) -> Option<String> {
    Some(s.to_string())
}

#[test]
fn threshold_filters_by_severity() {
    let mut cfg = LogConfig::new();
    assert_eq!(get_log_level(&cfg), LogLevel::Info);
    assert_eq!(debug(&cfg, "x"), None);
    assert_eq!(info(&cfg, "hello"), some("[INFO] [GEN] hello"));
    assert_eq!(warn(&cfg, "w"), some("[WARN] [GEN] w"));
    assert_eq!(error(&cfg, "e"), some("[ERROR] [GEN] e"));
    set_log_level(&mut cfg, LogLevel::Debug);
    assert_eq!(debug(&cfg, "x"), some("[DEBUG] [GEN] x"));
    set_log_level(&mut cfg, LogLevel::Off);
    assert_eq!(error(&cfg, "e"), None);
}

#[test]
fn categories_can_be_switched_off() {
    let mut cfg = LogConfig::new();
    assert_eq!(info_with_category(&cfg, LogCategory::MapLayer, "m"), some("[INFO] [MAP] m"));
    set_category_enabled(&mut cfg, LogCategory::MapLayer, false);
    assert!(!is_category_enabled(&cfg, LogCategory::MapLayer));
    assert!(is_category_enabled(&cfg, LogCategory::App));
    assert_eq!(info_with_category(&cfg, LogCategory::MapLayer, "m"), None);
    assert_eq!(warn_with_category(&cfg, LogCategory::App, "a"), some("[WARN] [APP] a"));
    assert_eq!(error_with_category(&cfg, LogCategory::Simulation, "s"), some("[ERROR] [SIM] s"));
    assert_eq!(LogCategory::General.as_str(), "GEN");
}

#[test]
fn source_locations_are_written_in_decimal() {
    let mut cfg = LogConfig::new();
    set_log_level(&mut cfg, LogLevel::Debug);
    assert_eq!(debug_with_source(&cfg, "msg", "a.rs", 1024), some("[DEBUG] [GEN] [a.rs:1024] msg"));
    assert_eq!(
        debug_with_category_and_source(&cfg, LogCategory::App, "m", "b.rs", 0),
        some("[DEBUG] [APP] [b.rs:0] m")
    );
    assert_eq!(debug_with_category(&cfg, LogCategory::Simulation, "d"), some("[DEBUG] [SIM] d"));
    assert_eq!(decimal(4_294_967_295), "4294967295");
}

#[test]
fn debug_message_is_built_only_when_needed() {
    let cfg = LogConfig::new();
    assert_eq!(debug_enabled(&cfg, || panic!("not to be built")), None);
    let mut cfg = LogConfig::new();
    set_log_level(&mut cfg, LogLevel::Debug);
    assert_eq!(debug_enabled(&cfg, || "lazy".to_string()), some("[DEBUG] [GEN] lazy"));
}

#[test]
fn placeholders_are_filled_in_order() {
    let cfg = LogConfig::new();
    assert_eq!(
        format_and_log(&cfg, LogLevel::Info, LogCategory::General, "{} of {} done", &["3", "7"]),
        some("[INFO] [GEN] 3 of 7 done")
    );
    assert_eq!(
        format_and_log(&cfg, LogLevel::Warn, LogCategory::App, "no slots", &["x"]),
        some("[WARN] [APP] no slots")
    );
    assert_eq!(
        format_and_log(&cfg, LogLevel::Info, LogCategory::General, "{}|{}", &["{}", "b"]),
        some("[INFO] [GEN] b|{}")
    );
    assert_eq!(format_and_log(&cfg, LogLevel::Debug, LogCategory::General, "{}", &["z"]), None);
}

#[test]
fn context_logger_tags_lines() {
    let mut cfg = LogConfig::new();
    set_log_level(&mut cfg, LogLevel::Debug);
    let logger = ContextLogger::new("loader", LogCategory::MapLayer);
    assert_eq!(logger.debug(&cfg, "d"), some("[DEBUG] [MAP] [loader] d"));
    assert_eq!(logger.info(&cfg, "i"), some("[INFO] [MAP] [loader] i"));
    assert_eq!(logger.warn(&cfg, "w"), some("[WARN] [MAP] [loader] w"));
    assert_eq!(logger.error(&cfg, "e"), some("[ERROR] [MAP] [loader] e"));
    let line = with_context("ctx", LogCategory::App, |l: &ContextLogger| l.info(&cfg, "hi"));
    assert_eq!(line, some("[INFO] [APP] [ctx] hi"));
}

#[test]
fn line_colours_and_groups() {
    assert_eq!(get_line_color("central"), "#E32017");
    assert_eq!(get_line_color("london-overground"), "#777777");
    assert_eq!(get_line_color("nowhere"), "#777777");
    assert_eq!(map_helpers::get_line_color("london-overground"), "#EE7C0E");
    assert_eq!(map_helpers::get_line_color("nowhere"), "#FFFFFF");
    assert_eq!(line_infos().len(), 22);
    assert_eq!(get_underground_lines().len(), 11);
    assert!(get_underground_lines().iter().all(|l| l.line_type == LineType::Underground));
    let over: Vec<_> = get_overground_lines().iter().map(|l| l.id).collect();
    assert_eq!(over, vec!["liberty", "lioness", "mildmay", "suffragette", "weaver", "windrush"]);
    let other: Vec<_> = get_other_rail_lines().iter().map(|l| l.id).collect();
    assert_eq!(other, vec!["dlr", "elizabeth", "tram", "cable-car", "thameslink"]);
}

#[test]
fn css_lists_variables_then_classes() {
    let css = generate_line_css();
    assert!(css.starts_with(":root {\n  --bakerloo: #B36305;\n  --central: #E32017;\n"));
    assert!(css.contains("  --windrush: #FF2E24;\n}\n\n.color-line.bakerloo { background-color: var(--bakerloo); }\n"));
    assert!(css.ends_with(".color-line.windrush { background-color: var(--windrush); }\n"));
    assert_eq!(css.lines().count(), 1 + 22 + 1 + 1 + 22);
}
