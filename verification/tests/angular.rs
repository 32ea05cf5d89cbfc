use zed_angular::config::build_workspace_configuration;
use zed_angular::json::{set_nested, JsonValue};
use zed_angular::settings::UserSettings;
use zed_angular::version::{map_angular_major_to_versions, parse_version};

/// Assert a range parses to the given (major, cleaned) pair.
fn assert_parsed(range: &str, major: u32, cleaned: &str) {
    let parsed = parse_version(range).expect("should parse");
    assert_eq!(parsed.major, major, "major for {range:?}");
    assert_eq!(parsed.cleaned, cleaned, "cleaned for {range:?}");
}

/// Follows a path of keys through nested objects.
fn at<'a>(root: &'a JsonValue, path: &[&str]) -> Option<&'a JsonValue> {
    let mut current = root;
    for key in path {
        current = current.get(key)?;
    }
    Some(current)
}

/// An object with the given members.
fn object(members: Vec<(&str, JsonValue)>) -> JsonValue {
    JsonValue::Object(members.into_iter().map(|(k, v)| (k.to_string(), v)).collect())
}

#[test]
fn parses_common_version_ranges() {
    assert_parsed("^17.3.0", 17, "17.3.0");
    assert_parsed("~18.0.0-rc.1", 18, "18.0.0-rc.1");
    assert_parsed(">=19.0.0 <20.0.0", 19, "19.0.0");
    assert_parsed("17.3.0", 17, "17.3.0");
    assert_parsed("v16.1.0", 16, "16.1.0");
    assert_parsed("18.x", 18, "18.x");
    assert_parsed("  ^20.0.0  ", 20, "20.0.0");
    assert_parsed("21", 21, "21");
}

#[test]
fn rejects_non_numeric_ranges() {
    for range in [
        "latest",
        "next",
        "*",
        "workspace:*",
        "npm:@angular/core@17.0.0",
        "",
    ] {
        assert!(parse_version(range).is_none(), "{range:?} should not parse");
    }
}

#[test]
fn maps_known_majors_to_versions() {
    assert_eq!(
        map_angular_major_to_versions(17),
        Some(("17.3.2".to_string(), "5.4.5".to_string()))
    );
    assert_eq!(
        map_angular_major_to_versions(13),
        Some(("13.3.4".to_string(), "4.6.4".to_string()))
    );
    assert_eq!(
        map_angular_major_to_versions(21),
        Some(("21.2.17".to_string(), "5.9.3".to_string()))
    );
}

#[test]
fn clamps_below_lowest_and_defers_above_highest() {
    // Below the lowest known major clamps to the oldest entry (v13).
    assert_eq!(
        map_angular_major_to_versions(11),
        Some(("13.3.4".to_string(), "4.6.4".to_string()))
    );
    // Newer than the table -> defer to defaults.
    assert_eq!(map_angular_major_to_versions(99), None);
}

#[test]
fn set_nested_creates_and_overrides_paths() {
    let mut root = object(vec![(
        "angular",
        object(vec![(
            "inlayHints",
            object(vec![("variableTypes", object(vec![("ifAliasTypes", JsonValue::Bool(true))]))]),
        )]),
    )]);

    // Override an existing leaf.
    set_nested(
        &mut root,
        "angular.inlayHints.variableTypes.ifAliasTypes",
        JsonValue::Bool(false),
    );
    assert_eq!(
        at(&root, &["angular", "inlayHints", "variableTypes", "ifAliasTypes"]),
        Some(&JsonValue::Bool(false))
    );

    // Create a brand-new nested path.
    set_nested(
        &mut root,
        "angular.inlayHints.bindingHints.pipeOutputTypes",
        JsonValue::Bool(true),
    );
    assert_eq!(
        at(&root, &["angular", "inlayHints", "bindingHints", "pipeOutputTypes"]),
        Some(&JsonValue::Bool(true))
    );
}

#[test]
fn workspace_configuration_enables_hints_by_default() {
    let settings = UserSettings::default();
    let config = build_workspace_configuration(&settings);
    assert_eq!(
        at(&config, &["editor", "inlayHints", "enabled"]),
        Some(&JsonValue::Str("on".to_string()))
    );
    assert_eq!(
        at(&config, &["angular", "inlayHints", "variableTypes", "forLoopVariableTypes"]),
        Some(&JsonValue::Bool(true))
    );
}

#[test]
fn workspace_configuration_respects_user_override() {
    let mut settings = UserSettings::default();
    settings.extra.push((
        "angular.inlayHints.variableTypes.forLoopVariableTypes".to_string(),
        JsonValue::Bool(false),
    ));
    let config = build_workspace_configuration(&settings);
    assert_eq!(
        at(&config, &["angular", "inlayHints", "variableTypes", "forLoopVariableTypes"]),
        Some(&JsonValue::Bool(false))
    );
}
