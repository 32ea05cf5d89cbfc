use zed_angular::completion::{
    highlight_name, label_for_completion, CodeLabel, CodeLabelSpan, Completion, CompletionKind,
    Range,
};
use zed_angular::config::build_workspace_configuration;
use zed_angular::install::{install_step, InstallAction, InstallEvent, InstallState};
use zed_angular::json::{key_less, set_nested, split_on_dots, JsonValue};
use zed_angular::server::{
    launch_args, manual_override, probe_locations, resolve_server, ServerSource, SERVER_PATH,
};
use zed_angular::settings::{build_feature_args, detect_angular_version, PackageJson, UserSettings};
use zed_angular::text::{chars_of, is_blank};
use zed_angular::version::{
    angular_version_table, map_angular_major_to_versions, parse_version, ParsedVersion,
    DEFAULT_ANGULAR_LANGUAGE_SERVER_VERSION, DEFAULT_TYPESCRIPT_VERSION,
};

fn s(x: &str) -> String {
    x.to_string()
}

fn object(members: Vec<(&str, JsonValue)>) -> JsonValue {
    JsonValue::Object(members.into_iter().map(|(k, v)| (k.to_string(), v)).collect())
}

fn at<'a>(root: &'a JsonValue, path: &[&str]) -> Option<&'a JsonValue> {
    let mut current = root;
    for key in path {
        current = current.get(key)?;
    }
    Some(current)
}

fn parsed(major: u32, cleaned: &str) -> Option<ParsedVersion> {
    Some(ParsedVersion { major, cleaned: s(cleaned) })
}

// ----- version ranges -----

#[test]
fn parse_version_major_must_fit_in_u32() {
    assert_eq!(parse_version("4294967295.0.0"), parsed(4294967295, "4294967295.0.0"));
    assert_eq!(parse_version("4294967296.0.0"), None);
    assert_eq!(parse_version("^99999999999999999999"), None);
}

#[test]
fn parse_version_prefix_rules() {
    // Letters and operators before the first digit are allowed, `:` and `@` are not.
    assert_eq!(parse_version("ws 17"), parsed(17, "17"));
    assert_eq!(parse_version("=17.1"), parsed(17, "17.1"));
    assert_eq!(parse_version("git+ssh:17"), None);
    assert_eq!(parse_version("foo@1.2.3"), None);
    // After the first digit they are part of the token.
    assert_eq!(parse_version("1.0.0@next"), parsed(1, "1.0.0@next"));
    assert_eq!(parse_version("abc"), None);
    assert_eq!(parse_version("   "), None);
}

#[test]
fn parse_version_leading_zeros_and_tabs() {
    assert_eq!(parse_version("007.1"), parsed(7, "007.1"));
    assert_eq!(parse_version(">=17.0.0\t<18"), parsed(17, "17.0.0"));
}

#[test]
fn parse_version_ignores_surrounding_white_space() {
    // Law: white space around a spec, including Unicode white space, changes nothing.
    for (padded, plain) in [
        ("  ^20.0.0  ", "^20.0.0"),
        ("\u{3000}~18.1.0\u{a0}", "~18.1.0"),
        ("\n\t>=19 <20\r\n", ">=19 <20"),
        ("\u{2003}latest\u{2028}", "latest"),
    ] {
        assert_eq!(parse_version(padded), parse_version(plain), "{padded:?}");
    }
}

#[test]
fn version_table_is_consecutive() {
    let table = angular_version_table();
    assert_eq!(table.len(), 9);
    for (i, row) in table.iter().enumerate() {
        assert_eq!(row.0, 13 + i as u32);
    }
}

#[test]
fn every_known_or_older_major_maps_to_a_pair() {
    // Law: a pair for every major up to the newest known one, none above it.
    for major in 0..=21 {
        assert!(map_angular_major_to_versions(major).is_some(), "{major}");
    }
    for major in [22, 23, 100, u32::MAX] {
        assert_eq!(map_angular_major_to_versions(major), None);
    }
    assert_eq!(map_angular_major_to_versions(0), map_angular_major_to_versions(13));
    assert_eq!(
        map_angular_major_to_versions(20),
        Some((s("20.3.0"), s("5.8.3")))
    );
}

// ----- text -----

#[test]
fn blank_detection_uses_unicode_white_space() {
    assert!(is_blank(""));
    assert!(is_blank(" \t\n\u{a0}\u{3000}"));
    assert!(!is_blank(" -992008 "));
    assert_eq!(chars_of("añ"), vec!['a', 'ñ']);
}

// ----- JSON -----

#[test]
fn split_on_dots_matches_str_split() {
    for path in ["a.b.c", "", ".", "a..b", "abc", ".a.", "x.y"] {
        let expected: Vec<String> = path.split('.').map(|p| p.to_string()).collect();
        assert_eq!(split_on_dots(path), expected, "{path:?}");
    }
}

#[test]
fn set_nested_read_back_and_frame() {
    // Law: reading the written path gives the value; other top-level keys stay.
    let mut root = object(vec![("angular", JsonValue::Null), ("editor", JsonValue::Str(s("x")))]);
    set_nested(&mut root, "angular.a.b", JsonValue::Number(s("1.5")));
    assert_eq!(at(&root, &["angular", "a", "b"]), Some(&JsonValue::Number(s("1.5"))));
    assert_eq!(at(&root, &["editor"]), Some(&JsonValue::Str(s("x"))));
    // The non-object intermediate was replaced in place.
    assert_eq!(
        root,
        object(vec![
            ("angular", object(vec![("a", object(vec![("b", JsonValue::Number(s("1.5")))]))])),
            ("editor", JsonValue::Str(s("x"))),
        ])
    );
}

#[test]
fn set_nested_on_non_object_root_does_nothing() {
    let mut root = JsonValue::Array(vec![JsonValue::Bool(true)]);
    set_nested(&mut root, "a", JsonValue::Null);
    assert_eq!(root, JsonValue::Array(vec![JsonValue::Bool(true)]));
    let mut root = JsonValue::Str(s("on"));
    set_nested(&mut root, "a.b", JsonValue::Null);
    assert_eq!(root, JsonValue::Str(s("on")));
}

#[test]
fn set_nested_empty_parts_are_keys() {
    let mut root = JsonValue::empty_object();
    set_nested(&mut root, "", JsonValue::Bool(true));
    set_nested(&mut root, "a..b", JsonValue::Bool(false));
    assert_eq!(
        root,
        object(vec![
            ("", JsonValue::Bool(true)),
            ("a", object(vec![("", object(vec![("b", JsonValue::Bool(false))]))])),
        ])
    );
}

#[test]
fn set_nested_twice_keeps_one_member() {
    // Law: objects keep their keys distinct.
    let mut root = JsonValue::empty_object();
    set_nested(&mut root, "a.b", JsonValue::Bool(true));
    set_nested(&mut root, "a.b", JsonValue::Bool(false));
    set_nested(&mut root, "a.c", JsonValue::Null);
    assert_eq!(
        root,
        object(vec![(
            "a",
            object(vec![("b", JsonValue::Bool(false)), ("c", JsonValue::Null)])
        )])
    );
}

#[test]
fn deep_clone_copies_nested_values() {
    let v = object(vec![(
        "a",
        JsonValue::Array(vec![JsonValue::Null, object(vec![("b", JsonValue::Str(s("c")))])]),
    )]);
    assert_eq!(v.deep_clone(), v);
    assert!(v.is_object());
    assert!(!JsonValue::Null.is_object());
}

// ----- workspace configuration -----

#[test]
fn workspace_configuration_defaults_in_full() {
    let config = build_workspace_configuration(&UserSettings::default());
    let t = || JsonValue::Bool(true);
    // Members stand in the order of their keys.
    assert_eq!(
        config,
        object(vec![
            (
                "angular",
                object(vec![(
                    "inlayHints",
                    object(vec![
                        (
                            "bindingHints",
                            object(vec![("pipeOutputTypes", t()), ("twoWayBindingSignalTypes", t())])
                        ),
                        ("controlFlowHints", object(vec![("switchExpressionTypes", t())])),
                        ("eventHints", object(vec![("parameterTypes", t())])),
                        (
                            "variableTypes",
                            object(vec![
                                ("forLoopVariableTypes", t()),
                                ("ifAliasTypes", t()),
                                ("letDeclarationTypes", t()),
                                ("referenceVariableTypes", t()),
                            ])
                        ),
                    ])
                )])
            ),
            ("editor", object(vec![("inlayHints", object(vec![("enabled", JsonValue::Str(s("on")))]))])),
        ])
    );
}

#[test]
fn workspace_configuration_strict_templates_and_later_override() {
    let mut settings = UserSettings::default();
    settings.force_strict_templates = Some(true);
    settings.extra.push((s("angular.suggest.autoImports"), JsonValue::Bool(false)));
    settings.extra.push((s("editor.inlayHints.enabled"), JsonValue::Str(s("off"))));
    settings.extra.push((s("angular.inlayHints"), JsonValue::Bool(false)));
    let config = build_workspace_configuration(&settings);
    assert_eq!(at(&config, &["angular", "forceStrictTemplates"]), Some(&JsonValue::Bool(true)));
    assert_eq!(at(&config, &["angular", "suggest", "autoImports"]), Some(&JsonValue::Bool(false)));
    assert_eq!(at(&config, &["editor", "inlayHints", "enabled"]), Some(&JsonValue::Str(s("off"))));
    // The last key wins over the defaults beneath it.
    assert_eq!(at(&config, &["angular", "inlayHints"]), Some(&JsonValue::Bool(false)));
}

// ----- feature flags -----

#[test]
fn feature_args_default_only_auto_imports() {
    let args = build_feature_args(&UserSettings::default(), None);
    assert_eq!(args, vec![s("--includeCompletionsForModuleExports"), s("true")]);
}

#[test]
fn feature_args_all_enabled() {
    let settings = UserSettings {
        include_automatic_optional_chain_completions: Some(true),
        include_completions_with_snippet_text: Some(true),
        auto_imports: Some(false),
        force_strict_templates: Some(true),
        suppress_angular_diagnostic_codes: Some(s("-992008,-998001")),
        use_client_side_file_watcher: Some(true),
        ..UserSettings::default()
    };
    let args = build_feature_args(&settings, Some("17.3.0"));
    assert_eq!(
        args,
        vec![
            s("--includeAutomaticOptionalChainCompletions"),
            s("--includeCompletionsWithSnippetText"),
            s("--includeCompletionsForModuleExports"),
            s("false"),
            s("--forceStrictTemplates"),
            s("--suppressAngularDiagnosticCodes"),
            s("-992008,-998001"),
            s("--useClientSideFileWatcher"),
            s("--angularCoreVersion"),
            s("17.3.0"),
        ]
    );
}

#[test]
fn feature_args_skip_blank_codes_and_disabled_flags() {
    let settings = UserSettings {
        include_automatic_optional_chain_completions: Some(false),
        force_strict_templates: Some(false),
        suppress_angular_diagnostic_codes: Some(s("  \t")),
        ..UserSettings::default()
    };
    let args = build_feature_args(&settings, None);
    assert_eq!(args, vec![s("--includeCompletionsForModuleExports"), s("true")]);
}

// ----- package.json -----

fn pkg(deps: &[(&str, &str)], dev: &[(&str, &str)]) -> PackageJson {
    PackageJson {
        dependencies: deps.iter().map(|(a, b)| (s(a), s(b))).collect(),
        dev_dependencies: dev.iter().map(|(a, b)| (s(a), s(b))).collect(),
    }
}

#[test]
fn detect_prefers_core_then_language_service() {
    let p = pkg(&[("@angular/core", "^17.3.0")], &[("@angular/language-service", "16.0.0")]);
    assert_eq!(detect_angular_version(&p), parsed(17, "17.3.0"));
    let p = pkg(&[("rxjs", "7.0.0")], &[("@angular/language-service", "~16.2.1")]);
    assert_eq!(detect_angular_version(&p), parsed(16, "16.2.1"));
    let p = pkg(&[], &[("@angular/core", "19.0.0")]);
    assert_eq!(detect_angular_version(&p), parsed(19, "19.0.0"));
}

#[test]
fn detect_gives_none_without_a_usable_range() {
    assert_eq!(detect_angular_version(&pkg(&[], &[])), None);
    let p = pkg(&[("@angular/core", "latest")], &[("@angular/language-service", "next")]);
    assert_eq!(detect_angular_version(&p), None);
}

#[test]
fn detect_falls_back_to_language_service_when_core_is_unusable() {
    let p = pkg(&[("@angular/core", "latest"), ("@angular/language-service", "^17.0.0")], &[]);
    assert_eq!(detect_angular_version(&p), parsed(17, "17.0.0"));
}

// ----- server resolution -----

fn managed(als: &str, ts: &str) -> ServerSource {
    ServerSource::Managed { als_version: s(als), ts_version: s(ts) }
}

#[test]
fn manual_override_wins() {
    let mut settings = UserSettings::default();
    assert_eq!(manual_override(&settings), None);
    settings.typescript_version = Some(s("5.4.0"));
    let v = ParsedVersion { major: 15, cleaned: s("15.0.0") };
    assert_eq!(
        resolve_server(&settings, true, true, "/p", Some(&v)),
        managed(DEFAULT_ANGULAR_LANGUAGE_SERVER_VERSION, "5.4.0")
    );
    settings.angular_language_server_version = Some(s("latest"));
    assert_eq!(manual_override(&settings), Some(managed("latest", "5.4.0")));
}

#[test]
fn project_server_needs_both_files() {
    let settings = UserSettings::default();
    assert_eq!(
        resolve_server(&settings, true, true, "/work/app", None),
        ServerSource::ProjectNodeModules {
            index_js_abs: s("/work/app/node_modules/@angular/language-server/index.js"),
            tsdk_abs: s("/work/app/node_modules/typescript/lib"),
        }
    );
    let v = ParsedVersion { major: 14, cleaned: s("14.1.0") };
    assert_eq!(resolve_server(&settings, true, false, "/w", Some(&v)), managed("14.2.0", "4.8.4"));
    assert_eq!(
        resolve_server(&settings, false, true, "/w", None),
        managed(DEFAULT_ANGULAR_LANGUAGE_SERVER_VERSION, DEFAULT_TYPESCRIPT_VERSION)
    );
    let newer = ParsedVersion { major: 30, cleaned: s("30.0.0") };
    assert_eq!(
        resolve_server(&settings, false, false, "/w", Some(&newer)),
        managed("21.2.17", "5.9.3")
    );
}

#[test]
fn launch_arguments_in_order() {
    let probes = probe_locations(Some(s("/ext")), s("/proj"));
    assert_eq!(probes, vec![s("/ext"), s("/proj")]);
    assert_eq!(probe_locations(None, s("/proj")), vec![s("/proj")]);
    let v = ParsedVersion { major: 18, cleaned: s("18.0.0-rc.1") };
    let args = launch_args(s("/ext/index.js"), s("node_modules/typescript/lib"), &probes, &UserSettings::default(), Some(&v));
    assert_eq!(
        args,
        vec![
            s("/ext/index.js"),
            s("--stdio"),
            s("--tsProbeLocations"),
            s("/ext"),
            s("/proj"),
            s("--ngProbeLocations"),
            s("/ext"),
            s("/proj"),
            s("--tsdk"),
            s("node_modules/typescript/lib"),
            s("--includeCompletionsForModuleExports"),
            s("true"),
            s("--angularCoreVersion"),
            s("18.0.0-rc.1"),
        ]
    );
}

// ----- installation -----

/// Runs an installation, answering each request from `answer`, and returns the actions
/// asked for and the outcome.
fn run(
    als: &str,
    ts: &str,
    mut answer: impl FnMut(&InstallAction) -> InstallEvent,
) -> (Vec<InstallAction>, Result<String, String>) {
    let mut state = InstallState::start(als, ts);
    let mut actions = Vec::new();
    loop {
        let action = state.action();
        if let InstallAction::Finish(r) = action {
            return (actions, r);
        }
        let event = answer(&action);
        actions.push(action);
        state = install_step(state, event);
    }
}

fn install(p: &str, v: &str) -> InstallAction {
    InstallAction::Install { package: s(p), version: s(v) }
}

#[test]
fn install_skipped_when_up_to_date() {
    let (actions, outcome) = run("17.3.2", "5.4.5", |a| match a {
        InstallAction::ReportCheckingForUpdate => InstallEvent::StatusReported,
        InstallAction::QueryInstalledVersion(p) if p == "typescript" => {
            InstallEvent::InstalledVersion(Ok(Some(s("5.4.5"))))
        }
        InstallAction::QueryInstalledVersion(_) => InstallEvent::InstalledVersion(Ok(Some(s("17.3.2")))),
        InstallAction::CheckServerFile => InstallEvent::ServerFile(true),
        _ => panic!("unexpected {a:?}"),
    });
    assert_eq!(outcome, Ok(s(SERVER_PATH)));
    assert!(!actions.iter().any(|a| matches!(a, InstallAction::Install { .. })));
}

#[test]
fn install_resolves_latest_and_installs_both() {
    let (actions, outcome) = run("latest", "latest", |a| match a {
        InstallAction::ReportCheckingForUpdate => InstallEvent::StatusReported,
        InstallAction::FetchLatestVersion(p) if p == "typescript" => InstallEvent::LatestVersion(Ok(s("5.9.9"))),
        InstallAction::FetchLatestVersion(_) => InstallEvent::LatestVersion(Ok(s("22.0.0"))),
        InstallAction::QueryInstalledVersion(_) => InstallEvent::InstalledVersion(Ok(None)),
        InstallAction::Install { .. } => InstallEvent::Installed(Ok(())),
        InstallAction::CheckServerFile => InstallEvent::ServerFile(true),
        _ => panic!("unexpected {a:?}"),
    });
    assert_eq!(outcome, Ok(s(SERVER_PATH)));
    assert_eq!(
        actions,
        vec![
            InstallAction::ReportCheckingForUpdate,
            InstallAction::FetchLatestVersion(s("@angular/language-server")),
            InstallAction::FetchLatestVersion(s("typescript")),
            InstallAction::QueryInstalledVersion(s("@angular/language-server")),
            InstallAction::QueryInstalledVersion(s("typescript")),
            install("@angular/language-server", "22.0.0"),
            install("typescript", "5.9.9"),
            InstallAction::CheckServerFile,
        ]
    );
}

#[test]
fn install_reinstalls_when_server_file_missing() {
    let mut checks = 0;
    let (actions, outcome) = run("17.3.2", "5.4.5", |a| match a {
        InstallAction::ReportCheckingForUpdate => InstallEvent::StatusReported,
        InstallAction::QueryInstalledVersion(p) if p == "typescript" => {
            InstallEvent::InstalledVersion(Ok(Some(s("5.4.5"))))
        }
        InstallAction::QueryInstalledVersion(_) => InstallEvent::InstalledVersion(Ok(Some(s("17.3.2")))),
        InstallAction::CheckServerFile => {
            checks += 1;
            InstallEvent::ServerFile(checks > 1)
        }
        InstallAction::Install { .. } => InstallEvent::Installed(Ok(())),
        _ => panic!("unexpected {a:?}"),
    });
    assert_eq!(outcome, Ok(s(SERVER_PATH)));
    assert!(actions.contains(&install("@angular/language-server", "17.3.2")));
    assert!(actions.contains(&install("typescript", "5.4.5")));
}

#[test]
fn install_failures_carry_their_messages() {
    let (_, outcome) = run("latest", "5.0.0", |a| match a {
        InstallAction::ReportCheckingForUpdate => InstallEvent::StatusReported,
        _ => InstallEvent::LatestVersion(Err(s("offline"))),
    });
    assert_eq!(outcome, Err(s("offline")));

    let (_, outcome) = run("1.0.0", "2.0.0", |a| match a {
        InstallAction::ReportCheckingForUpdate => InstallEvent::StatusReported,
        InstallAction::QueryInstalledVersion(_) => InstallEvent::InstalledVersion(Err(s("no npm"))),
        _ => panic!("unexpected {a:?}"),
    });
    assert_eq!(outcome, Err(s("no npm")));

    let (_, outcome) = run("1.0.0", "2.0.0", |a| match a {
        InstallAction::ReportCheckingForUpdate => InstallEvent::StatusReported,
        InstallAction::QueryInstalledVersion(_) => InstallEvent::InstalledVersion(Ok(None)),
        InstallAction::Install { .. } => InstallEvent::Installed(Err(s("E404"))),
        _ => panic!("unexpected {a:?}"),
    });
    assert_eq!(outcome, Err(s("Failed to install package '@angular/language-server': E404")));

    let (_, outcome) = run("1.0.0", "2.0.0", |a| match a {
        InstallAction::ReportCheckingForUpdate => InstallEvent::StatusReported,
        InstallAction::QueryInstalledVersion(_) => InstallEvent::InstalledVersion(Ok(None)),
        InstallAction::Install { package, .. } if package == "typescript" => {
            InstallEvent::Installed(Err(s("disk full")))
        }
        InstallAction::Install { .. } => InstallEvent::Installed(Ok(())),
        _ => panic!("unexpected {a:?}"),
    });
    assert_eq!(outcome, Err(s("Failed to install package 'typescript': disk full")));

    let (_, outcome) = run("1.0.0", "2.0.0", |a| match a {
        InstallAction::ReportCheckingForUpdate => InstallEvent::StatusReported,
        InstallAction::QueryInstalledVersion(_) => InstallEvent::InstalledVersion(Ok(None)),
        InstallAction::Install { .. } => InstallEvent::Installed(Ok(())),
        InstallAction::CheckServerFile => InstallEvent::ServerFile(false),
        _ => panic!("unexpected {a:?}"),
    });
    assert_eq!(
        outcome,
        Err(s("Installed package '@angular/language-server' did not contain expected path 'node_modules/@angular/language-server/index.js'"))
    );
}

#[test]
fn install_ignores_events_that_answer_nothing() {
    let state = InstallState::start("1.0.0", "2.0.0");
    let state = install_step(state, InstallEvent::ServerFile(true));
    assert_eq!(state.action(), InstallAction::ReportCheckingForUpdate);
    let done = InstallState::Finished(Ok(s("x")));
    let done = install_step(done, InstallEvent::StatusReported);
    assert_eq!(done, InstallState::Finished(Ok(s("x"))));
}

// ----- completion labels -----

fn completion(label: &str, detail: Option<&str>, kind: Option<CompletionKind>) -> Completion {
    Completion { label: s(label), detail: detail.map(s), kind }
}

fn lit(text: &str, highlight: Option<&str>) -> CodeLabelSpan {
    CodeLabelSpan::Literal { text: s(text), highlight_name: highlight.map(s) }
}

#[test]
fn completion_label_with_detail() {
    let label = label_for_completion(completion("ngOnInit", Some("(): void"), Some(CompletionKind::Method)));
    assert_eq!(
        label,
        Some(CodeLabel {
            code: String::new(),
            spans: vec![lit("ngOnInit", Some("function")), lit(" ", None), lit("(): void", Some("detail"))],
            filter_range: Range { start: 0, end: 8 },
        })
    );
}

#[test]
fn completion_label_counts_bytes() {
    let label = label_for_completion(completion("né", None, Some(CompletionKind::Enum))).unwrap();
    assert_eq!(label.spans, vec![lit("né", Some("enum"))]);
    assert_eq!(label.filter_range, Range { start: 0, end: 3 });
}

#[test]
fn completion_without_highlight_gets_no_label() {
    assert_eq!(label_for_completion(completion("x", None, None)), None);
    assert_eq!(label_for_completion(completion("x", None, Some(CompletionKind::Snippet))), None);
    assert_eq!(label_for_completion(completion("x", None, Some(CompletionKind::Other(7)))), None);
    assert_eq!(highlight_name(&CompletionKind::Constructor), Some("constructor"));
    assert_eq!(highlight_name(&CompletionKind::Interface), Some("type"));
    assert_eq!(highlight_name(&CompletionKind::Field), Some("property"));
    assert_eq!(highlight_name(&CompletionKind::Value), None);
}

// ----- path laws -----

#[test]
fn set_nested_deep_frame_and_commute() {
    let base = || {
        object(vec![(
            "angular",
            object(vec![("a", object(vec![("x", JsonValue::Bool(true)), ("y", JsonValue::Null)]))]),
        )])
    };
    // Writing one path leaves unrelated deep paths alone.
    let mut r = base();
    set_nested(&mut r, "angular.a.y", JsonValue::Str(s("new")));
    assert_eq!(at(&r, &["angular", "a", "x"]), Some(&JsonValue::Bool(true)));
    // Unrelated writes in either order read the same at their paths and elsewhere.
    let mut r1 = base();
    set_nested(&mut r1, "angular.b.c", JsonValue::Bool(false));
    set_nested(&mut r1, "angular.a.z", JsonValue::Number(s("3")));
    let mut r2 = base();
    set_nested(&mut r2, "angular.a.z", JsonValue::Number(s("3")));
    set_nested(&mut r2, "angular.b.c", JsonValue::Bool(false));
    assert_eq!(r1, r2);
    for path in [
        &["angular", "b", "c"][..],
        &["angular", "a", "z"][..],
        &["angular", "a", "x"][..],
        &["angular", "a", "y"][..],
        &["editor"][..],
    ] {
        assert_eq!(at(&r1, path), at(&r2, path), "{path:?}");
    }
}

#[test]
fn workspace_configuration_reads_every_user_key_in_any_order() {
    let entries = vec![
        (s("angular.inlayHints.variableTypes.ifAliasTypes"), JsonValue::Bool(false)),
        (s("angular.suggest.autoImports"), JsonValue::Bool(false)),
        (s("editor.inlayHints.enabled"), JsonValue::Str(s("offUnlessPressed"))),
    ];
    let mut forward = UserSettings::default();
    let mut backward = UserSettings::default();
    for (k, v) in &entries {
        forward.extra.push((k.clone(), v.deep_clone()));
    }
    for (k, v) in entries.iter().rev() {
        backward.extra.push((k.clone(), v.deep_clone()));
    }
    let c1 = build_workspace_configuration(&forward);
    let c2 = build_workspace_configuration(&backward);
    for (k, v) in &entries {
        let path: Vec<&str> = k.split('.').collect();
        assert_eq!(at(&c1, &path), Some(v));
        assert_eq!(at(&c2, &path), Some(v));
    }
    assert_eq!(c1, c2);
}

#[test]
fn set_nested_keeps_members_in_key_order() {
    let mut r1 = JsonValue::empty_object();
    set_nested(&mut r1, "b", JsonValue::Null);
    set_nested(&mut r1, "c", JsonValue::Null);
    let mut r2 = JsonValue::empty_object();
    set_nested(&mut r2, "c", JsonValue::Null);
    set_nested(&mut r2, "b", JsonValue::Null);
    assert_eq!(r1, r2);
    set_nested(&mut r1, "B", JsonValue::Null);
    set_nested(&mut r1, "bb", JsonValue::Null);
    set_nested(&mut r1, "\u{e9}", JsonValue::Null);
    set_nested(&mut r1, "", JsonValue::Null);
    let keys: Vec<String> = match &r1 {
        JsonValue::Object(m) => m.iter().map(|(k, _)| k.clone()).collect(),
        _ => vec![],
    };
    let mut sorted = keys.clone();
    sorted.sort();
    assert_eq!(keys, sorted);
    assert_eq!(keys, vec![s(""), s("B"), s("b"), s("bb"), s("c"), s("\u{e9}")]);
}

#[test]
fn key_order_matches_string_order() {
    for (a, b) in [("a", "b"), ("a", "ab"), ("", "a"), ("Z", "a"), ("z", "\u{e9}"), ("ab", "a"), ("a", "a")] {
        assert_eq!(key_less(&s(a), &s(b)), s(a) < s(b), "{a:?} {b:?}");
    }
}
