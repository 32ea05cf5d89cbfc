//! The user's settings from `initialization_options`, the feature flags derived from them,
//! and the Angular version read from a project's `package.json`.
use vstd::prelude::*;
use crate::json::JsonValue;
use crate::text::{all_space, is_blank, lemma_contains_concat, lemma_contains_small, string_views};
use crate::version::{parse_version, spec_parse_version, ParsedVersion};

verus! {

/// User settings read from the language server's `initialization_options` in Zed's
/// `settings.json`. Version keys use snake_case; the Angular feature keys mirror the
/// dot-namespaced keys of the official VSCode extension.
#[derive(Debug, PartialEq)]
pub struct UserSettings {
    /// `angular_language_server_version`: pins the language server version.
    pub angular_language_server_version: Option<String>,
    /// `typescript_version`: pins the TypeScript version.
    pub typescript_version: Option<String>,
    /// `angular.suggest.includeAutomaticOptionalChainCompletions`.
    pub include_automatic_optional_chain_completions: Option<bool>,
    /// `angular.suggest.includeCompletionsWithSnippetText`.
    pub include_completions_with_snippet_text: Option<bool>,
    /// `angular.suggest.autoImports`; on when unset.
    pub auto_imports: Option<bool>,
    /// `angular.forceStrictTemplates`.
    pub force_strict_templates: Option<bool>,
    /// `angular.suppressAngularDiagnosticCodes`: a comma-separated list such as
    /// `"-992008,-998001"`.
    pub suppress_angular_diagnostic_codes: Option<String>,
    /// `angular.server.useClientSideFileWatcher`.
    pub use_client_side_file_watcher: Option<bool>,
    /// Every other key (notably the `angular.inlayHints.*` family), forwarded verbatim
    /// through the workspace configuration.
    pub extra: Vec<(String, JsonValue)>,
}

impl UserSettings {
    /// The user's other keys are distinct, as the JSON object they come from gives them.
    pub open spec fn wf(&self) -> bool {
        forall|i: int, j: int|
            0 <= i < j < self.extra@.len() ==> (#[trigger] self.extra@[i]).0@ != (
            #[trigger] self.extra@[j]).0@
    }
}

impl Default for UserSettings {
    fn default() -> (r: Self)
        ensures
            r.angular_language_server_version is None,
            r.typescript_version is None,
            r.include_automatic_optional_chain_completions is None,
            r.include_completions_with_snippet_text is None,
            r.auto_imports is None,
            r.force_strict_templates is None,
            r.suppress_angular_diagnostic_codes is None,
            r.use_client_side_file_watcher is None,
            r.extra@.len() == 0,
    {
        UserSettings {
            angular_language_server_version: None,
            typescript_version: None,
            include_automatic_optional_chain_completions: None,
            include_completions_with_snippet_text: None,
            auto_imports: None,
            force_strict_templates: None,
            suppress_angular_diagnostic_codes: None,
            use_client_side_file_watcher: None,
            extra: Vec::new(),
        }
    }
}

/// The setting `o`, or `default` when it is unset.
pub open spec fn setting_or(o: Option<bool>, default: bool) -> bool {
    match o {
        Some(b) => b,
        None => default,
    }
}

/// `name` when `on`, nothing otherwise.
pub open spec fn flag_if(on: bool, name: Seq<char>) -> Seq<Seq<char>> {
    if on {
        seq![name]
    } else {
        seq![]
    }
}

/// How `bool::to_string` writes `b`.
pub open spec fn bool_text(b: bool) -> Seq<char> {
    if b {
        "true"@
    } else {
        "false"@
    }
}

/// The suppressed diagnostic codes as flags: nothing when unset or blank.
pub open spec fn suppress_args(codes: Option<String>) -> Seq<Seq<char>> {
    match codes {
        Some(c) => if all_space(c@) {
            seq![]
        } else {
            seq!["--suppressAngularDiagnosticCodes"@, c@]
        },
        None => seq![],
    }
}

/// The Angular core version as flags: nothing when unknown.
pub open spec fn core_version_args(core_version: Option<Seq<char>>) -> Seq<Seq<char>> {
    match core_version {
        Some(v) => seq!["--angularCoreVersion"@, v],
        None => seq![],
    }
}

/// The feature flags forwarded to the language server, in the order the VSCode client
/// builds them: optional-chain completions and snippet completions when enabled,
/// auto-imports always (with their value, on by default), strict templates when enabled,
/// the suppressed diagnostic codes unless blank, the client-side file watcher when enabled,
/// and the project's Angular core version when known.
pub open spec fn spec_feature_args(s: UserSettings, core_version: Option<Seq<char>>) -> Seq<
    Seq<char>,
> {
    flag_if(
        setting_or(s.include_automatic_optional_chain_completions, false),
        "--includeAutomaticOptionalChainCompletions"@,
    ) + flag_if(
        setting_or(s.include_completions_with_snippet_text, false),
        "--includeCompletionsWithSnippetText"@,
    ) + seq![
        "--includeCompletionsForModuleExports"@,
        bool_text(setting_or(s.auto_imports, true)),
    ] + flag_if(setting_or(s.force_strict_templates, false), "--forceStrictTemplates"@)
        + suppress_args(s.suppress_angular_diagnostic_codes) + flag_if(
        setting_or(s.use_client_side_file_watcher, false),
        "--useClientSideFileWatcher"@,
    ) + core_version_args(core_version)
}

/// Appends `text` to `args`.
fn push_text(args: &mut Vec<String>, text: &str)
    ensures
        string_views(final(args)@) == string_views(old(args)@).push(text@),
{
    let ghost before = args@;
    args.push(text.to_owned());
    assert(string_views(args@) =~= string_views(before).push(text@));
}

/// Appends `text` to `args` when `on`.
fn push_flag_if(args: &mut Vec<String>, on: bool, text: &str)
    ensures
        string_views(final(args)@) == string_views(old(args)@) + flag_if(on, text@),
{
    let ghost before = args@;
    if on {
        push_text(args, text);
    }
    assert(string_views(args@) =~= string_views(before) + flag_if(on, text@));
}

/// Appends the suppressed diagnostic codes to `args`, unless they are unset or blank.
fn push_suppress_args(args: &mut Vec<String>, codes: &Option<String>)
    ensures
        string_views(final(args)@) == string_views(old(args)@) + suppress_args(*codes),
{
    let ghost before = args@;
    if let Some(codes) = codes {
        if !is_blank(codes.as_str()) {
            push_text(args, "--suppressAngularDiagnosticCodes");
            push_text(args, codes.as_str());
        }
    }
    assert(string_views(args@) =~= string_views(before) + suppress_args(*codes));
}

/// Appends the Angular core version to `args`, when known.
fn push_core_version_args(args: &mut Vec<String>, core_version: Option<&str>)
    ensures
        string_views(final(args)@) == string_views(old(args)@) + core_version_args(
            match core_version {
                Some(v) => Some(v@),
                None => None,
            },
        ),
{
    let ghost before = args@;
    if let Some(core_version) = core_version {
        push_text(args, "--angularCoreVersion");
        push_text(args, core_version);
    }
    assert(string_views(args@) =~= string_views(before) + core_version_args(
        match core_version {
            Some(v) => Some(v@),
            None => None,
        },
    ));
}

/// Builds the feature CLI flags forwarded to the language server, mirroring the official
/// VSCode client. `core_version`, when known, is passed as `--angularCoreVersion` so the
/// compiler stays compatible with older Angular versions.
pub fn build_feature_args(settings: &UserSettings, core_version: Option<&str>) -> (args: Vec<
    String,
>)
    ensures
        string_views(args@) == spec_feature_args(
            *settings,
            match core_version {
                Some(v) => Some(v@),
                None => None,
            },
        ),
{
    let mut args: Vec<String> = Vec::new();
    assert(string_views(args@) =~= Seq::<Seq<char>>::empty());
    let optional_chain = match settings.include_automatic_optional_chain_completions {
        Some(b) => b,
        None => false,
    };
    push_flag_if(&mut args, optional_chain, "--includeAutomaticOptionalChainCompletions");
    let snippets = match settings.include_completions_with_snippet_text {
        Some(b) => b,
        None => false,
    };
    push_flag_if(&mut args, snippets, "--includeCompletionsWithSnippetText");

    // Auto-imports default to true, matching the VSCode client.
    let ghost before_auto = string_views(args@);
    push_text(&mut args, "--includeCompletionsForModuleExports");
    let auto_imports = match settings.auto_imports {
        Some(b) => b,
        None => true,
    };
    if auto_imports {
        push_text(&mut args, "true");
    } else {
        push_text(&mut args, "false");
    }
    assert(string_views(args@) =~= before_auto + seq![
        "--includeCompletionsForModuleExports"@,
        bool_text(auto_imports),
    ]);

    let strict = match settings.force_strict_templates {
        Some(b) => b,
        None => false,
    };
    push_flag_if(&mut args, strict, "--forceStrictTemplates");
    push_suppress_args(&mut args, &settings.suppress_angular_diagnostic_codes);
    let watcher = match settings.use_client_side_file_watcher {
        Some(b) => b,
        None => false,
    };
    push_flag_if(&mut args, watcher, "--useClientSideFileWatcher");

    // Pass the project's Angular core version so the compiler targets it.
    push_core_version_args(&mut args, core_version);
    args
}

/// The package whose declared version is the project's Angular version.
pub const ANGULAR_CORE_PACKAGE_NAME: &'static str = "@angular/core";

/// The package consulted when `@angular/core` is not declared.
pub const ANGULAR_LANGUAGE_SERVICE_PACKAGE_NAME: &'static str = "@angular/language-service";

/// The part of a project's `package.json` needed to detect its Angular version: the
/// `dependencies` and `devDependencies` tables as (package, range spec) pairs.
#[derive(Debug, PartialEq)]
pub struct PackageJson {
    pub dependencies: Vec<(String, String)>,
    pub dev_dependencies: Vec<(String, String)>,
}

/// The package names and range specs of a dependency table.
pub open spec fn deps_view(d: Seq<(String, String)>) -> Seq<(Seq<char>, Seq<char>)> {
    d.map_values(|e: (String, String)| (e.0@, e.1@))
}

/// A dependency table names each package once, as the JSON object it comes from does.
pub open spec fn deps_distinct(d: Seq<(Seq<char>, Seq<char>)>) -> bool {
    forall|i: int, j: int| 0 <= i < j < d.len() ==> (#[trigger] d[i]).0 != (#[trigger] d[j]).0
}

impl PackageJson {
    /// Each table names each package at most once.
    pub open spec fn wf(&self) -> bool {
        deps_distinct(deps_view(self.dependencies@)) && deps_distinct(
            deps_view(self.dev_dependencies@),
        )
    }
}

/// The range spec that a dependency table gives for `name` (its first entry for it).
pub open spec fn dep_get(d: Seq<(Seq<char>, Seq<char>)>, name: Seq<char>) -> Option<Seq<char>>
    decreases d.len(),
{
    if d.len() == 0 {
        None
    } else if d[0].0 == name {
        Some(d[0].1)
    } else {
        dep_get(d.drop_first(), name)
    }
}

/// The range spec a package declares for `name`: from `dependencies`, else from
/// `devDependencies`.
pub open spec fn package_range(p: PackageJson, name: Seq<char>) -> Option<Seq<char>> {
    match dep_get(deps_view(p.dependencies@), name) {
        Some(r) => Some(r),
        None => dep_get(deps_view(p.dev_dependencies@), name),
    }
}

/// The version named by the range a package declares for `name`, when it declares one that
/// names a usable version.
pub open spec fn package_version(p: PackageJson, name: Seq<char>) -> Option<(u32, Seq<char>)> {
    match package_range(p, name) {
        Some(r) => spec_parse_version(r),
        None => None,
    }
}

/// The project's Angular version: the usable version declared for `@angular/core`, else the
/// one declared for `@angular/language-service`; none when neither declares a usable one.
pub open spec fn spec_detect_angular_version(p: PackageJson) -> Option<(u32, Seq<char>)> {
    match package_version(p, ANGULAR_CORE_PACKAGE_NAME@) {
        Some(v) => Some(v),
        None => package_version(p, ANGULAR_LANGUAGE_SERVICE_PACKAGE_NAME@),
    }
}

/// In a table that names each package once, the range found for a package is the one its
/// entry declares, wherever that entry stands.
pub proof fn lemma_dep_get_declared(d: Seq<(Seq<char>, Seq<char>)>, i: int)
    requires
        deps_distinct(d),
        0 <= i < d.len(),
    ensures
        dep_get(d, d[i].0) == Some(d[i].1),
    decreases d.len(),
{
    if d[0].0 != d[i].0 {
        let t = d.drop_first();
        assert(t[i - 1] == d[i]);
        assert forall|a: int, b: int| 0 <= a < b < t.len() implies (#[trigger] t[a]).0 != (
        #[trigger] t[b]).0 by {
            assert(t[a] == d[a + 1] && t[b] == d[b + 1]);
        }
        lemma_dep_get_declared(t, i - 1);
    } else {
        assert(i == 0);
    }
}

/// With well-formed tables (as a JSON object gives them), the range found for a package is
/// the one its `dependencies` entry declares, or, when it has none there, the one its
/// `devDependencies` entry declares.
pub proof fn lemma_package_range_declared(p: PackageJson, name: Seq<char>)
    requires
        p.wf(),
    ensures
        forall|i: int|
            0 <= i < p.dependencies@.len() && #[trigger] p.dependencies@[i].0@ == name
                ==> package_range(p, name) == Some(p.dependencies@[i].1@),
        (forall|i: int|
            0 <= i < p.dependencies@.len() ==> #[trigger] p.dependencies@[i].0@ != name)
            ==> forall|j: int|
            0 <= j < p.dev_dependencies@.len() && #[trigger] p.dev_dependencies@[j].0@ == name
                ==> package_range(p, name) == Some(p.dev_dependencies@[j].1@),
{
    let d = deps_view(p.dependencies@);
    let e = deps_view(p.dev_dependencies@);
    assert forall|i: int|
        0 <= i < p.dependencies@.len() && #[trigger] p.dependencies@[i].0@ == name implies package_range(
        p,
        name,
    ) == Some(p.dependencies@[i].1@) by {
        assert(d[i] == (p.dependencies@[i].0@, p.dependencies@[i].1@));
        lemma_dep_get_declared(d, i);
    }
    if forall|i: int| 0 <= i < p.dependencies@.len() ==> #[trigger] p.dependencies@[i].0@ != name {
        lemma_dep_get_absent(d, name);
        assert forall|j: int|
            0 <= j < p.dev_dependencies@.len() && #[trigger] p.dev_dependencies@[j].0@ == name implies package_range(
            p,
            name,
        ) == Some(p.dev_dependencies@[j].1@) by {
            assert(e[j] == (p.dev_dependencies@[j].0@, p.dev_dependencies@[j].1@));
            lemma_dep_get_declared(e, j);
        }
    }
}

/// A table without an entry for `name` gives no range for it.
proof fn lemma_dep_get_absent(d: Seq<(Seq<char>, Seq<char>)>, name: Seq<char>)
    requires
        forall|i: int| 0 <= i < d.len() ==> (#[trigger] d[i]).0 != name,
    ensures
        dep_get(d, name) is None,
    decreases d.len(),
{
    if d.len() > 0 {
        let t = d.drop_first();
        assert forall|i: int| 0 <= i < t.len() implies (#[trigger] t[i]).0 != name by {
            assert(t[i] == d[i + 1]);
        }
        lemma_dep_get_absent(t, name);
    }
}

/// The range spec a dependency table gives for `name`.
fn lookup_dep<'a>(d: &'a Vec<(String, String)>, name: &String) -> (r: Option<&'a String>)
    ensures
        match (r, dep_get(deps_view(d@), name@)) {
            (Some(x), Some(y)) => x@ == y,
            (None, None) => true,
            _ => false,
        },
{
    let ghost dv = deps_view(d@);
    let mut i: usize = 0;
    assert(dv.skip(0) =~= dv);
    while i < d.len()
        invariant
            dv == deps_view(d@),
            i <= d.len(),
            dep_get(dv, name@) == dep_get(dv.skip(i as int), name@),
        decreases d.len() - i,
    {
        assert(dv.skip(i as int).drop_first() =~= dv.skip(i + 1));
        assert(dv.skip(i as int)[0] == (d@[i as int].0@, d@[i as int].1@));
        if d[i].0 == *name {
            return Some(&d[i].1);
        }
        i = i + 1;
    }
    None
}

/// The range spec a package declares for `name`, from `dependencies` or else from
/// `devDependencies`.
fn lookup_package<'a>(pkg: &'a PackageJson, name: &String) -> (r: Option<&'a String>)
    ensures
        match (r, package_range(*pkg, name@)) {
            (Some(x), Some(y)) => x@ == y,
            (None, None) => true,
            _ => false,
        },
{
    match lookup_dep(&pkg.dependencies, name) {
        Some(r) => Some(r),
        None => lookup_dep(&pkg.dev_dependencies, name),
    }
}

/// The usable version a package declares for `name`, if any.
fn package_version_of(pkg: &PackageJson, name: &String) -> (r: Option<ParsedVersion>)
    ensures
        match (r, package_version(*pkg, name@)) {
            (Some(v), Some((major, cleaned))) => v.major == major && v.cleaned@ == cleaned,
            (None, None) => true,
            _ => false,
        },
{
    match lookup_package(pkg, name) {
        Some(range) => parse_version(range.as_str()),
        None => None,
    }
}

/// Parses the Angular version from a project's `package.json`: the usable version declared
/// for `@angular/core` (preferred), else the one declared for `@angular/language-service`.
/// Returns `None` when no usable version is declared for either.
pub fn detect_angular_version(pkg: &PackageJson) -> (r: Option<ParsedVersion>)
    ensures
        match (r, spec_detect_angular_version(*pkg)) {
            (Some(v), Some((major, cleaned))) => v.major == major && v.cleaned@ == cleaned,
            (None, None) => true,
            _ => false,
        },
{
    let core = ANGULAR_CORE_PACKAGE_NAME.to_owned();
    match package_version_of(pkg, &core) {
        Some(v) => Some(v),
        None => {
            let service = ANGULAR_LANGUAGE_SERVICE_PACKAGE_NAME.to_owned();
            package_version_of(pkg, &service)
        },
    }
}

} // verus!

verus! {

/// One of the texts the feature flags are made of.
pub open spec fn is_flag_text(t: Seq<char>) -> bool {
    ||| t == "--includeAutomaticOptionalChainCompletions"@
    ||| t == "--includeCompletionsWithSnippetText"@
    ||| t == "--includeCompletionsForModuleExports"@
    ||| t == "true"@
    ||| t == "false"@
    ||| t == "--forceStrictTemplates"@
    ||| t == "--suppressAngularDiagnosticCodes"@
    ||| t == "--useClientSideFileWatcher"@
    ||| t == "--angularCoreVersion"@
}

/// What a flag switched by a setting holds of a text.
proof fn lemma_flag_if_contains(on: bool, name: Seq<char>, x: Seq<char>)
    ensures
        flag_if(on, name).contains(x) == (on && name == x),
{
    lemma_contains_small(name, name, x);
}

/// Which texts the feature flags hold, switch by switch.
proof fn lemma_feature_args_contains(s: UserSettings, core_version: Option<Seq<char>>, x: Seq<char>)
    ensures
        spec_feature_args(s, core_version).contains(x) == (
        (setting_or(s.include_automatic_optional_chain_completions, false) && x
            == "--includeAutomaticOptionalChainCompletions"@) || (setting_or(
            s.include_completions_with_snippet_text,
            false,
        ) && x == "--includeCompletionsWithSnippetText"@) || x
            == "--includeCompletionsForModuleExports"@ || x == bool_text(
            setting_or(s.auto_imports, true),
        ) || (setting_or(s.force_strict_templates, false) && x == "--forceStrictTemplates"@) || (
        s.suppress_angular_diagnostic_codes matches Some(c) && !all_space(c@) && (x
            == "--suppressAngularDiagnosticCodes"@ || x == c@)) || (setting_or(
            s.use_client_side_file_watcher,
            false,
        ) && x == "--useClientSideFileWatcher"@) || (core_version matches Some(v) && (x
            == "--angularCoreVersion"@ || x == v))),
{
    let f1 = flag_if(
        setting_or(s.include_automatic_optional_chain_completions, false),
        "--includeAutomaticOptionalChainCompletions"@,
    );
    let f2 = flag_if(
        setting_or(s.include_completions_with_snippet_text, false),
        "--includeCompletionsWithSnippetText"@,
    );
    let f3 = seq!["--includeCompletionsForModuleExports"@, bool_text(setting_or(s.auto_imports, true))];
    let f4 = flag_if(setting_or(s.force_strict_templates, false), "--forceStrictTemplates"@);
    let f5 = suppress_args(s.suppress_angular_diagnostic_codes);
    let f6 = flag_if(setting_or(s.use_client_side_file_watcher, false), "--useClientSideFileWatcher"@);
    let f7 = core_version_args(core_version);
    lemma_contains_concat(f1, f2, x);
    lemma_contains_concat(f1 + f2, f3, x);
    lemma_contains_concat(f1 + f2 + f3, f4, x);
    lemma_contains_concat(f1 + f2 + f3 + f4, f5, x);
    lemma_contains_concat(f1 + f2 + f3 + f4 + f5, f6, x);
    lemma_contains_concat(f1 + f2 + f3 + f4 + f5 + f6, f7, x);
    lemma_flag_if_contains(
        setting_or(s.include_automatic_optional_chain_completions, false),
        "--includeAutomaticOptionalChainCompletions"@,
        x,
    );
    lemma_flag_if_contains(
        setting_or(s.include_completions_with_snippet_text, false),
        "--includeCompletionsWithSnippetText"@,
        x,
    );
    lemma_flag_if_contains(setting_or(s.force_strict_templates, false), "--forceStrictTemplates"@, x);
    lemma_flag_if_contains(
        setting_or(s.use_client_side_file_watcher, false),
        "--useClientSideFileWatcher"@,
        x,
    );
    lemma_contains_small(
        "--includeCompletionsForModuleExports"@,
        bool_text(setting_or(s.auto_imports, true)),
        x,
    );
    match s.suppress_angular_diagnostic_codes {
        Some(c) => {
            lemma_contains_small("--suppressAngularDiagnosticCodes"@, c@, x);
            if all_space(c@) {
                assert(f5 =~= Seq::<Seq<char>>::empty());
            }
        },
        None => {
            assert(f5 =~= Seq::<Seq<char>>::empty());
        },
    }
    match core_version {
        Some(v) => lemma_contains_small("--angularCoreVersion"@, v, x),
        None => {
            assert(f7 =~= Seq::<Seq<char>>::empty());
        },
    }
}

/// Each switch appears among the flags exactly when the user turned it on (an unset switch
/// is off, and one set to `false` is off too); auto-imports are always passed, with `false`
/// only when the user turned them off; the suppressed codes are passed exactly when given
/// and not blank; the core version exactly when known. (Stated for codes and a core version
/// that are not themselves one of the flag texts.)
pub proof fn lemma_feature_flags_follow_settings(s: UserSettings, core_version: Option<Seq<char>>)
    requires
        s.suppress_angular_diagnostic_codes matches Some(c) ==> !is_flag_text(c@),
        core_version matches Some(v) ==> !is_flag_text(v),
    ensures
        spec_feature_args(s, core_version).contains("--includeAutomaticOptionalChainCompletions"@)
            <==> s.include_automatic_optional_chain_completions == Some(true),
        spec_feature_args(s, core_version).contains("--includeCompletionsWithSnippetText"@)
            <==> s.include_completions_with_snippet_text == Some(true),
        spec_feature_args(s, core_version).contains("--includeCompletionsForModuleExports"@),
        spec_feature_args(s, core_version).contains("false"@) <==> s.auto_imports == Some(false),
        spec_feature_args(s, core_version).contains("true"@) <==> s.auto_imports != Some(false),
        spec_feature_args(s, core_version).contains("--forceStrictTemplates"@)
            <==> s.force_strict_templates == Some(true),
        spec_feature_args(s, core_version).contains("--suppressAngularDiagnosticCodes"@) <==> (
        s.suppress_angular_diagnostic_codes matches Some(c) && !all_space(c@)),
        spec_feature_args(s, core_version).contains("--useClientSideFileWatcher"@)
            <==> s.use_client_side_file_watcher == Some(true),
        spec_feature_args(s, core_version).contains("--angularCoreVersion"@)
            <==> core_version is Some,
{
    reveal_strlit("--includeAutomaticOptionalChainCompletions");
    reveal_strlit("--includeCompletionsWithSnippetText");
    reveal_strlit("--includeCompletionsForModuleExports");
    reveal_strlit("true");
    reveal_strlit("false");
    reveal_strlit("--forceStrictTemplates");
    reveal_strlit("--suppressAngularDiagnosticCodes");
    reveal_strlit("--useClientSideFileWatcher");
    reveal_strlit("--angularCoreVersion");
    assert("--includeAutomaticOptionalChainCompletions"@.len() == 42);
    assert("--includeCompletionsWithSnippetText"@.len() == 35);
    assert("--includeCompletionsForModuleExports"@.len() == 36);
    assert("true"@.len() == 4);
    assert("false"@.len() == 5);
    assert("--forceStrictTemplates"@.len() == 22);
    assert("--suppressAngularDiagnosticCodes"@.len() == 32);
    assert("--useClientSideFileWatcher"@.len() == 26);
    assert("--angularCoreVersion"@.len() == 20);
    assert(spec_feature_args(s, core_version).contains("--includeAutomaticOptionalChainCompletions"@)
            <==> s.include_automatic_optional_chain_completions == Some(true)) by {
        lemma_feature_args_contains(s, core_version, "--includeAutomaticOptionalChainCompletions"@);
    }
    assert(spec_feature_args(s, core_version).contains("--includeCompletionsWithSnippetText"@)
            <==> s.include_completions_with_snippet_text == Some(true)) by {
        lemma_feature_args_contains(s, core_version, "--includeCompletionsWithSnippetText"@);
    }
    assert(spec_feature_args(s, core_version).contains("--includeCompletionsForModuleExports"@)) by {
        lemma_feature_args_contains(s, core_version, "--includeCompletionsForModuleExports"@);
    }
    assert(spec_feature_args(s, core_version).contains("true"@) <==> s.auto_imports != Some(false)) by {
        lemma_feature_args_contains(s, core_version, "true"@);
    }
    assert(spec_feature_args(s, core_version).contains("false"@) <==> s.auto_imports == Some(false)) by {
        lemma_feature_args_contains(s, core_version, "false"@);
    }
    assert(spec_feature_args(s, core_version).contains("--forceStrictTemplates"@)
            <==> s.force_strict_templates == Some(true)) by {
        lemma_feature_args_contains(s, core_version, "--forceStrictTemplates"@);
    }
    assert(spec_feature_args(s, core_version).contains("--suppressAngularDiagnosticCodes"@) <==> (
        s.suppress_angular_diagnostic_codes matches Some(c) && !all_space(c@))) by {
        lemma_feature_args_contains(s, core_version, "--suppressAngularDiagnosticCodes"@);
    }
    assert(spec_feature_args(s, core_version).contains("--useClientSideFileWatcher"@)
            <==> s.use_client_side_file_watcher == Some(true)) by {
        lemma_feature_args_contains(s, core_version, "--useClientSideFileWatcher"@);
    }
    assert(spec_feature_args(s, core_version).contains("--angularCoreVersion"@)
            <==> core_version is Some) by {
        lemma_feature_args_contains(s, core_version, "--angularCoreVersion"@);
    }
}

} // verus!
