//! Deciding how to launch the Angular language server for a worktree, and the arguments it
//! is launched with.
use vstd::prelude::*;
use crate::settings::{build_feature_args, spec_feature_args, UserSettings};
use crate::text::string_views;
use crate::version::{
    map_angular_major_to_versions, spec_map_major, ParsedVersion,
    DEFAULT_ANGULAR_LANGUAGE_SERVER_VERSION, DEFAULT_TYPESCRIPT_VERSION,
};

verus! {

/// Path to the language server installed in the extension's own sandbox (relative to the
/// extension's working directory).
pub const SERVER_PATH: &'static str = "node_modules/@angular/language-server/index.js";

/// The TypeScript SDK in the extension's own sandbox.
pub const TYPESCRIPT_TSDK_PATH: &'static str = "node_modules/typescript/lib";

/// The language server inside a project's worktree.
pub const PROJECT_SERVER_REL_PATH: &'static str = "node_modules/@angular/language-server/index.js";

/// The TypeScript SDK inside a project's worktree.
pub const PROJECT_TSDK_REL_DIR: &'static str = "node_modules/typescript/lib";

/// A small file whose presence shows that a project has its own TypeScript SDK.
pub const PROJECT_TSDK_PROBE_FILE: &'static str = "node_modules/typescript/package.json";

pub const ANGULAR_LANGUAGE_SERVER_PACKAGE_NAME: &'static str = "@angular/language-server";

pub const TYPESCRIPT_PACKAGE_NAME: &'static str = "typescript";

/// How the Angular Language Server should be launched for a given worktree.
#[derive(Debug, PartialEq)]
pub enum ServerSource {
    /// Use the language server already installed in the project's `node_modules`. Both
    /// paths are absolute. No npm install is performed; this guarantees an exact version
    /// match with the project and covers monorepos.
    ProjectNodeModules { index_js_abs: String, tsdk_abs: String },
    /// Install (if needed) and use the language server in the extension's sandbox at the
    /// resolved versions.
    Managed { als_version: String, ts_version: String },
}

/// The mathematical value of a `ServerSource`.
pub enum SourceView {
    ProjectNodeModules { index_js_abs: Seq<char>, tsdk_abs: Seq<char> },
    Managed { als_version: Seq<char>, ts_version: Seq<char> },
}

impl View for ServerSource {
    type V = SourceView;

    open spec fn view(&self) -> SourceView {
        match self {
            ServerSource::ProjectNodeModules { index_js_abs, tsdk_abs } => {
                SourceView::ProjectNodeModules { index_js_abs: index_js_abs@, tsdk_abs: tsdk_abs@ }
            },
            ServerSource::Managed { als_version, ts_version } => SourceView::Managed {
                als_version: als_version@,
                ts_version: ts_version@,
            },
        }
    }
}

/// The text of an optional setting, or `default` when it is unset.
pub open spec fn text_or(o: Option<String>, default: Seq<char>) -> Seq<char> {
    match o {
        Some(s) => s@,
        None => default,
    }
}

/// The source the user's settings pin, if they pin one: a manual override of either version
/// always wins, the other version then taking its default.
pub open spec fn spec_manual_override(s: UserSettings) -> Option<SourceView> {
    if s.angular_language_server_version is Some || s.typescript_version is Some {
        Some(
            SourceView::Managed {
                als_version: text_or(
                    s.angular_language_server_version,
                    DEFAULT_ANGULAR_LANGUAGE_SERVER_VERSION@,
                ),
                ts_version: text_or(s.typescript_version, DEFAULT_TYPESCRIPT_VERSION@),
            },
        )
    } else {
        None
    }
}

/// How to launch the server, in order of priority: the user's manual override; the
/// project's own language server, when both it and a TypeScript SDK are in the project; the
/// version pair for the project's detected Angular major; the modern defaults.
pub open spec fn spec_resolve_server(
    s: UserSettings,
    has_project_server: bool,
    has_project_tsdk: bool,
    root: Seq<char>,
    detected_major: Option<u32>,
) -> SourceView {
    match spec_manual_override(s) {
        Some(source) => source,
        None => if has_project_server && has_project_tsdk {
            SourceView::ProjectNodeModules {
                index_js_abs: root + "/"@ + PROJECT_SERVER_REL_PATH@,
                tsdk_abs: root + "/"@ + PROJECT_TSDK_REL_DIR@,
            }
        } else {
            match detected_major {
                Some(major) => match spec_map_major(major) {
                    Some((als, ts)) => SourceView::Managed { als_version: als, ts_version: ts },
                    None => SourceView::Managed {
                        als_version: DEFAULT_ANGULAR_LANGUAGE_SERVER_VERSION@,
                        ts_version: DEFAULT_TYPESCRIPT_VERSION@,
                    },
                },
                None => SourceView::Managed {
                    als_version: DEFAULT_ANGULAR_LANGUAGE_SERVER_VERSION@,
                    ts_version: DEFAULT_TYPESCRIPT_VERSION@,
                },
            }
        },
    }
}

/// The source pinned by the user's manual version override, if any.
pub fn manual_override(settings: &UserSettings) -> (r: Option<ServerSource>)
    ensures
        match (r, spec_manual_override(*settings)) {
            (Some(source), Some(expected)) => source@ == expected,
            (None, None) => true,
            _ => false,
        },
{
    if settings.angular_language_server_version.is_some() || settings.typescript_version.is_some() {
        let als = match &settings.angular_language_server_version {
            Some(v) => v.clone(),
            None => DEFAULT_ANGULAR_LANGUAGE_SERVER_VERSION.to_owned(),
        };
        let ts = match &settings.typescript_version {
            Some(v) => v.clone(),
            None => DEFAULT_TYPESCRIPT_VERSION.to_owned(),
        };
        Some(ServerSource::Managed { als_version: als, ts_version: ts })
    } else {
        None
    }
}

/// `root`, a slash, then `rel`.
fn join_path(root: &str, rel: &str) -> (r: String)
    ensures
        r@ == root@ + "/"@ + rel@,
{
    let mut r = root.to_owned();
    r.append("/");
    r.append(rel);
    r
}

/// Decides how to launch the language server for a worktree whose root is `root_path`,
/// given whether the project holds its own language server and TypeScript SDK and the
/// Angular version detected from its `package.json`.
pub fn resolve_server(
    settings: &UserSettings,
    has_project_server: bool,
    has_project_tsdk: bool,
    root_path: &str,
    detected: Option<&ParsedVersion>,
) -> (r: ServerSource)
    ensures
        r@ == spec_resolve_server(
            *settings,
            has_project_server,
            has_project_tsdk,
            root_path@,
            match detected {
                Some(v) => Some(v.major),
                None => None,
            },
        ),
{
    // 1. Manual override via initialization_options always wins.
    if let Some(source) = manual_override(settings) {
        return source;
    }
    // 2. Prefer the language server already installed in the project.
    if has_project_server && has_project_tsdk {
        return ServerSource::ProjectNodeModules {
            index_js_abs: join_path(root_path, PROJECT_SERVER_REL_PATH),
            tsdk_abs: join_path(root_path, PROJECT_TSDK_REL_DIR),
        };
    }
    // 3. Derive a compatible version from the detected Angular version.
    if let Some(version) = detected {
        if let Some((als, ts)) = map_angular_major_to_versions(version.major) {
            return ServerSource::Managed { als_version: als, ts_version: ts };
        }
    }
    // 4. Fall back to the modern defaults.
    ServerSource::Managed {
        als_version: DEFAULT_ANGULAR_LANGUAGE_SERVER_VERSION.to_owned(),
        ts_version: DEFAULT_TYPESCRIPT_VERSION.to_owned(),
    }
}

/// The locations where the language server looks for TypeScript and Angular: the
/// extension's own working directory, when known, and the project root.
pub fn probe_locations(current_dir: Option<String>, root_path: String) -> (paths: Vec<String>)
    ensures
        string_views(paths@) == (match current_dir {
            Some(d) => seq![d@],
            None => Seq::<Seq<char>>::empty(),
        }) + seq![root_path@],
{
    let mut paths: Vec<String> = Vec::new();
    let ghost cd = current_dir;
    if let Some(dir) = current_dir {
        paths.push(dir);
    }
    paths.push(root_path);
    assert(string_views(paths@) =~= (match cd {
        Some(d) => seq![d@],
        None => Seq::<Seq<char>>::empty(),
    }) + seq![root_path@]);
    paths
}

/// The arguments the language server is started with, after its entry point.
pub open spec fn spec_launch_args(
    index_js: Seq<char>,
    tsdk: Seq<char>,
    probes: Seq<Seq<char>>,
    s: UserSettings,
    core_version: Option<Seq<char>>,
) -> Seq<Seq<char>> {
    seq![index_js, "--stdio"@, "--tsProbeLocations"@] + probes + seq!["--ngProbeLocations"@]
        + probes + seq!["--tsdk"@, tsdk] + spec_feature_args(s, core_version)
}

/// Appends a copy of each of `items` to `args`.
fn push_all(args: &mut Vec<String>, items: &Vec<String>)
    ensures
        string_views(final(args)@) == string_views(old(args)@) + string_views(items@),
{
    let ghost before = string_views(args@);
    let mut i: usize = 0;
    while i < items.len()
        invariant
            i <= items.len(),
            string_views(args@) == before + string_views(items@).take(i as int),
        decreases items.len() - i,
    {
        let ghost prev = args@;
        args.push(items[i].clone());
        assert(string_views(args@) =~= string_views(prev).push(items@[i as int]@));
        assert(string_views(items@).take(i + 1) =~= string_views(items@).take(i as int).push(
            items@[i as int]@,
        ));
        i = i + 1;
    }
    assert(string_views(items@).take(i as int) =~= string_views(items@));
}

/// Assembles the language server's command line: its entry point `index_js`, `--stdio`,
/// the probe locations for TypeScript and for Angular, the TypeScript SDK, and the feature
/// flags derived from the user's settings and the detected Angular version.
pub fn launch_args(
    index_js: String,
    tsdk: String,
    probe_locations: &Vec<String>,
    settings: &UserSettings,
    detected: Option<&ParsedVersion>,
) -> (args: Vec<String>)
    ensures
        string_views(args@) == spec_launch_args(
            index_js@,
            tsdk@,
            string_views(probe_locations@),
            *settings,
            match detected {
                Some(v) => Some(v.cleaned@),
                None => None,
            },
        ),
{
    let ghost ij = index_js@;
    let ghost td = tsdk@;
    let ghost probes = string_views(probe_locations@);
    let mut args: Vec<String> = Vec::new();
    args.push(index_js);
    args.push("--stdio".to_owned());
    args.push("--tsProbeLocations".to_owned());
    assert(string_views(args@) =~= seq![ij, "--stdio"@, "--tsProbeLocations"@]);
    push_all(&mut args, probe_locations);
    let ghost g1 = string_views(args@);
    args.push("--ngProbeLocations".to_owned());
    assert(string_views(args@) =~= g1 + seq!["--ngProbeLocations"@]);
    push_all(&mut args, probe_locations);
    let ghost g2 = string_views(args@);
    args.push("--tsdk".to_owned());
    args.push(tsdk);
    assert(string_views(args@) =~= g2 + seq!["--tsdk"@, td]);
    let core_version = match detected {
        Some(v) => Some(v.cleaned.as_str()),
        None => None,
    };
    let features = build_feature_args(settings, core_version);
    push_all(&mut args, &features);
    args
}

} // verus!

verus! {

/// The order in which the launch source is chosen: a
/// version the user pins always wins; otherwise the project's own language server is used
/// exactly when the project holds both it and a TypeScript SDK; otherwise a detected Angular
/// major up to the newest one known gets its own known-good pair (older majors the oldest
/// pair); otherwise the modern defaults.
pub proof fn lemma_resolution_priority(
    s: UserSettings,
    has_project_server: bool,
    has_project_tsdk: bool,
    root: Seq<char>,
    detected_major: Option<u32>,
)
    ensures
        spec_manual_override(s) matches Some(o) ==> spec_resolve_server(
            s,
            has_project_server,
            has_project_tsdk,
            root,
            detected_major,
        ) == o,
        spec_manual_override(s) is None ==> (spec_resolve_server(
            s,
            has_project_server,
            has_project_tsdk,
            root,
            detected_major,
        ) is ProjectNodeModules <==> has_project_server && has_project_tsdk),
        spec_manual_override(s) is None && !(has_project_server && has_project_tsdk) ==> (
        match detected_major {
            Some(m) => m <= 21 ==> spec_resolve_server(
                s,
                has_project_server,
                has_project_tsdk,
                root,
                detected_major,
            ) == SourceView::Managed {
                als_version: spec_map_major(m).unwrap().0,
                ts_version: spec_map_major(m).unwrap().1,
            },
            None => spec_resolve_server(
                s,
                has_project_server,
                has_project_tsdk,
                root,
                detected_major,
            ) == SourceView::Managed {
                als_version: DEFAULT_ANGULAR_LANGUAGE_SERVER_VERSION@,
                ts_version: DEFAULT_TYPESCRIPT_VERSION@,
            },
        }),
{
    if let Some(m) = detected_major {
        crate::version::lemma_map_major_coverage(m);
    }
}

} // verus!

verus! {

/// Versions set in `initialization_options` always win: a pinned language-server version is
/// the one launched, and so is a pinned TypeScript version, whatever the project holds and
/// whatever Angular version it declares; a version left unpinned beside a pinned one takes
/// its default. The settings pin a source exactly when they pin either version.
pub proof fn lemma_pinned_versions_win(
    s: UserSettings,
    has_project_server: bool,
    has_project_tsdk: bool,
    root: Seq<char>,
    detected_major: Option<u32>,
)
    ensures
        spec_manual_override(s) is Some <==> (s.angular_language_server_version is Some
            || s.typescript_version is Some),
        s.angular_language_server_version matches Some(v) ==> spec_resolve_server(
            s,
            has_project_server,
            has_project_tsdk,
            root,
            detected_major,
        ) == (SourceView::Managed {
            als_version: v@,
            ts_version: match s.typescript_version {
                Some(t) => t@,
                None => DEFAULT_TYPESCRIPT_VERSION@,
            },
        }),
        s.typescript_version matches Some(t) ==> spec_resolve_server(
            s,
            has_project_server,
            has_project_tsdk,
            root,
            detected_major,
        ) == (SourceView::Managed {
            als_version: match s.angular_language_server_version {
                Some(v) => v@,
                None => DEFAULT_ANGULAR_LANGUAGE_SERVER_VERSION@,
            },
            ts_version: t@,
        }),
{
}

} // verus!
