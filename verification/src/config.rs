//! The nested workspace configuration returned to the language server when it asks for
//! sections such as `angular.inlayHints` through `workspace/configuration`.
use vstd::prelude::*;
use crate::json::{
    get_path, is_path_prefix, is_proper_path_prefix, lemma_prefix_same_length,
    lemma_prefixes_related, lemma_set_path_frame_deep, lemma_set_path_get_below,
    lemma_set_path_commute, lemma_set_path_then_get, lemma_set_path_wf, lemma_split_dots_nonempty, paths_related,
    non_dot_class, set_nested, set_path, split_dots, JsonValue, JsonView,
};
use crate::settings::UserSettings;
use crate::text::lemma_leading_len;

verus! {

/// The settings applied in turn to `config`: each (dot-delimited key, value) pair is written
/// at its key's path, later pairs over earlier ones.
pub open spec fn apply_settings(config: JsonView, entries: Seq<(Seq<char>, JsonView)>) -> JsonView
    decreases entries.len(),
{
    if entries.len() == 0 {
        config
    } else {
        apply_settings(
            set_path(config, split_dots(entries[0].0), entries[0].1),
            entries.drop_first(),
        )
    }
}

/// The (key, value) pairs of a list of settings.
pub open spec fn entries_view(e: Seq<(String, JsonValue)>) -> Seq<(Seq<char>, JsonView)> {
    e.map_values(|x: (String, JsonValue)| (x.0@, x.1@))
}

/// The configuration's defaults, as dot-delimited keys: `editor.inlayHints.enabled` set to
/// `"on"` (the server emits no hint without it) and a useful subset of the VSCode
/// extension's inlay hints switched on.
pub open spec fn default_entries() -> Seq<(Seq<char>, JsonView)> {
    seq![
        ("editor.inlayHints.enabled"@, JsonView::Str("on"@)),
        ("angular.inlayHints.variableTypes.forLoopVariableTypes"@, JsonView::Bool(true)),
        ("angular.inlayHints.variableTypes.ifAliasTypes"@, JsonView::Bool(true)),
        ("angular.inlayHints.variableTypes.letDeclarationTypes"@, JsonView::Bool(true)),
        ("angular.inlayHints.variableTypes.referenceVariableTypes"@, JsonView::Bool(true)),
        ("angular.inlayHints.bindingHints.pipeOutputTypes"@, JsonView::Bool(true)),
        ("angular.inlayHints.bindingHints.twoWayBindingSignalTypes"@, JsonView::Bool(true)),
        ("angular.inlayHints.eventHints.parameterTypes"@, JsonView::Bool(true)),
        ("angular.inlayHints.controlFlowHints.switchExpressionTypes"@, JsonView::Bool(true)),
    ]
}

/// The default configuration: the defaults written, in order, into an empty object.
pub open spec fn default_configuration() -> JsonView {
    apply_settings(JsonView::Object(Seq::empty()), default_entries())
}

/// The defaults, with `angular.forceStrictTemplates` written when the user set it.
pub open spec fn base_configuration(force_strict_templates: Option<bool>) -> JsonView {
    match force_strict_templates {
        Some(force) => set_path(
            default_configuration(),
            split_dots("angular.forceStrictTemplates"@),
            JsonView::Bool(force),
        ),
        None => default_configuration(),
    }
}

/// The workspace configuration for `s`: the defaults, then `angular.forceStrictTemplates`
/// when the user set it, then every other user key in the order given.
pub open spec fn spec_workspace_configuration(s: UserSettings) -> JsonView {
    apply_settings(base_configuration(s.force_strict_templates), entries_view(s.extra@))
}

/// Writes each pair of `entries` into `config`, in order.
fn apply_entries(config: &mut JsonValue, entries: &Vec<(String, JsonValue)>)
    ensures
        final(config)@ == apply_settings(old(config)@, entries_view(entries@)),
{
    let ghost ev = entries_view(entries@);
    let ghost target = apply_settings(config@, ev);
    let mut i: usize = 0;
    assert(ev.skip(0) =~= ev);
    while i < entries.len()
        invariant
            ev == entries_view(entries@),
            i <= entries.len(),
            apply_settings(config@, ev.skip(i as int)) == target,
        decreases entries.len() - i,
    {
        assert(ev.skip(i as int).drop_first() =~= ev.skip(i + 1));
        assert(ev.skip(i as int)[0] == (entries@[i as int].0@, entries@[i as int].1@));
        let value = entries[i].1.deep_clone();
        set_nested(config, entries[i].0.as_str(), value);
        i = i + 1;
    }
    assert(ev.skip(i as int) =~= Seq::<(Seq<char>, JsonView)>::empty());
}

/// The defaults as executable data.
fn default_settings() -> (e: Vec<(String, JsonValue)>)
    ensures
        entries_view(e@) == default_entries(),
{
    let e = vec![
        ("editor.inlayHints.enabled".to_owned(), JsonValue::Str("on".to_owned())),
        ("angular.inlayHints.variableTypes.forLoopVariableTypes".to_owned(), JsonValue::Bool(true)),
        ("angular.inlayHints.variableTypes.ifAliasTypes".to_owned(), JsonValue::Bool(true)),
        ("angular.inlayHints.variableTypes.letDeclarationTypes".to_owned(), JsonValue::Bool(true)),
        (
            "angular.inlayHints.variableTypes.referenceVariableTypes".to_owned(),
            JsonValue::Bool(true),
        ),
        ("angular.inlayHints.bindingHints.pipeOutputTypes".to_owned(), JsonValue::Bool(true)),
        (
            "angular.inlayHints.bindingHints.twoWayBindingSignalTypes".to_owned(),
            JsonValue::Bool(true),
        ),
        ("angular.inlayHints.eventHints.parameterTypes".to_owned(), JsonValue::Bool(true)),
        (
            "angular.inlayHints.controlFlowHints.switchExpressionTypes".to_owned(),
            JsonValue::Bool(true),
        ),
    ];
    assert(entries_view(e@) =~= default_entries());
    e
}

/// Builds the nested workspace configuration returned to the server.
///
/// The Angular Language Server flattens the nested object it receives (e.g.
/// `{variableTypes: {forLoopVariableTypes: true}}` becomes
/// `angular.inlayHints.variableTypes.forLoopVariableTypes`), so the configuration is nested,
/// not dot-flattened. A sensible set of hints is on by default; any key the user sets in
/// `initialization_options` (flat, VSCode-style) overrides it.
pub fn build_workspace_configuration(settings: &UserSettings) -> (config: JsonValue)
    ensures
        config@ == spec_workspace_configuration(*settings),
{
    let mut config = JsonValue::empty_object();
    let defaults = default_settings();
    apply_entries(&mut config, &defaults);
    if let Some(force) = settings.force_strict_templates {
        set_nested(&mut config, "angular.forceStrictTemplates", JsonValue::Bool(force));
    }
    apply_entries(&mut config, &settings.extra);
    config
}

} // verus!

verus! {

/// Writing into an object gives an object.
pub proof fn lemma_set_path_object(root: JsonView, parts: Seq<Seq<char>>, value: JsonView)
    requires
        root is Object,
    ensures
        set_path(root, parts, value) is Object,
{
}

/// Applying settings to an object gives an object, and to a well-formed document with
/// well-formed values gives a well-formed document.
pub proof fn lemma_apply_settings_shape(config: JsonView, entries: Seq<(Seq<char>, JsonView)>)
    requires
        config is Object,
    ensures
        apply_settings(config, entries) is Object,
        config.wf() && (forall|i: int| 0 <= i < entries.len() ==> (#[trigger] entries[i]).1.wf())
            ==> apply_settings(config, entries).wf(),
    decreases entries.len(),
{
    if entries.len() > 0 {
        let next = set_path(config, split_dots(entries[0].0), entries[0].1);
        lemma_set_path_object(config, split_dots(entries[0].0), entries[0].1);
        let rest = entries.drop_first();
        lemma_apply_settings_shape(next, rest);
        if config.wf() && (forall|i: int| 0 <= i < entries.len() ==> (#[trigger] entries[i]).1.wf()) {
            lemma_set_path_wf(config, split_dots(entries[0].0), entries[0].1);
            assert forall|i: int| 0 <= i < rest.len() implies (#[trigger] rest[i]).1.wf() by {
                assert(rest[i] == entries[i + 1]);
            }
        }
    }
}

/// Applying one more setting after a list of them writes it over their result.
pub proof fn lemma_apply_settings_push(
    config: JsonView,
    entries: Seq<(Seq<char>, JsonView)>,
    last: (Seq<char>, JsonView),
)
    ensures
        apply_settings(config, entries.push(last)) == set_path(
            apply_settings(config, entries),
            split_dots(last.0),
            last.1,
        ),
    decreases entries.len(),
{
    if entries.len() == 0 {
        let next = set_path(config, split_dots(last.0), last.1);
        assert(entries.push(last).drop_first() =~= Seq::<(Seq<char>, JsonView)>::empty());
        assert(entries.push(last)[0] == last);
        assert(apply_settings(next, Seq::<(Seq<char>, JsonView)>::empty()) == next);
    } else {
        let next = set_path(config, split_dots(entries[0].0), entries[0].1);
        assert(entries.push(last).drop_first() =~= entries.drop_first().push(last));
        assert(entries.push(last)[0] == entries[0]);
        lemma_apply_settings_push(next, entries.drop_first(), last);
    }
}

/// The defaults, with or without strict templates, form a well-formed object.
pub proof fn lemma_base_configuration_shape(force_strict_templates: Option<bool>)
    ensures
        base_configuration(force_strict_templates) is Object,
        base_configuration(force_strict_templates).wf(),
{
    let empty = JsonView::Object(Seq::<(Seq<char>, JsonView)>::empty());
    assert(empty.wf());
    let d = default_entries();
    assert forall|i: int| 0 <= i < d.len() implies (#[trigger] d[i]).1.wf() by {
        if i == 0 {
            assert(d[0].1 == JsonView::Str("on"@));
        } else {
            assert(d[i].1 == JsonView::Bool(true));
        }
    }
    lemma_apply_settings_shape(empty, d);
    if let Some(force) = force_strict_templates {
        let parts = split_dots("angular.forceStrictTemplates"@);
        lemma_set_path_object(default_configuration(), parts, JsonView::Bool(force));
        lemma_set_path_wf(default_configuration(), parts, JsonView::Bool(force));
    }
}

/// The workspace configuration is always an object; and when every value the user gave is
/// well formed, no object in it names a key twice.
pub proof fn lemma_workspace_configuration_shape(s: UserSettings)
    ensures
        spec_workspace_configuration(s) is Object,
        (forall|i: int|
            0 <= i < s.extra@.len() ==> (#[trigger] entries_view(s.extra@)[i]).1.wf())
            ==> spec_workspace_configuration(s).wf(),
{
    lemma_base_configuration_shape(s.force_strict_templates);
    lemma_apply_settings_shape(base_configuration(s.force_strict_templates), entries_view(s.extra@));
}

/// A key the user sets is what the server reads at that key's path: the last user setting
/// is found, with its value, at the path its dot-delimited key names.
pub proof fn lemma_workspace_configuration_last_override(s: UserSettings)
    requires
        s.extra@.len() > 0,
    ensures
        get_path(spec_workspace_configuration(s), split_dots(s.extra@.last().0@)) == Some(
            s.extra@.last().1@,
        ),
{
    let e = entries_view(s.extra@);
    let base = base_configuration(s.force_strict_templates);
    let last = e.last();
    assert(last == (s.extra@.last().0@, s.extra@.last().1@));
    assert(e =~= e.drop_last().push(last));
    lemma_apply_settings_push(base, e.drop_last(), last);
    lemma_base_configuration_shape(s.force_strict_templates);
    lemma_apply_settings_shape(base, e.drop_last());
    lemma_split_dots_nonempty(last.0);
    lemma_set_path_then_get(apply_settings(base, e.drop_last()), split_dots(last.0), last.1);
}

} // verus!

verus! {

/// The paths of no two settings are related: none is written on the way to or below
/// another.
pub open spec fn keys_unrelated(e: Seq<(Seq<char>, JsonView)>) -> bool {
    forall|i: int, j: int|
        0 <= i < j < e.len() ==> !paths_related(
            split_dots(#[trigger] e[i].0),
            split_dots(#[trigger] e[j].0),
        )
}

/// `q` is not on the way to the path of any setting.
pub open spec fn above_no_key(e: Seq<(Seq<char>, JsonView)>, q: Seq<Seq<char>>) -> bool {
    forall|i: int| 0 <= i < e.len() ==> !is_proper_path_prefix(q, split_dots(#[trigger] e[i].0))
}

/// What a path reads after settings with unrelated keys are applied to an object: below the
/// key of a setting, inside that setting's value; elsewhere (away from every key), what it
/// read before. Neither depends on the order of the settings.
pub proof fn lemma_apply_settings_read(
    c: JsonView,
    e: Seq<(Seq<char>, JsonView)>,
    q: Seq<Seq<char>>,
)
    requires
        c is Object,
        keys_unrelated(e),
        above_no_key(e, q),
    ensures
        forall|i: int|
            0 <= i < e.len() && is_path_prefix(split_dots(#[trigger] e[i].0), q) ==> get_path(
                apply_settings(c, e),
                q,
            ) == get_path(e[i].1, q.skip(split_dots(e[i].0).len() as int)),
        (forall|i: int| 0 <= i < e.len() ==> !is_path_prefix(split_dots(#[trigger] e[i].0), q))
            ==> get_path(apply_settings(c, e), q) == get_path(c, q),
    decreases e.len(),
{
    if e.len() > 0 {
        let k0 = split_dots(e[0].0);
        lemma_split_dots_nonempty(e[0].0);
        let c1 = set_path(c, k0, e[0].1);
        let rest = e.drop_first();
        assert forall|i: int, j: int| 0 <= i < j < rest.len() implies !paths_related(
            split_dots(#[trigger] rest[i].0),
            split_dots(#[trigger] rest[j].0),
        ) by {
            assert(rest[i] == e[i + 1] && rest[j] == e[j + 1]);
        }
        assert forall|i: int| 0 <= i < rest.len() implies !is_proper_path_prefix(
            q,
            split_dots(#[trigger] rest[i].0),
        ) by {
            assert(rest[i] == e[i + 1]);
        }
        lemma_apply_settings_read(c1, rest, q);
        assert forall|i: int|
            0 <= i < e.len() && is_path_prefix(split_dots(#[trigger] e[i].0), q) implies get_path(
            apply_settings(c, e),
            q,
        ) == get_path(e[i].1, q.skip(split_dots(e[i].0).len() as int)) by {
            if i > 0 {
                assert(rest[i - 1] == e[i]);
            } else {
                assert forall|j: int| 0 <= j < rest.len() implies !is_path_prefix(
                    split_dots(#[trigger] rest[j].0),
                    q,
                ) by {
                    assert(rest[j] == e[j + 1]);
                    if is_path_prefix(split_dots(rest[j].0), q) {
                        lemma_prefixes_related(k0, split_dots(rest[j].0), q);
                    }
                }
                lemma_set_path_get_below(c, k0, e[0].1, q);
            }
        }
        if forall|i: int| 0 <= i < e.len() ==> !is_path_prefix(split_dots(#[trigger] e[i].0), q) {
            assert forall|j: int| 0 <= j < rest.len() implies !is_path_prefix(
                split_dots(#[trigger] rest[j].0),
                q,
            ) by {
                assert(rest[j] == e[j + 1]);
            }
            assert(!is_path_prefix(k0, q));
            assert(!is_proper_path_prefix(q, k0));
            if is_path_prefix(q, k0) {
                lemma_prefix_same_length(q, k0);
            }
            lemma_set_path_frame_deep(c, k0, e[0].1, q);
        }
    }
}

/// Every key the user sets is read back, with its value, at its path, as long as no two
/// of the keys lie on the way to one another.
pub proof fn lemma_workspace_configuration_reads_user_keys(s: UserSettings, i: int)
    requires
        keys_unrelated(entries_view(s.extra@)),
        0 <= i < s.extra@.len(),
    ensures
        get_path(spec_workspace_configuration(s), split_dots(s.extra@[i].0@)) == Some(
            s.extra@[i].1@,
        ),
{
    let e = entries_view(s.extra@);
    let q = split_dots(e[i].0);
    assert(e[i] == (s.extra@[i].0@, s.extra@[i].1@));
    lemma_base_configuration_shape(s.force_strict_templates);
    assert forall|j: int| 0 <= j < e.len() implies !is_proper_path_prefix(
        q,
        split_dots(#[trigger] e[j].0),
    ) by {
        if j != i && is_proper_path_prefix(q, split_dots(e[j].0)) {
            if j < i {
                assert(!paths_related(split_dots(e[j].0), split_dots(e[i].0)));
            } else {
                assert(!paths_related(split_dots(e[i].0), split_dots(e[j].0)));
            }
        }
    }
    assert(q.take(q.len() as int) =~= q);
    lemma_apply_settings_read(base_configuration(s.force_strict_templates), e, q);
    assert(q.skip(q.len() as int) =~= Seq::<Seq<char>>::empty());
}

/// Distinct settings keep their keys' paths unrelated when one of them is left out.
proof fn lemma_keys_unrelated_remove(e: Seq<(Seq<char>, JsonView)>, j: int)
    requires
        keys_unrelated(e),
        0 <= j < e.len(),
    ensures
        keys_unrelated(e.remove(j)),
{
    let r = e.remove(j);
    assert forall|a: int, b: int| 0 <= a < b < r.len() implies !paths_related(
        split_dots(#[trigger] r[a].0),
        split_dots(#[trigger] r[b].0),
    ) by {
        let a0 = if a < j { a } else { a + 1 };
        let b0 = if b < j { b } else { b + 1 };
        assert(r[a] == e[a0] && r[b] == e[b0]);
    }
}

/// Settings whose key paths are unrelated are distinct.
proof fn lemma_keys_unrelated_distinct(e: Seq<(Seq<char>, JsonView)>, i: int, j: int)
    requires
        keys_unrelated(e),
        0 <= i < e.len(),
        0 <= j < e.len(),
        i != j,
    ensures
        e[i].0 != e[j].0,
{
    let k = split_dots(e[i].0);
    assert(k.take(k.len() as int) =~= k);
    if i < j {
        assert(!paths_related(split_dots(e[i].0), split_dots(e[j].0)));
    } else {
        assert(!paths_related(split_dots(e[j].0), split_dots(e[i].0)));
    }
}

/// Any one setting can be applied first: applying settings with unrelated keys to a
/// well-formed document gives the same as applying the `j`th first and then the rest.
pub proof fn lemma_apply_settings_front(c: JsonView, e: Seq<(Seq<char>, JsonView)>, j: int)
    requires
        c.wf(),
        forall|i: int| 0 <= i < e.len() ==> (#[trigger] e[i]).1.wf(),
        keys_unrelated(e),
        0 <= j < e.len(),
    ensures
        apply_settings(c, e) == apply_settings(
            set_path(c, split_dots(e[j].0), e[j].1),
            e.remove(j),
        ),
    decreases j,
{
    if j == 0 {
        assert(e.remove(0) =~= e.drop_first());
    } else {
        let k0 = split_dots(e[0].0);
        let kj = split_dots(e[j].0);
        lemma_split_dots_nonempty(e[0].0);
        lemma_split_dots_nonempty(e[j].0);
        let c0 = set_path(c, k0, e[0].1);
        lemma_set_path_wf(c, k0, e[0].1);
        let rest = e.drop_first();
        assert forall|i: int| 0 <= i < rest.len() implies (#[trigger] rest[i]).1.wf() by {
            assert(rest[i] == e[i + 1]);
        }
        lemma_keys_unrelated_remove(e, 0);
        assert(e.remove(0) =~= rest);
        assert(rest[j - 1] == e[j]);
        lemma_apply_settings_front(c0, rest, j - 1);
        assert(!paths_related(k0, kj));
        lemma_set_path_commute(c, k0, e[0].1, kj, e[j].1);
        let cj = set_path(c, kj, e[j].1);
        let tail = rest.remove(j - 1);
        let front = seq![e[0]] + tail;
        assert(front[0] == e[0]);
        assert(front.drop_first() =~= tail);
        assert(e.remove(j) =~= front);
    }
}

/// Settings with unrelated keys can be applied in any order: two lists holding the same
/// settings give the same document.
pub proof fn lemma_apply_settings_permutation(
    c: JsonView,
    e1: Seq<(Seq<char>, JsonView)>,
    e2: Seq<(Seq<char>, JsonView)>,
)
    requires
        c.wf(),
        forall|i: int| 0 <= i < e1.len() ==> (#[trigger] e1[i]).1.wf(),
        keys_unrelated(e1),
        keys_unrelated(e2),
        forall|x: (Seq<char>, JsonView)| e1.contains(x) <==> e2.contains(x),
    ensures
        apply_settings(c, e1) == apply_settings(c, e2),
    decreases e1.len(),
{
    assert forall|i: int| 0 <= i < e2.len() implies (#[trigger] e2[i]).1.wf() by {
        assert(e2.contains(e2[i]));
        let l = choose|l: int| 0 <= l < e1.len() && e1[l] == e2[i];
    }
    if e1.len() == 0 {
        if e2.len() > 0 {
            assert(e2.contains(e2[0]));
        }
        assert(e2 =~= e1);
    } else {
        let x = e1[0];
        assert(e1.contains(x));
        let j = choose|j: int| 0 <= j < e2.len() && e2[j] == x;
        let kx = split_dots(x.0);
        let c1 = set_path(c, kx, x.1);
        lemma_set_path_wf(c, kx, x.1);
        lemma_apply_settings_front(c, e2, j);
        let r1 = e1.drop_first();
        let r2 = e2.remove(j);
        lemma_keys_unrelated_remove(e1, 0);
        assert(e1.remove(0) =~= r1);
        lemma_keys_unrelated_remove(e2, j);
        assert forall|i: int| 0 <= i < r1.len() implies (#[trigger] r1[i]).1.wf() by {
            assert(r1[i] == e1[i + 1]);
        }
        assert forall|y: (Seq<char>, JsonView)| r1.contains(y) <==> r2.contains(y) by {
            if r1.contains(y) {
                let i = choose|i: int| 0 <= i < r1.len() && r1[i] == y;
                assert(e1[i + 1] == y);
                lemma_keys_unrelated_distinct(e1, 0, i + 1);
                assert(e1.contains(y));
                let l = choose|l: int| 0 <= l < e2.len() && e2[l] == y;
                assert(l != j);
                let l2 = if l < j { l } else { l - 1 };
                assert(r2[l2] == y);
            }
            if r2.contains(y) {
                let l2 = choose|l: int| 0 <= l < r2.len() && r2[l] == y;
                let l = if l2 < j { l2 } else { l2 + 1 };
                assert(e2[l] == y);
                lemma_keys_unrelated_distinct(e2, j, l);
                assert(e2.contains(y));
                let i = choose|i: int| 0 <= i < e1.len() && e1[i] == y;
                assert(i != 0);
                assert(r1[i - 1] == y);
            }
        }
        lemma_apply_settings_permutation(c1, r1, r2);
    }
}

/// The configuration does not depend on the order in which the user's keys come (a
/// `HashMap` walks them in no fixed order): two settings holding the same keys and
/// well-formed values, in any order, give the same configuration, as long as no two of the
/// keys lie on the way to one another.
pub proof fn lemma_workspace_configuration_order_free(s1: UserSettings, s2: UserSettings)
    requires
        s1.wf(),
        s2.wf(),
        s1.force_strict_templates == s2.force_strict_templates,
        forall|x: (Seq<char>, JsonView)|
            entries_view(s1.extra@).contains(x) <==> entries_view(s2.extra@).contains(x),
        forall|i: int|
            0 <= i < s1.extra@.len() ==> (#[trigger] entries_view(s1.extra@)[i]).1.wf(),
        keys_unrelated(entries_view(s1.extra@)),
        keys_unrelated(entries_view(s2.extra@)),
    ensures
        spec_workspace_configuration(s1) == spec_workspace_configuration(s2),
{
    lemma_base_configuration_shape(s1.force_strict_templates);
    lemma_apply_settings_permutation(
        base_configuration(s1.force_strict_templates),
        entries_view(s1.extra@),
        entries_view(s2.extra@),
    );
}

} // verus!

verus! {

/// The key `angular.forceStrictTemplates` names the path `angular`, then
/// `forceStrictTemplates`.
pub proof fn lemma_strict_templates_path()
    ensures
        split_dots("angular.forceStrictTemplates"@) == seq!["angular"@, "forceStrictTemplates"@],
{
    reveal_strlit("angular.forceStrictTemplates");
    reveal_strlit("angular");
    reveal_strlit("forceStrictTemplates");
    let k = "angular.forceStrictTemplates"@;
    assert(k.len() == 28);
    assert forall|i: int| 0 <= i < 7 implies (non_dot_class())(#[trigger] k[i]) by {}
    lemma_leading_len(k, non_dot_class(), 7);
    let tail = k.skip(8);
    assert(tail =~= "forceStrictTemplates"@);
    assert forall|i: int| 0 <= i < 20 implies (non_dot_class())(#[trigger] tail[i]) by {}
    lemma_leading_len(tail, non_dot_class(), 20);
    assert(split_dots(tail) == seq![tail]);
    assert(k.take(7) =~= "angular"@);
    assert(split_dots(k) =~= seq!["angular"@, "forceStrictTemplates"@]);
}

/// Settings whose keys lie neither on the way to `q` nor below it leave what `q` reads as
/// it was.
pub proof fn lemma_apply_settings_frame(
    c: JsonView,
    e: Seq<(Seq<char>, JsonView)>,
    q: Seq<Seq<char>>,
)
    requires
        forall|i: int| 0 <= i < e.len() ==> !paths_related(split_dots(#[trigger] e[i].0), q),
    ensures
        get_path(apply_settings(c, e), q) == get_path(c, q),
    decreases e.len(),
{
    if e.len() > 0 {
        let k0 = split_dots(e[0].0);
        lemma_split_dots_nonempty(e[0].0);
        lemma_set_path_frame_deep(c, k0, e[0].1, q);
        let rest = e.drop_first();
        assert forall|i: int| 0 <= i < rest.len() implies !paths_related(
            split_dots(#[trigger] rest[i].0),
            q,
        ) by {
            assert(rest[i] == e[i + 1]);
        }
        lemma_apply_settings_frame(set_path(c, k0, e[0].1), rest, q);
    }
}

/// Strict templates as the user set them are what the server reads: when
/// `angular.forceStrictTemplates` is set to `b`, the configuration holds `b` at
/// `angular` / `forceStrictTemplates` (unless one of the user's other keys is written on
/// that path, or on the way to it, and so replaces it).
pub proof fn lemma_workspace_configuration_strict_templates(s: UserSettings)
    requires
        forall|i: int|
            0 <= i < s.extra@.len() ==> !paths_related(
                split_dots(#[trigger] s.extra@[i].0@),
                seq!["angular"@, "forceStrictTemplates"@],
            ),
    ensures
        s.force_strict_templates matches Some(b) ==> get_path(
            spec_workspace_configuration(s),
            seq!["angular"@, "forceStrictTemplates"@],
        ) == Some(JsonView::Bool(b)),
{
    let q = seq!["angular"@, "forceStrictTemplates"@];
    lemma_strict_templates_path();
    let e = entries_view(s.extra@);
    assert forall|i: int| 0 <= i < e.len() implies !paths_related(split_dots(#[trigger] e[i].0), q) by {
        assert(e[i].0 == s.extra@[i].0@);
    }
    lemma_apply_settings_frame(base_configuration(s.force_strict_templates), e, q);
    if let Some(b) = s.force_strict_templates {
        lemma_base_configuration_shape(None);
        lemma_set_path_then_get(default_configuration(), q, JsonView::Bool(b));
    }
}

} // verus!
