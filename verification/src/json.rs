//! A JSON document model for the configuration exchanged with the language server, and
//! writing a value at a dot-delimited path into it.
use vstd::prelude::*;
use crate::text::{chars_of, lemma_leading_len, string_views};

verus! {

/// A JSON value. Numbers are kept as the text JSON writes for them, so that no
/// floating-point value passes through the library.
#[derive(Debug, PartialEq)]
pub enum JsonValue {
    Null,
    Bool(bool),
    Number(String),
    Str(String),
    Array(Vec<JsonValue>),
    /// The members of an object; a well-formed object keeps them in the order of their keys
    /// (`key_lt`), as a `serde_json` map does, and so names each key once.
    Object(Vec<(String, JsonValue)>),
}

/// The mathematical value of a `JsonValue`.
pub enum JsonView {
    Null,
    Bool(bool),
    Number(Seq<char>),
    Str(Seq<char>),
    Array(Seq<JsonView>),
    Object(Seq<(Seq<char>, JsonView)>),
}

impl View for JsonValue {
    type V = JsonView;

    open spec fn view(&self) -> JsonView
        decreases self,
    {
        match self {
            JsonValue::Null => JsonView::Null,
            JsonValue::Bool(b) => JsonView::Bool(*b),
            JsonValue::Number(n) => JsonView::Number(n@),
            JsonValue::Str(s) => JsonView::Str(s@),
            JsonValue::Array(items) => JsonView::Array(
                Seq::new(
                    items@.len(),
                    |i: int|
                        if 0 <= i < items@.len() {
                            items@[i].view()
                        } else {
                            JsonView::Null
                        },
                ),
            ),
            JsonValue::Object(members) => JsonView::Object(
                Seq::new(
                    members@.len(),
                    |i: int|
                        (
                            members@[i].0@,
                            if 0 <= i < members@.len() {
                                members@[i].1.view()
                            } else {
                                JsonView::Null
                            },
                        ),
                ),
            ),
        }
    }
}

} // verus!

verus! {

/// Index of the first member named `key`, or the number of members when none is.
pub open spec fn find_key(members: Seq<(Seq<char>, JsonView)>, key: Seq<char>) -> nat
    decreases members.len(),
{
    if members.len() == 0 || members[0].0 == key {
        0
    } else {
        1 + find_key(members.drop_first(), key)
    }
}

/// `k` is where the first member named `key` stands (or the number of members, if none is)
/// exactly when no member before `k` has that name and the one at `k`, if any, has it.
pub proof fn lemma_find_key(members: Seq<(Seq<char>, JsonView)>, key: Seq<char>, k: int)
    requires
        0 <= k <= members.len(),
        forall|j: int| 0 <= j < k ==> (#[trigger] members[j]).0 != key,
        k == members.len() || members[k].0 == key,
    ensures
        find_key(members, key) == k,
    decreases members.len(),
{
    if members.len() != 0 && members[0].0 != key {
        let rest = members.drop_first();
        assert forall|j: int| 0 <= j < k - 1 implies (#[trigger] rest[j]).0 != key by {
            assert(rest[j] == members[j + 1]);
        }
        if k < members.len() {
            assert(rest[k - 1] == members[k]);
        }
        lemma_find_key(rest, key, k - 1);
    }
}

/// The value of the member named `key`, if there is one.
pub open spec fn member_get(members: Seq<(Seq<char>, JsonView)>, key: Seq<char>) -> Option<
    JsonView,
> {
    let k = find_key(members, key);
    if k < members.len() {
        Some(members[k as int].1)
    } else {
        None
    }
}

/// Keys in order: character by character, and a key before every longer key it starts.
/// This is the order of `String`'s `Ord` (UTF-8 bytes compare as the characters they
/// encode), by which `serde_json` keeps an object's members.
pub open spec fn key_lt(a: Seq<char>, b: Seq<char>) -> bool
    decreases a.len(),
{
    if b.len() == 0 {
        false
    } else if a.len() == 0 {
        true
    } else if a[0] != b[0] {
        a[0] < b[0]
    } else {
        key_lt(a.drop_first(), b.drop_first())
    }
}

/// No key comes before itself, and of two keys one comes first unless they are equal.
pub proof fn lemma_key_lt_total(a: Seq<char>, b: Seq<char>)
    ensures
        !key_lt(a, a),
        !(key_lt(a, b) && key_lt(b, a)),
        a != b ==> key_lt(a, b) || key_lt(b, a),
    decreases a.len(),
{
    if a.len() > 0 {
        lemma_key_lt_total(a.drop_first(), a.drop_first());
        if b.len() > 0 && a[0] == b[0] {
            lemma_key_lt_total(a.drop_first(), b.drop_first());
            if a.drop_first() == b.drop_first() {
                assert(a =~= seq![a[0]] + a.drop_first());
                assert(b =~= seq![b[0]] + b.drop_first());
            }
        }
    } else if b.len() == 0 {
        assert(a =~= b);
    }
}

/// The key order is transitive.
pub proof fn lemma_key_lt_trans(a: Seq<char>, b: Seq<char>, c: Seq<char>)
    requires
        key_lt(a, b),
        key_lt(b, c),
    ensures
        key_lt(a, c),
    decreases a.len(),
{
    if a.len() > 0 && a[0] == b[0] && b[0] == c[0] {
        lemma_key_lt_trans(a.drop_first(), b.drop_first(), c.drop_first());
    }
}

/// How many leading members have keys before `key`: where a member named `key` belongs.
pub open spec fn insert_pos(members: Seq<(Seq<char>, JsonView)>, key: Seq<char>) -> nat
    decreases members.len(),
{
    if members.len() == 0 || !key_lt(members[0].0, key) {
        0
    } else {
        1 + insert_pos(members.drop_first(), key)
    }
}

/// The members before the place of `key` have keys before it; the one at it, if any, not.
pub proof fn lemma_insert_pos_props(m: Seq<(Seq<char>, JsonView)>, key: Seq<char>)
    ensures
        insert_pos(m, key) <= m.len(),
        forall|j: int| 0 <= j < insert_pos(m, key) ==> key_lt((#[trigger] m[j]).0, key),
        insert_pos(m, key) < m.len() ==> !key_lt(m[insert_pos(m, key) as int].0, key),
    decreases m.len(),
{
    if m.len() != 0 && key_lt(m[0].0, key) {
        let t = m.drop_first();
        lemma_insert_pos_props(t, key);
        assert forall|j: int| 0 <= j < insert_pos(m, key) implies key_lt((#[trigger] m[j]).0, key) by {
            if j > 0 {
                assert(m[j] == t[j - 1]);
            }
        }
        if insert_pos(m, key) < m.len() {
            assert(m[insert_pos(m, key) as int] == t[insert_pos(t, key) as int]);
        }
    }
}

/// `p` is the place of `key` when every member before it has a key before `key` and the
/// one at it, if any, has not.
pub proof fn lemma_insert_pos(m: Seq<(Seq<char>, JsonView)>, key: Seq<char>, p: int)
    requires
        0 <= p <= m.len(),
        forall|j: int| 0 <= j < p ==> key_lt((#[trigger] m[j]).0, key),
        p == m.len() || !key_lt(m[p].0, key),
    ensures
        insert_pos(m, key) == p,
    decreases m.len(),
{
    if m.len() != 0 && key_lt(m[0].0, key) {
        let t = m.drop_first();
        assert forall|j: int| 0 <= j < p - 1 implies key_lt((#[trigger] t[j]).0, key) by {
            assert(t[j] == m[j + 1]);
        }
        if p < m.len() {
            assert(t[p - 1] == m[p]);
        }
        if p == 0 {
            assert(!key_lt(m[0].0, key));
        }
        lemma_insert_pos(t, key, p - 1);
    }
}

/// The members with the one named `key` set to `value`: replaced where it stands, or, when
/// there is none, inserted where its key belongs in the key order (so that an object whose
/// keys are in order stays so, as a `serde_json` map does).
pub open spec fn member_put(
    members: Seq<(Seq<char>, JsonView)>,
    key: Seq<char>,
    value: JsonView,
) -> Seq<(Seq<char>, JsonView)> {
    let k = find_key(members, key);
    if k < members.len() {
        members.update(k as int, (key, value))
    } else {
        members.insert(insert_pos(members, key) as int, (key, value))
    }
}

/// The object a path continues into below the member named `key`: that member when it is
/// an object, else a new empty object.
pub open spec fn child_object(members: Seq<(Seq<char>, JsonView)>, key: Seq<char>) -> JsonView {
    match member_get(members, key) {
        Some(c) => if c is Object {
            c
        } else {
            JsonView::Object(Seq::empty())
        },
        None => JsonView::Object(Seq::empty()),
    }
}

/// The value `v` with `value` written at the path `parts`, object by object.
///
/// Only an object can receive a member: a value that is not an object is left as it is.
/// On the way to the last part, a missing member or one that is not an object is replaced
/// by an empty object, which the rest of the path then fills.
pub open spec fn set_path(v: JsonView, parts: Seq<Seq<char>>, value: JsonView) -> JsonView
    decreases parts.len(),
{
    match v {
        JsonView::Object(members) => {
            if parts.len() == 0 {
                v
            } else if parts.len() == 1 {
                JsonView::Object(member_put(members, parts[0], value))
            } else {
                let child = child_object(members, parts[0]);
                JsonView::Object(
                    member_put(members, parts[0], set_path(child, parts.drop_first(), value)),
                )
            }
        },
        _ => v,
    }
}

/// The value found by following the path `parts` from `v`, object by object.
pub open spec fn get_path(v: JsonView, parts: Seq<Seq<char>>) -> Option<JsonView>
    decreases parts.len(),
{
    if parts.len() == 0 {
        Some(v)
    } else {
        match v {
            JsonView::Object(members) => match member_get(members, parts[0]) {
                Some(c) => get_path(c, parts.drop_first()),
                None => None,
            },
            _ => None,
        }
    }
}

/// The parts of `s` between dots, as `str::split('.')` yields them: always at least one,
/// and empty where two dots meet or a dot starts or ends `s`.
pub open spec fn split_dots(s: Seq<char>) -> Seq<Seq<char>>
    decreases s.len(),
{
    let i = crate::text::leading_len(s, non_dot_class());
    if i >= s.len() {
        seq![s]
    } else {
        seq![s.take(i as int)] + split_dots(s.skip(i + 1int))
    }
}

/// Splitting always yields at least one part.
pub proof fn lemma_split_dots_nonempty(s: Seq<char>)
    ensures
        split_dots(s).len() > 0,
{
}

/// Every character but the dot, as a predicate.
pub open spec fn non_dot_class() -> spec_fn(char) -> bool {
    |c: char| c != '.'
}

} // verus!

verus! {

/// Splits `path` at every dot, as `str::split('.')` does.
pub fn split_on_dots(path: &str) -> (parts: Vec<String>)
    ensures
        string_views(parts@) == split_dots(path@),
{
    let chars = chars_of(path);
    let n = chars.len();
    let ghost s = path@;
    let mut parts: Vec<String> = Vec::new();
    let mut start: usize = 0;
    assert(s.skip(0) =~= s);
    loop
        invariant_except_break
            chars@ == s,
            s == path@,
            n == s.len(),
            start <= n,
            string_views(parts@) + split_dots(s.skip(start as int)) =~= split_dots(s),
        ensures
            string_views(parts@) =~= split_dots(s),
        decreases n - start,
    {
        let mut j: usize = start;
        while j < n && chars[j] != '.'
            invariant
                chars@ == s,
                n == s.len(),
                start <= j <= n,
                forall|k: int| start <= k < j ==> #[trigger] s[k] != '.',
            decreases n - j,
        {
            j = j + 1;
        }
        let ghost rest = s.skip(start as int);
        proof {
            assert forall|k: int| 0 <= k < j - start implies (non_dot_class())(#[trigger] rest[k]) by {
                assert(rest[k] == s[k + start]);
            }
            if j < n {
                assert(rest[j - start] == s[j as int]);
            }
            lemma_leading_len(rest, non_dot_class(), j - start);
            assert(rest.take(j - start) =~= s.subrange(start as int, j as int));
        }
        let piece = path.substring_char(start, j).to_owned();
        let ghost old_parts = parts@;
        parts.push(piece);
        assert(string_views(parts@) =~= string_views(old_parts).push(piece@));
        if j == n {
            assert(split_dots(rest) == seq![rest]);
            assert(rest =~= s.subrange(start as int, j as int));
            break;
        }
        assert(rest.skip(j - start + 1) =~= s.skip(j + 1));
        start = j + 1;
    }
    parts
}

impl JsonValue {
    /// Whether the value is an object.
    pub fn is_object(&self) -> (r: bool)
        ensures
            r == (self@ is Object),
    {
        match self {
            JsonValue::Object(_) => true,
            _ => false,
        }
    }

    /// A copy of the value.
    pub fn deep_clone(&self) -> (r: JsonValue)
        ensures
            r@ == self@,
        decreases self,
    {
        match self {
            JsonValue::Null => JsonValue::Null,
            JsonValue::Bool(b) => JsonValue::Bool(*b),
            JsonValue::Number(n) => JsonValue::Number(n.clone()),
            JsonValue::Str(s) => JsonValue::Str(s.clone()),
            JsonValue::Array(items) => {
                let mut out: Vec<JsonValue> = Vec::new();
                let mut i: usize = 0;
                while i < items.len()
                    invariant
                        i <= items.len(),
                        out@.len() == i,
                        forall|j: int| 0 <= j < i ==> (#[trigger] out@[j])@ == items@[j]@,
                        *self == JsonValue::Array(*items),
                    decreases items.len() - i,
                {
                    proof {
                        assert(decreases_to!(*self => self->Array_0));
                        assert(decreases_to!(*items => items@));
                        assert(decreases_to!(items@ => items@[i as int]));
                    }
                    let c = items[i].deep_clone();
                    out.push(c);
                    i = i + 1;
                }
                let r = JsonValue::Array(out);
                assert(r@ == self@) by {
                    if let JsonView::Array(a) = r@ {
                        if let JsonView::Array(b) = self@ {
                            assert(a =~= b);
                        }
                    }
                }
                r
            },
            JsonValue::Object(members) => {
                let mut out: Vec<(String, JsonValue)> = Vec::new();
                let mut i: usize = 0;
                while i < members.len()
                    invariant
                        i <= members.len(),
                        out@.len() == i,
                        forall|j: int|
                            0 <= j < i ==> (#[trigger] out@[j]).0@ == members@[j].0@ && out@[j].1@
                                == members@[j].1@,
                        *self == JsonValue::Object(*members),
                    decreases members.len() - i,
                {
                    proof {
                        assert(decreases_to!(*self => self->Object_0));
                        assert(decreases_to!(*members => members@));
                        assert(decreases_to!(members@ => members@[i as int]));
                        assert(decreases_to!(members@[i as int] => members@[i as int].1));
                    }
                    let c = members[i].1.deep_clone();
                    out.push((members[i].0.clone(), c));
                    i = i + 1;
                }
                let r = JsonValue::Object(out);
                assert(r@ == self@) by {
                    let a = r@->Object_0;
                    let b = self@->Object_0;
                    assert(self@ == JsonValue::Object(*members)@);
                    assert(b.len() == members@.len());
                    assert forall|j: int| 0 <= j < a.len() implies a[j] == b[j] by {
                        assert(a[j] == (out@[j].0@, out@[j].1@));
                        assert(b[j] == (members@[j].0@, members@[j].1@));
                    }
                    assert(a =~= b);
                }
                r
            },
        }
    }
}

} // verus!

verus! {

/// The mathematical members of an object's member list.
pub open spec fn members_view(m: Seq<(String, JsonValue)>) -> Seq<(Seq<char>, JsonView)> {
    Seq::new(m.len(), |i: int| (m[i].0@, m[i].1@))
}

/// An object's view is the view of its members.
pub proof fn lemma_object_view(m: Vec<(String, JsonValue)>)
    ensures
        JsonValue::Object(m)@ == JsonView::Object(members_view(m@)),
{
    let a = JsonValue::Object(m)@->Object_0;
    assert(a =~= members_view(m@));
}

impl JsonValue {
    /// An object without members.
    pub fn empty_object() -> (r: JsonValue)
        ensures
            r@ == JsonView::Object(Seq::empty()),
    {
        let members: Vec<(String, JsonValue)> = Vec::new();
        proof {
            lemma_object_view(members);
            assert(members_view(members@) =~= Seq::empty());
        }
        JsonValue::Object(members)
    }
}

impl JsonValue {
    /// The member named `key`, when the value is an object that has one.
    pub fn get(&self, key: &str) -> (r: Option<&JsonValue>)
        ensures
            match (r, self@) {
                (Some(v), JsonView::Object(m)) => member_get(m, key@) == Some(v@),
                (None, JsonView::Object(m)) => member_get(m, key@) is None,
                (None, _) => true,
                _ => false,
            },
    {
        match self {
            JsonValue::Object(members) => {
                proof {
                    lemma_object_view(*members);
                }
                let name = key.to_owned();
                let k = find_member(members, &name);
                if k < members.len() {
                    Some(&members[k].1)
                } else {
                    None
                }
            },
            _ => None,
        }
    }
}

/// Where the first member named `key` stands, or the number of members when none is.
pub fn find_member(members: &Vec<(String, JsonValue)>, key: &String) -> (k: usize)
    ensures
        k == find_key(members_view(members@), key@),
{
    let ghost mv = members_view(members@);
    let mut k: usize = 0;
    while k < members.len() && members[k].0 != *key
        invariant
            mv == members_view(members@),
            k <= members.len(),
            forall|j: int| 0 <= j < k ==> (#[trigger] mv[j]).0 != key@,
        decreases members.len() - k,
    {
        assert(mv[k as int].0 == members@[k as int].0@);
        k = k + 1;
    }
    proof {
        if k < members.len() {
            assert(mv[k as int].0 == members@[k as int].0@);
        }
        lemma_find_key(mv, key@, k as int);
    }
    k
}

/// Whether key `a` comes before key `b` (see `key_lt`).
pub fn key_less(a: &String, b: &String) -> (r: bool)
    ensures
        r == key_lt(a@, b@),
{
    let x = chars_of(a.as_str());
    let y = chars_of(b.as_str());
    let mut i: usize = 0;
    assert(a@.skip(0) =~= a@ && b@.skip(0) =~= b@);
    while i < x.len() && i < y.len() && x[i] == y[i]
        invariant
            x@ == a@,
            y@ == b@,
            i <= x.len(),
            i <= y.len(),
            key_lt(a@, b@) == key_lt(a@.skip(i as int), b@.skip(i as int)),
        decreases x.len() - i,
    {
        assert(a@.skip(i as int).drop_first() =~= a@.skip(i + 1));
        assert(b@.skip(i as int).drop_first() =~= b@.skip(i + 1));
        i = i + 1;
    }
    if i == y.len() {
        false
    } else if i == x.len() {
        true
    } else {
        assert(a@.skip(i as int)[0] == x@[i as int]);
        assert(b@.skip(i as int)[0] == y@[i as int]);
        x[i] < y[i]
    }
}

/// Where a member named `key` belongs among `members` in the key order.
fn find_insert_pos(members: &Vec<(String, JsonValue)>, key: &String) -> (p: usize)
    ensures
        p == insert_pos(members_view(members@), key@),
{
    let ghost mv = members_view(members@);
    let mut p: usize = 0;
    while p < members.len() && key_less(&members[p].0, key)
        invariant
            mv == members_view(members@),
            p <= members.len(),
            forall|j: int| 0 <= j < p ==> key_lt((#[trigger] mv[j]).0, key@),
        decreases members.len() - p,
    {
        assert(mv[p as int].0 == members@[p as int].0@);
        p = p + 1;
    }
    proof {
        if p < members.len() {
            assert(mv[p as int].0 == members@[p as int].0@);
        }
        lemma_insert_pos(mv, key@, p as int);
    }
    p
}

/// `value` written at the path `parts[i..]` of `node` (see `set_path`).
fn with_path(node: JsonValue, parts: &Vec<String>, i: usize, value: JsonValue) -> (r: JsonValue)
    requires
        i < parts.len(),
    ensures
        r@ == set_path(node@, string_views(parts@).skip(i as int), value@),
    decreases parts.len() - i,
{
    let ghost ps = string_views(parts@).skip(i as int);
    assert(ps[0] == parts@[i as int]@);
    match node {
        JsonValue::Object(members) => {
            let mut members = members;
            let ghost mv = members_view(members@);
            proof {
                lemma_object_view(members);
            }
            let k = find_member(&members, &parts[i]);
            let key = parts[i].clone();
            let new_value = if i + 1 == parts.len() {
                value
            } else {
                let child = if k < members.len() {
                    let mut slot = (String::new(), JsonValue::Null);
                    members.set_and_swap(k, &mut slot);
                    let (_, c) = slot;
                    if c.is_object() {
                        c
                    } else {
                        JsonValue::empty_object()
                    }
                } else {
                    JsonValue::empty_object()
                };
                proof {
                    assert(string_views(parts@).skip(i + 1) =~= ps.drop_first());
                }
                with_path(child, parts, i + 1, value)
            };
            if k < members.len() {
                members.set(k, (key, new_value));
            } else {
                let at = find_insert_pos(&members, &key);
                proof {
                    lemma_insert_pos_props(members_view(members@), key@);
                }
                let ghost before = members@;
                members.insert(at, (key, new_value));
                proof {
                    assert(members_view(members@) =~= members_view(before).insert(
                        at as int,
                        (key@, new_value@),
                    ));
                }
            }
            proof {
                lemma_object_view(members);
                assert(members_view(members@) =~= member_put(mv, ps[0], new_value@));
            }
            JsonValue::Object(members)
        },
        other => other,
    }
}

/// Inserts `value` into `root` at a dot-delimited `path`, creating intermediate objects as
/// needed. Used to merge flat VSCode-style keys such as
/// `"angular.inlayHints.variableTypes.ifAliasTypes"` into the nested structure the language
/// server expects. Intermediates that are not objects are overwritten with objects; a root
/// that is not an object is left as it is.
pub fn set_nested(root: &mut JsonValue, path: &str, value: JsonValue)
    ensures
        final(root)@ == set_path(old(root)@, split_dots(path@), value@),
{
    let parts = split_on_dots(path);
    proof {
        assert(split_dots(path@).len() > 0) by {
            reveal_with_fuel(split_dots, 1);
        }
        assert(string_views(parts@).skip(0) =~= string_views(parts@));
    }
    let mut node = JsonValue::Null;
    std::mem::swap(root, &mut node);
    *root = with_path(node, &parts, 0, value);
}

} // verus!

verus! {

/// The members stand in the order of their keys (so no two share a key), as in a
/// `serde_json` map.
pub open spec fn keys_sorted(m: Seq<(Seq<char>, JsonView)>) -> bool {
    forall|i: int, j: int| 0 <= i < j < m.len() ==> key_lt((#[trigger] m[i]).0, (#[trigger] m[j]).0)
}

impl JsonView {
    /// Every object in the value, at any depth, keeps its members in the order of their keys
    /// and so names each key once (as a `serde_json` map does).
    pub open spec fn wf(self) -> bool
        decreases self,
    {
        match self {
            JsonView::Array(items) => forall|i: int|
                0 <= i < items.len() ==> (#[trigger] items[i]).wf(),
            JsonView::Object(m) => keys_sorted(m) && forall|i: int|
                0 <= i < m.len() ==> (#[trigger] m[i]).1.wf(),
            _ => true,
        }
    }
}

/// The first member named `key`: no member before it has that name, and it has it.
pub proof fn lemma_find_key_props(m: Seq<(Seq<char>, JsonView)>, key: Seq<char>)
    ensures
        find_key(m, key) <= m.len(),
        forall|j: int| 0 <= j < find_key(m, key) ==> (#[trigger] m[j]).0 != key,
        find_key(m, key) < m.len() ==> m[find_key(m, key) as int].0 == key,
    decreases m.len(),
{
    if m.len() != 0 && m[0].0 != key {
        let t = m.drop_first();
        lemma_find_key_props(t, key);
        assert forall|j: int| 0 <= j < find_key(m, key) implies (#[trigger] m[j]).0 != key by {
            if j > 0 {
                assert(m[j] == t[j - 1]);
            }
        }
        if find_key(m, key) < m.len() {
            assert(m[find_key(m, key) as int] == t[find_key(t, key) as int]);
        }
    }
}

/// After setting the member named `key`, reading it back gives what was set, and every other
/// member reads as before.
pub proof fn lemma_member_put_get(
    m: Seq<(Seq<char>, JsonView)>,
    key: Seq<char>,
    value: JsonView,
    other: Seq<char>,
)
    ensures
        member_get(member_put(m, key, value), key) == Some(value),
        other != key ==> member_get(member_put(m, key, value), other) == member_get(m, other),
{
    let p = member_put(m, key, value);
    let f = find_key(m, key);
    let g = find_key(m, other);
    lemma_find_key_props(m, key);
    lemma_find_key_props(m, other);
    if f < m.len() {
        assert forall|j: int| 0 <= j < f implies (#[trigger] p[j]).0 != key by {
            assert(p[j] == m[j]);
        }
        lemma_find_key(p, key, f as int);
        if other != key {
            if g < m.len() {
                assert forall|j: int| 0 <= j < g implies (#[trigger] p[j]).0 != other by {
                    if j != f {
                        assert(p[j] == m[j]);
                    }
                }
                if g != f {
                    assert(p[g as int] == m[g as int]);
                }
                lemma_find_key(p, other, g as int);
            } else {
                assert forall|j: int| 0 <= j < p.len() implies (#[trigger] p[j]).0 != other by {
                    if j != f {
                        assert(p[j] == m[j]);
                    }
                }
                lemma_find_key(p, other, p.len() as int);
            }
        }
    } else {
        let q = insert_pos(m, key);
        lemma_insert_pos_props(m, key);
        assert(p[q as int] == (key, value));
        assert forall|j: int| 0 <= j < q implies (#[trigger] p[j]).0 != key by {
            assert(p[j] == m[j]);
        }
        lemma_find_key(p, key, q as int);
        if other != key {
            if g < m.len() {
                let g2 = if g < q { g as int } else { g + 1int };
                assert forall|j: int| 0 <= j < g2 implies (#[trigger] p[j]).0 != other by {
                    if j < q {
                        assert(p[j] == m[j]);
                    } else if j > q {
                        assert(p[j] == m[j - 1]);
                    }
                }
                if g < q {
                    assert(p[g as int] == m[g as int]);
                } else {
                    assert(p[g + 1int] == m[g as int]);
                }
                lemma_find_key(p, other, g2);
            } else {
                assert forall|j: int| 0 <= j < p.len() implies (#[trigger] p[j]).0 != other by {
                    if j < q {
                        assert(p[j] == m[j]);
                    } else if j > q {
                        assert(p[j] == m[j - 1]);
                    }
                }
                lemma_find_key(p, other, p.len() as int);
            }
        }
    }
}

/// Members whose keys are in order name each key once.
pub proof fn lemma_sorted_distinct(m: Seq<(Seq<char>, JsonView)>)
    requires
        keys_sorted(m),
    ensures
        forall|i: int, j: int| 0 <= i < j < m.len() ==> (#[trigger] m[i]).0 != (#[trigger] m[j]).0,
{
    assert forall|i: int, j: int| 0 <= i < j < m.len() implies (#[trigger] m[i]).0 != (
    #[trigger] m[j]).0 by {
        lemma_key_lt_total(m[i].0, m[j].0);
    }
}

/// Setting a member keeps an object's keys in order; every member afterwards is the one set
/// or one that was there before.
pub proof fn lemma_member_put_sorted(m: Seq<(Seq<char>, JsonView)>, key: Seq<char>, value: JsonView)
    requires
        keys_sorted(m),
    ensures
        keys_sorted(member_put(m, key, value)),
        forall|i: int|
            0 <= i < member_put(m, key, value).len() ==> (#[trigger] member_put(m, key, value)[i]) == (
            key, value) || exists|j: int| 0 <= j < m.len() && m[j] == member_put(m, key, value)[i],
{
    let p = member_put(m, key, value);
    let f = find_key(m, key);
    lemma_find_key_props(m, key);
    if f < m.len() {
        assert forall|i: int, j: int| 0 <= i < j < p.len() implies key_lt(
            (#[trigger] p[i]).0,
            (#[trigger] p[j]).0,
        ) by {
            assert(p[i].0 == m[i].0 && p[j].0 == m[j].0);
        }
        assert forall|i: int| 0 <= i < p.len() implies (#[trigger] p[i]) == (key, value) || exists|
            j: int,
        | 0 <= j < m.len() && m[j] == p[i] by {
            if i != f {
                assert(m[i] == p[i]);
            }
        }
    } else {
        let q = insert_pos(m, key);
        lemma_insert_pos_props(m, key);
        if q < m.len() {
            lemma_key_lt_total(m[q as int].0, key);
            assert(m[q as int].0 != key);
        }
        assert forall|i: int, j: int| 0 <= i < j < p.len() implies key_lt(
            (#[trigger] p[i]).0,
            (#[trigger] p[j]).0,
        ) by {
            if j < q {
                assert(p[i] == m[i] && p[j] == m[j]);
            } else if j == q {
                assert(p[i] == m[i]);
            } else if i > q {
                assert(p[i] == m[i - 1] && p[j] == m[j - 1]);
            } else if i == q {
                assert(p[j] == m[j - 1]);
                if j - 1 > q {
                    lemma_key_lt_trans(key, m[q as int].0, m[j - 1].0);
                }
            } else {
                assert(p[i] == m[i] && p[j] == m[j - 1]);
            }
        }
        assert forall|i: int| 0 <= i < p.len() implies (#[trigger] p[i]) == (key, value) || exists|
            j: int,
        | 0 <= j < m.len() && m[j] == p[i] by {
            if i < q {
                assert(m[i] == p[i]);
            } else if i > q {
                assert(m[i - 1] == p[i]);
            }
        }
    }
}

/// A value is well formed when it is an object whose keys are distinct and whose members are
/// well formed.
pub proof fn lemma_object_wf(m: Seq<(Seq<char>, JsonView)>)
    ensures
        JsonView::Object(m).wf() == (keys_sorted(m) && forall|i: int|
            0 <= i < m.len() ==> (#[trigger] m[i]).1.wf()),
{
}

/// Writing a value at a path and then reading that path back from an object gives the value
/// written (the user's dot-namespaced setting is what the server finds at that path).
pub proof fn lemma_set_path_then_get(root: JsonView, parts: Seq<Seq<char>>, value: JsonView)
    requires
        root is Object,
        parts.len() > 0,
    ensures
        get_path(set_path(root, parts, value), parts) == Some(value),
    decreases parts.len(),
{
    let m = root->Object_0;
    if parts.len() == 1 {
        lemma_member_put_get(m, parts[0], value, parts[0]);
        assert(get_path(value, parts.drop_first()) == Some(value));
    } else {
        let child = child_object(m, parts[0]);
        let new_child = set_path(child, parts.drop_first(), value);
        lemma_member_put_get(m, parts[0], new_child, parts[0]);
        lemma_set_path_then_get(child, parts.drop_first(), value);
    }
}

/// Writing at a path leaves every top-level member with another key as it was.
pub proof fn lemma_set_path_frame(
    root: JsonView,
    parts: Seq<Seq<char>>,
    value: JsonView,
    other: Seq<char>,
)
    requires
        root is Object,
        parts.len() > 0,
        other != parts[0],
    ensures
        set_path(root, parts, value) is Object,
        member_get(set_path(root, parts, value)->Object_0, other) == member_get(
            root->Object_0,
            other,
        ),
{
    let m = root->Object_0;
    let child = child_object(m, parts[0]);
    if parts.len() == 1 {
        lemma_member_put_get(m, parts[0], value, other);
    } else {
        lemma_member_put_get(m, parts[0], set_path(child, parts.drop_first(), value), other);
    }
}

/// Writing a well-formed value into a well-formed document keeps it well formed: no object
/// ever names a key twice.
pub proof fn lemma_set_path_wf(root: JsonView, parts: Seq<Seq<char>>, value: JsonView)
    requires
        root.wf(),
        value.wf(),
    ensures
        set_path(root, parts, value).wf(),
    decreases parts.len(),
{
    if root is Object && parts.len() > 0 {
        let m = root->Object_0;
        lemma_object_wf(m);
        let new_value = if parts.len() == 1 {
            value
        } else {
            let child = child_object(m, parts[0]);
            lemma_find_key_props(m, parts[0]);
            if let Some(c) = member_get(m, parts[0]) {
                assert(c == m[find_key(m, parts[0]) as int].1);
            }
            lemma_object_wf(Seq::empty());
            lemma_set_path_wf(child, parts.drop_first(), value);
            set_path(child, parts.drop_first(), value)
        };
        let p = member_put(m, parts[0], new_value);
        lemma_member_put_sorted(m, parts[0], new_value);
        assert forall|i: int| 0 <= i < p.len() implies (#[trigger] p[i]).1.wf() by {
            if p[i] != (parts[0], new_value) {
                let j = choose|j: int| 0 <= j < m.len() && m[j] == p[i];
                assert(m[j].1.wf());
            }
        }
        lemma_object_wf(p);
    }
}

} // verus!

verus! {

/// The parts joined back together with dots.
pub open spec fn join_dots(parts: Seq<Seq<char>>) -> Seq<char>
    decreases parts.len(),
{
    if parts.len() <= 1 {
        if parts.len() == 0 {
            Seq::empty()
        } else {
            parts[0]
        }
    } else {
        parts[0] + seq!['.'] + join_dots(parts.drop_first())
    }
}

/// Splitting a key at its dots loses nothing: joining the parts with dots gives the key back,
/// and no part holds a dot.
pub proof fn lemma_split_dots_join(s: Seq<char>)
    ensures
        join_dots(split_dots(s)) == s,
        forall|i: int, j: int|
            0 <= i < split_dots(s).len() && 0 <= j < split_dots(s)[i].len() ==> #[trigger] split_dots(
                s,
            )[i][j] != '.',
    decreases s.len(),
{
    let i = crate::text::leading_len(s, non_dot_class());
    crate::text::lemma_leading_len_props(s, non_dot_class());
    if i < s.len() {
        let rest = s.skip(i + 1int);
        lemma_split_dots_join(rest);
        lemma_split_dots_nonempty(rest);
        let parts = split_dots(s);
        assert(parts.drop_first() =~= split_dots(rest));
        assert(s =~= s.take(i as int) + seq!['.'] + rest);
        assert forall|a: int, b: int| 0 <= a < parts.len() && 0 <= b < parts[a].len() implies #[trigger] parts[a][b]
            != '.' by {
            if a > 0 {
                assert(parts[a] == split_dots(rest)[a - 1]);
            } else {
                assert(parts[0][b] == s[b]);
            }
        }
    } else {
        assert forall|a: int, b: int|
            0 <= a < split_dots(s).len() && 0 <= b < split_dots(s)[a].len() implies #[trigger] split_dots(
            s,
        )[a][b] != '.' by {
            assert(split_dots(s)[a] == s);
        }
    }
}

} // verus!

verus! {

/// `p` is a prefix of `q`, part for part.
pub open spec fn is_path_prefix(p: Seq<Seq<char>>, q: Seq<Seq<char>>) -> bool {
    p.len() <= q.len() && q.take(p.len() as int) == p
}

/// One of two paths is a prefix of the other (so writing one can touch the other).
pub open spec fn paths_related(p: Seq<Seq<char>>, q: Seq<Seq<char>>) -> bool {
    is_path_prefix(p, q) || is_path_prefix(q, p)
}

/// `q` leads to an object on the way to `p`: it is a prefix of `p` and shorter.
pub open spec fn is_proper_path_prefix(q: Seq<Seq<char>>, p: Seq<Seq<char>>) -> bool {
    q.len() < p.len() && is_path_prefix(q, p)
}

/// Two paths that start with the same part are related exactly when their remainders are.
pub proof fn lemma_related_tail(p: Seq<Seq<char>>, q: Seq<Seq<char>>)
    requires
        p.len() > 0,
        q.len() > 0,
        p[0] == q[0],
    ensures
        is_path_prefix(p, q) == is_path_prefix(p.drop_first(), q.drop_first()),
        is_path_prefix(q, p) == is_path_prefix(q.drop_first(), p.drop_first()),
{
    if p.len() <= q.len() {
        if q.take(p.len() as int) == p {
            assert(q.drop_first().take(p.len() - 1) =~= p.drop_first());
        }
        if q.drop_first().take(p.len() - 1) == p.drop_first() {
            assert(q.take(p.len() as int) =~= p) by {
                assert forall|i: int| 0 <= i < p.len() implies q.take(p.len() as int)[i] == p[i] by {
                    if i > 0 {
                        assert(q.drop_first().take(p.len() - 1)[i - 1] == p.drop_first()[i - 1]);
                    }
                }
            }
        }
    }
    if q.len() <= p.len() {
        if p.take(q.len() as int) == q {
            assert(p.drop_first().take(q.len() - 1) =~= q.drop_first());
        }
        if p.drop_first().take(q.len() - 1) == q.drop_first() {
            assert(p.take(q.len() as int) =~= q) by {
                assert forall|i: int| 0 <= i < q.len() implies p.take(q.len() as int)[i] == q[i] by {
                    if i > 0 {
                        assert(p.drop_first().take(q.len() - 1)[i - 1] == q.drop_first()[i - 1]);
                    }
                }
            }
        }
    }
}

/// Two prefixes of one path are related.
pub proof fn lemma_prefixes_related(p1: Seq<Seq<char>>, p2: Seq<Seq<char>>, q: Seq<Seq<char>>)
    requires
        is_path_prefix(p1, q),
        is_path_prefix(p2, q),
    ensures
        paths_related(p1, p2),
{
    if p1.len() <= p2.len() {
        assert(p2.take(p1.len() as int) =~= p1) by {
            assert forall|i: int| 0 <= i < p1.len() implies p2.take(p1.len() as int)[i] == p1[i] by {
                assert(q.take(p2.len() as int)[i] == q.take(p1.len() as int)[i]);
            }
        }
    } else {
        assert(p1.take(p2.len() as int) =~= p2) by {
            assert forall|i: int| 0 <= i < p2.len() implies p1.take(p2.len() as int)[i] == p2[i] by {
                assert(q.take(p2.len() as int)[i] == q.take(p1.len() as int)[i]);
            }
        }
    }
}

/// A prefix as long as the path is the path itself.
pub proof fn lemma_prefix_same_length(q: Seq<Seq<char>>, p: Seq<Seq<char>>)
    requires
        is_path_prefix(q, p),
        !is_proper_path_prefix(q, p),
    ensures
        q == p,
        is_path_prefix(p, q),
{
    assert(p.take(p.len() as int) =~= p);
    assert(q =~= p);
    assert(q.take(p.len() as int) =~= p);
}

/// A prefix of a prefix is a prefix.
pub proof fn lemma_prefix_trans(p: Seq<Seq<char>>, q: Seq<Seq<char>>, r: Seq<Seq<char>>)
    requires
        is_path_prefix(p, q),
        is_path_prefix(q, r),
    ensures
        is_path_prefix(p, r),
{
    assert(r.take(p.len() as int) =~= p) by {
        assert forall|i: int| 0 <= i < p.len() implies r.take(p.len() as int)[i] == p[i] by {
            assert(r.take(q.len() as int)[i] == q[i]);
            assert(q.take(p.len() as int)[i] == p[i]);
        }
    }
}

/// Nothing is found below a value that is not an object, nor below an empty object.
proof fn lemma_get_path_nothing_below(v: JsonView, q: Seq<Seq<char>>)
    requires
        q.len() > 0,
        !(v is Object) || v == JsonView::Object(Seq::empty()),
    ensures
        get_path(v, q) is None,
{
}

/// Writing at a path leaves every path unrelated to it as it was, at any depth: what is
/// read there after the write is what was read there before.
pub proof fn lemma_set_path_frame_deep(
    root: JsonView,
    p: Seq<Seq<char>>,
    value: JsonView,
    q: Seq<Seq<char>>,
)
    requires
        p.len() > 0,
        !paths_related(p, q),
    ensures
        get_path(set_path(root, p, value), q) == get_path(root, q),
    decreases p.len(),
{
    if root is Object {
        let m = root->Object_0;
        if q.len() == 0 {
            assert(p.take(0) =~= q);
        }
        if p[0] != q[0] {
            if p.len() == 1 {
                lemma_member_put_get(m, p[0], value, q[0]);
            } else {
                lemma_member_put_get(
                    m,
                    p[0],
                    set_path(child_object(m, p[0]), p.drop_first(), value),
                    q[0],
                );
            }
        } else {
            lemma_related_tail(p, q);
            if p.len() == 1 {
                assert(q.take(1) =~= p);
            }
            if q.len() == 1 {
                assert(p.take(1) =~= q);
            }
            let child = child_object(m, p[0]);
            let nv = set_path(child, p.drop_first(), value);
            lemma_member_put_get(m, p[0], nv, p[0]);
            lemma_set_path_frame_deep(child, p.drop_first(), value, q.drop_first());
            match member_get(m, p[0]) {
                Some(c) => if !(c is Object) {
                    lemma_get_path_nothing_below(c, q.drop_first());
                    lemma_get_path_nothing_below(child, q.drop_first());
                },
                None => {
                    lemma_get_path_nothing_below(child, q.drop_first());
                },
            }
        }
    }
}

/// Reading below the path just written in an object reads inside the value written.
pub proof fn lemma_set_path_get_below(
    root: JsonView,
    p: Seq<Seq<char>>,
    value: JsonView,
    q: Seq<Seq<char>>,
)
    requires
        root is Object,
        p.len() > 0,
        is_path_prefix(p, q),
    ensures
        get_path(set_path(root, p, value), q) == get_path(value, q.skip(p.len() as int)),
    decreases p.len(),
{
    let m = root->Object_0;
    assert(q[0] == q.take(p.len() as int)[0]);
    if p.len() == 1 {
        lemma_member_put_get(m, p[0], value, p[0]);
        assert(q.drop_first() =~= q.skip(1));
    } else {
        let child = child_object(m, p[0]);
        let nv = set_path(child, p.drop_first(), value);
        lemma_member_put_get(m, p[0], nv, p[0]);
        lemma_related_tail(p, q);
        lemma_set_path_get_below(child, p.drop_first(), value, q.drop_first());
        assert(q.drop_first().skip(p.len() - 1) =~= q.skip(p.len() as int));
    }
}

/// On the way to a path just written in an object, every step reads an object.
pub proof fn lemma_set_path_get_above(
    root: JsonView,
    p: Seq<Seq<char>>,
    value: JsonView,
    q: Seq<Seq<char>>,
)
    requires
        root is Object,
        is_proper_path_prefix(q, p),
    ensures
        get_path(set_path(root, p, value), q) matches Some(o) && o is Object,
    decreases q.len(),
{
    let m = root->Object_0;
    if q.len() > 0 {
        assert(q[0] == p.take(q.len() as int)[0]);
        let child = child_object(m, p[0]);
        let nv = set_path(child, p.drop_first(), value);
        lemma_member_put_get(m, p[0], nv, p[0]);
        lemma_related_tail(q, p);
        lemma_set_path_get_above(child, p.drop_first(), value, q.drop_first());
    }
}

/// Reading a member past a first member of another name reads it in the rest.
proof fn lemma_member_get_tail(m: Seq<(Seq<char>, JsonView)>, key: Seq<char>)
    requires
        m.len() > 0,
        m[0].0 != key,
    ensures
        member_get(m, key) == member_get(m.drop_first(), key),
{
    let t = m.drop_first();
    lemma_find_key_props(t, key);
    if find_key(t, key) < t.len() {
        assert(m[find_key(m, key) as int] == t[find_key(t, key) as int]);
    }
}

/// No member is found under a key that no member has.
proof fn lemma_member_get_absent(m: Seq<(Seq<char>, JsonView)>, key: Seq<char>)
    requires
        forall|j: int| 0 <= j < m.len() ==> (#[trigger] m[j]).0 != key,
    ensures
        member_get(m, key) is None,
{
    lemma_find_key(m, key, m.len() as int);
}

/// Two member lists in key order that read the same under every key are the same: an object
/// in key order is determined by what it maps each key to.
pub proof fn lemma_sorted_members_ext(m1: Seq<(Seq<char>, JsonView)>, m2: Seq<(Seq<char>, JsonView)>)
    requires
        keys_sorted(m1),
        keys_sorted(m2),
        forall|k: Seq<char>| #[trigger] member_get(m1, k) == member_get(m2, k),
    ensures
        m1 == m2,
    decreases m1.len() + m2.len(),
{
    if m1.len() == 0 && m2.len() == 0 {
        assert(m1 =~= m2);
    } else if m1.len() == 0 {
        assert(member_get(m1, m2[0].0) == member_get(m2, m2[0].0));
        lemma_member_get_absent(m1, m2[0].0);
        lemma_find_key(m2, m2[0].0, 0);
    } else if m2.len() == 0 {
        assert(member_get(m1, m1[0].0) == member_get(m2, m1[0].0));
        lemma_member_get_absent(m2, m1[0].0);
        lemma_find_key(m1, m1[0].0, 0);
    } else {
        let a = m1[0].0;
        let b = m2[0].0;
        lemma_find_key(m1, a, 0);
        lemma_find_key(m2, b, 0);
        lemma_key_lt_total(a, b);
        if a != b {
            if key_lt(a, b) {
                assert forall|j: int| 0 <= j < m2.len() implies (#[trigger] m2[j]).0 != a by {
                    if j > 0 {
                        lemma_key_lt_trans(a, b, m2[j].0);
                    }
                    lemma_key_lt_total(a, m2[j].0);
                }
                lemma_member_get_absent(m2, a);
                assert(member_get(m1, a) == member_get(m2, a));
            } else {
                assert forall|j: int| 0 <= j < m1.len() implies (#[trigger] m1[j]).0 != b by {
                    if j > 0 {
                        lemma_key_lt_trans(b, a, m1[j].0);
                    }
                    lemma_key_lt_total(b, m1[j].0);
                }
                lemma_member_get_absent(m1, b);
                assert(member_get(m1, b) == member_get(m2, b));
            }
        } else {
            assert(member_get(m1, a) == member_get(m2, a));
            let t1 = m1.drop_first();
            let t2 = m2.drop_first();
            assert forall|i: int, j: int| 0 <= i < j < t1.len() implies key_lt(
                (#[trigger] t1[i]).0,
                (#[trigger] t1[j]).0,
            ) by {
                assert(t1[i] == m1[i + 1] && t1[j] == m1[j + 1]);
            }
            assert forall|i: int, j: int| 0 <= i < j < t2.len() implies key_lt(
                (#[trigger] t2[i]).0,
                (#[trigger] t2[j]).0,
            ) by {
                assert(t2[i] == m2[i + 1] && t2[j] == m2[j + 1]);
            }
            assert forall|k: Seq<char>| #[trigger] member_get(t1, k) == member_get(t2, k) by {
                if k == a {
                    assert forall|j: int| 0 <= j < t1.len() implies (#[trigger] t1[j]).0 != a by {
                        assert(t1[j] == m1[j + 1]);
                        lemma_key_lt_total(a, t1[j].0);
                    }
                    assert forall|j: int| 0 <= j < t2.len() implies (#[trigger] t2[j]).0 != a by {
                        assert(t2[j] == m2[j + 1]);
                        lemma_key_lt_total(a, t2[j].0);
                    }
                    lemma_member_get_absent(t1, a);
                    lemma_member_get_absent(t2, a);
                } else {
                    assert(member_get(m1, k) == member_get(m2, k));
                    lemma_member_get_tail(m1, k);
                    lemma_member_get_tail(m2, k);
                }
            }
            lemma_sorted_members_ext(t1, t2);
            assert(m1 =~= m2) by {
                assert forall|i: int| 0 <= i < m1.len() implies m1[i] == m2[i] by {
                    if i > 0 {
                        assert(m1[i] == t1[i - 1] && m2[i] == t2[i - 1]);
                    }
                }
            }
        }
    }
}

/// The object a path continues into, within a well-formed object, is a well-formed object.
pub proof fn lemma_child_object_wf(m: Seq<(Seq<char>, JsonView)>, key: Seq<char>)
    requires
        JsonView::Object(m).wf(),
    ensures
        child_object(m, key) is Object,
        child_object(m, key).wf(),
{
    lemma_object_wf(m);
    lemma_find_key_props(m, key);
    if let Some(c) = member_get(m, key) {
        assert(c == m[find_key(m, key) as int].1);
    }
    lemma_object_wf(Seq::empty());
}

/// Writing into an object gives an object.
pub proof fn lemma_set_path_keeps_object(root: JsonView, parts: Seq<Seq<char>>, value: JsonView)
    requires
        root is Object,
    ensures
        set_path(root, parts, value) is Object,
{
}

/// Writes at two unrelated paths of a well-formed document can be done in either order:
/// both orders give the same document.
pub proof fn lemma_set_path_commute(
    root: JsonView,
    p1: Seq<Seq<char>>,
    v1: JsonView,
    p2: Seq<Seq<char>>,
    v2: JsonView,
)
    requires
        root.wf(),
        p1.len() > 0,
        p2.len() > 0,
        !paths_related(p1, p2),
    ensures
        set_path(set_path(root, p1, v1), p2, v2) == set_path(set_path(root, p2, v2), p1, v1),
    decreases p1.len(),
{
    if root is Object {
        let m = root->Object_0;
        lemma_object_wf(m);
        let a = p1[0];
        let b = p2[0];
        lemma_child_object_wf(m, a);
        lemma_child_object_wf(m, b);
        let x1 = if p1.len() == 1 {
            v1
        } else {
            set_path(child_object(m, a), p1.drop_first(), v1)
        };
        let y2 = if p2.len() == 1 {
            v2
        } else {
            set_path(child_object(m, b), p2.drop_first(), v2)
        };
        let m1 = member_put(m, a, x1);
        let m2 = member_put(m, b, y2);
        lemma_member_put_sorted(m, a, x1);
        lemma_member_put_sorted(m, b, y2);
        if a != b {
            // The second write finds the same child as it would have found first.
            lemma_member_put_get(m, a, x1, b);
            lemma_member_put_get(m, b, y2, a);
            assert(child_object(m1, b) == child_object(m, b));
            assert(child_object(m2, a) == child_object(m, a));
            let r1 = member_put(m1, b, y2);
            let r2 = member_put(m2, a, x1);
            lemma_member_put_sorted(m1, b, y2);
            lemma_member_put_sorted(m2, a, x1);
            assert forall|k: Seq<char>| #[trigger] member_get(r1, k) == member_get(r2, k) by {
                lemma_member_put_get(m1, b, y2, k);
                lemma_member_put_get(m2, a, x1, k);
                lemma_member_put_get(m, a, x1, k);
                lemma_member_put_get(m, b, y2, k);
            }
            lemma_sorted_members_ext(r1, r2);
        } else {
            if p1.len() == 1 {
                assert(p2.take(1) =~= p1);
            }
            if p2.len() == 1 {
                assert(p1.take(1) =~= p2);
            }
            lemma_related_tail(p1, p2);
            let c = child_object(m, a);
            lemma_set_path_keeps_object(c, p1.drop_first(), v1);
            lemma_set_path_keeps_object(c, p2.drop_first(), v2);
            lemma_member_put_get(m, a, x1, a);
            lemma_member_put_get(m, a, y2, a);
            assert(child_object(m1, a) == x1);
            assert(child_object(m2, a) == y2);
            lemma_set_path_commute(c, p1.drop_first(), v1, p2.drop_first(), v2);
            let z = set_path(x1, p2.drop_first(), v2);
            assert(z == set_path(y2, p1.drop_first(), v1));
            let r1 = member_put(m1, a, z);
            let r2 = member_put(m2, a, z);
            lemma_member_put_sorted(m1, a, z);
            lemma_member_put_sorted(m2, a, z);
            assert forall|k: Seq<char>| #[trigger] member_get(r1, k) == member_get(r2, k) by {
                lemma_member_put_get(m1, a, z, k);
                lemma_member_put_get(m2, a, z, k);
                lemma_member_put_get(m, a, x1, k);
                lemma_member_put_get(m, a, y2, k);
            }
            lemma_sorted_members_ext(r1, r2);
        }
    }
}

} // verus!
