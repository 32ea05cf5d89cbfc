//! Reading the Angular major version out of an npm range spec, and the table
//! that maps an Angular major to a known-good language-server / TypeScript pair.
use vstd::prelude::*;
use crate::text::{
    all_space, char_is_digit, char_is_space, chars_of, decimal_value, digit_class, digit_value, is_digit,
    is_space, lemma_contains_concat, lemma_leading_len_append, lemma_leading_len_prepend, lemma_leading_len_props,
    leading_len, lemma_decimal_value_prefix, lemma_leading_len, lemma_leading_len_at_least,
    non_digit_class, non_space_class,
};

verus! {

/// A version parsed from an npm range spec such as `"^17.3.0"`, `"~18.0.0-rc.1"`,
/// `">=19.0.0 <20"`, `"v16.1.0"` or `"18.x"`.
#[derive(Debug, PartialEq)]
pub struct ParsedVersion {
    /// The major version number (e.g. 17).
    pub major: u32,
    /// The concrete version token with range operators stripped (e.g. `"17.3.0"`),
    /// taken up to the first white space.
    pub cleaned: String,
}

/// What an npm range spec `s` parses to: the major version and the cleaned version token,
/// or `None` for specs that name no usable version.
///
/// The version starts at the first ASCII digit. Specs whose text before that digit holds a
/// `:` or an `@` (such as `"workspace:1.0.0"` or `"npm:foo@1.2.3"`) are refused. The cleaned
/// token runs from that digit up to the first white space; the major version is the run of
/// digits it starts with, which must fit in a `u32`.
pub open spec fn spec_parse_version(s: Seq<char>) -> Option<(u32, Seq<char>)> {
    let start = leading_len(s, non_digit_class());
    if start == s.len() {
        None
    } else {
        let prefix = s.take(start as int);
        if prefix.contains(':') || prefix.contains('@') {
            None
        } else {
            let rest = s.skip(start as int);
            let cleaned = rest.take(leading_len(rest, non_space_class()) as int);
            let major = decimal_value(rest.take(leading_len(rest, digit_class()) as int));
            if major <= u32::MAX {
                Some((major as u32, cleaned))
            } else {
                None
            }
        }
    }
}

/// Parses an npm range spec. White space around the spec does not matter (see
/// `lemma_parse_version_ignores_surrounding_space`). Returns `None` for non-numeric specs
/// such as `"latest"`, `"next"`, `"*"`, `"workspace:*"`, or git/URL specs, so the caller can
/// fall back to a sensible default.
pub fn parse_version(range: &str) -> (r: Option<ParsedVersion>)
    ensures
        match (r, spec_parse_version(range@)) {
            (Some(v), Some((major, cleaned))) => v.major == major && v.cleaned@ == cleaned,
            (None, None) => true,
            _ => false,
        },
{
    let chars = chars_of(range);
    let n = chars.len();
    let ghost s = range@;

    // Find the first digit; everything before it is a range operator or prefix.
    let mut start: usize = 0;
    let mut bad_prefix = false;
    while start < n && !char_is_digit(chars[start])
        invariant
            chars@ == s,
            n == s.len(),
            start <= n,
            forall|j: int| 0 <= j < start ==> !is_digit(#[trigger] s[j]),
            bad_prefix == (s.take(start as int).contains(':') || s.take(start as int).contains('@')),
        decreases n - start,
    {
        let c = chars[start];
        proof {
            let t = s.take(start as int);
            assert(s.take(start + 1) =~= t + seq![c]);
            lemma_contains_concat(t, seq![c], ':');
            lemma_contains_concat(t, seq![c], '@');
            assert(seq![c].contains(':') == (c == ':')) by {
                assert(seq![c][0] == c);
            }
            assert(seq![c].contains('@') == (c == '@')) by {
                assert(seq![c][0] == c);
            }
        }
        if c == ':' || c == '@' {
            bad_prefix = true;
        }
        start = start + 1;
    }
    proof {
        lemma_leading_len(s, non_digit_class(), start as int);
    }
    if start == n || bad_prefix {
        return None;
    }
    let ghost rest = s.skip(start as int);

    // The cleaned token runs up to the first white space.
    let mut end: usize = start;
    while end < n && !char_is_space(chars[end])
        invariant
            chars@ == s,
            n == s.len(),
            start <= end <= n,
            forall|j: int| start <= j < end ==> !is_space(#[trigger] s[j]),
        decreases n - end,
    {
        end = end + 1;
    }
    proof {
        assert forall|j: int| 0 <= j < end - start implies (non_space_class())(
            #[trigger] rest[j],
        ) by {
            assert(rest[j] == s[j + start]);
        }
        if end < n {
            assert(rest[end - start] == s[end as int]);
        }
        lemma_leading_len(rest, non_space_class(), end - start);
    }

    // The major version is the run of digits the token starts with.
    let mut value: u64 = 0;
    let mut k: usize = start;
    while k < n && char_is_digit(chars[k])
        invariant
            chars@ == s,
            n == s.len(),
            start <= k <= n,
            s == range@,
            rest == s.skip(start as int),
            start < n,
            leading_len(s, non_digit_class()) == start,
            !(s.take(start as int).contains(':') || s.take(start as int).contains('@')),
            forall|j: int| start <= j < k ==> is_digit(#[trigger] s[j]),
            value == decimal_value(s.subrange(start as int, k as int)),
            value <= u32::MAX,
        decreases n - k,
    {
        let d = chars[k];
        let dv = (d as u32 - '0' as u32) as u64;
        proof {
            assert(s.subrange(start as int, k + 1).drop_last() =~= s.subrange(start as int, k as int));
            assert(s.subrange(start as int, k + 1).last() == d);
        }
        let next = value * 10 + dv;
        if next > 0xffff_ffff {
            proof {
                // Every longer run of digits spells a number at least as large.
                let taken = (k + 1 - start) as int;
                assert forall|j: int| 0 <= j < taken implies (digit_class())(#[trigger] rest[j]) by {
                    assert(rest[j] == s[j + start]);
                }
                lemma_leading_len_at_least(rest, digit_class(), taken);
                let lead = leading_len(rest, digit_class()) as int;
                assert(rest.take(lead).take(taken) =~= s.subrange(start as int, k + 1));
                lemma_decimal_value_prefix(rest.take(lead), taken);
                assert(decimal_value(s.subrange(start as int, k + 1)) == next);
                assert(decimal_value(rest.take(lead)) > u32::MAX);
            }
            return None;
        }
        value = next;
        k = k + 1;
    }
    proof {
        assert forall|j: int| 0 <= j < k - start implies (digit_class())(#[trigger] rest[j]) by {
            assert(rest[j] == s[j + start]);
        }
        if k < n {
            assert(rest[k - start] == s[k as int]);
        }
        lemma_leading_len(rest, digit_class(), k - start);
        assert(rest.take(k - start) =~= s.subrange(start as int, k as int));
        assert(rest.take(end - start) =~= s.subrange(start as int, end as int));
    }
    let cleaned = range.substring_char(start, end).to_owned();
    Some(ParsedVersion { major: value as u32, cleaned })
}

} // verus!

verus! {

/// Fallback language-server version, used when the project's Angular version cannot be
/// detected or is newer than the table knows.
pub const DEFAULT_ANGULAR_LANGUAGE_SERVER_VERSION: &'static str = "21.2.17";

/// Fallback TypeScript version, paired with `DEFAULT_ANGULAR_LANGUAGE_SERVER_VERSION`.
pub const DEFAULT_TYPESCRIPT_VERSION: &'static str = "5.9.3";

/// One row of the version table: an Angular major and the (`@angular/language-server`,
/// `typescript`) versions that are known to work with it.
pub type VersionRow = (u32, Seq<char>, Seq<char>);

/// The known-good pairs, one per Angular major from 13 to 21, in increasing order.
pub open spec fn version_table() -> Seq<VersionRow> {
    seq![
        (13u32, "13.3.4"@, "4.6.4"@),
        (14u32, "14.2.0"@, "4.8.4"@),
        (15u32, "15.2.1"@, "4.9.5"@),
        (16u32, "16.2.0"@, "5.1.6"@),
        (17u32, "17.3.2"@, "5.4.5"@),
        (18u32, "18.2.0"@, "5.5.4"@),
        (19u32, "19.2.4"@, "5.8.3"@),
        (20u32, "20.3.0"@, "5.8.3"@),
        (21u32, "21.2.17"@, "5.9.3"@),
    ]
}

/// The versions of the first row of `rows` whose major is `major`.
pub open spec fn find_row(rows: Seq<VersionRow>, major: u32) -> Option<(Seq<char>, Seq<char>)>
    decreases rows.len(),
{
    if rows.len() == 0 {
        None
    } else if rows[0].0 == major {
        Some((rows[0].1, rows[0].2))
    } else {
        find_row(rows.drop_first(), major)
    }
}

/// What `map_angular_major_to_versions` answers for `major`: majors below the lowest row
/// take the lowest row, majors above the highest row take none (the caller then uses the
/// defaults), and the others take their own row.
pub open spec fn spec_map_major(major: u32) -> Option<(Seq<char>, Seq<char>)> {
    let t = version_table();
    if major < t[0].0 {
        Some((t[0].1, t[0].2))
    } else if major > t.last().0 {
        None
    } else {
        find_row(t, major)
    }
}

/// The version table as executable data.
pub fn angular_version_table() -> (t: Vec<(u32, &'static str, &'static str)>)
    ensures
        t@.len() == version_table().len(),
        forall|i: int|
            0 <= i < t@.len() ==> (#[trigger] t@[i]).0 == version_table()[i].0 && t@[i].1@
                == version_table()[i].1 && t@[i].2@ == version_table()[i].2,
{
    vec![
        (13, "13.3.4", "4.6.4"),
        (14, "14.2.0", "4.8.4"),
        (15, "15.2.1", "4.9.5"),
        (16, "16.2.0", "5.1.6"),
        (17, "17.3.2", "5.4.5"),
        (18, "18.2.0", "5.5.4"),
        (19, "19.2.4", "5.8.3"),
        (20, "20.3.0", "5.8.3"),
        (21, "21.2.17", "5.9.3"),
    ]
}

/// Maps an Angular major version to concrete (`@angular/language-server`, `typescript`)
/// versions. Returns `None` for majors above the known table, signalling the caller to use
/// the modern defaults.
pub fn map_angular_major_to_versions(major: u32) -> (r: Option<(String, String)>)
    ensures
        match (r, spec_map_major(major)) {
            (Some((als, ts)), Some((sals, sts))) => als@ == sals && ts@ == sts,
            (None, None) => true,
            _ => false,
        },
{
    let table = angular_version_table();
    let ghost t = version_table();
    let lowest = table[0];
    let highest = table[table.len() - 1];

    // Below the lowest known major: clamp to the lowest entry.
    if major < lowest.0 {
        return Some((lowest.1.to_owned(), lowest.2.to_owned()));
    }
    // Above the highest known major: defer to the modern defaults.
    if major > highest.0 {
        return None;
    }

    let mut i: usize = 0;
    assert(t.skip(0) =~= t);
    while i < table.len()
        invariant
            t == version_table(),
            table@.len() == t.len(),
            forall|j: int|
                0 <= j < table@.len() ==> (#[trigger] table@[j]).0 == t[j].0 && table@[j].1@
                    == t[j].1 && table@[j].2@ == t[j].2,
            i <= table.len(),
            find_row(t, major) == find_row(t.skip(i as int), major),
        decreases table.len() - i,
    {
        assert(t.skip(i as int).drop_first() =~= t.skip(i + 1));
        let row = table[i];
        if row.0 == major {
            return Some((row.1.to_owned(), row.2.to_owned()));
        }
        i = i + 1;
    }
    None
}

} // verus!

verus! {

/// In rows whose majors run consecutively upwards, a major within their span is found in the
/// row at its offset from the first.
proof fn lemma_find_row_consecutive(rows: Seq<VersionRow>, major: u32)
    requires
        forall|i: int| 0 <= i < rows.len() ==> (#[trigger] rows[i]).0 == rows[0].0 + i,
        rows.len() > 0,
        rows[0].0 <= major < rows[0].0 + rows.len(),
    ensures
        find_row(rows, major) == Some(
            (rows[major - rows[0].0].1, rows[major - rows[0].0].2),
        ),
    decreases rows.len(),
{
    if rows[0].0 != major {
        let rest = rows.drop_first();
        assert(rest[0] == rows[1]);
        assert forall|i: int| 0 <= i < rest.len() implies (#[trigger] rest[i]).0 == rest[0].0 + i by {
            assert(rest[i] == rows[i + 1]);
        }
        lemma_find_row_consecutive(rest, major);
        assert(rest[major - rest[0].0] == rows[major - rows[0].0]);
    }
}

/// The table holds one row for each major from 13 to 21, in order.
pub proof fn lemma_version_table_consecutive()
    ensures
        version_table().len() == 9,
        forall|i: int|
            0 <= i < version_table().len() ==> (#[trigger] version_table()[i]).0 == 13 + i,
{
    let t = version_table();
    assert forall|i: int| 0 <= i < t.len() implies (#[trigger] t[i]).0 == 13 + i by {
        if i == 0 {} else if i == 1 {} else if i == 2 {} else if i == 3 {} else if i == 4 {}
        else if i == 5 {} else if i == 6 {} else if i == 7 {} else {}
    }
}

/// Every Angular major up to the newest one the table knows gets a version pair; only
/// newer majors are left to the defaults. Majors older than the table are clamped to its
/// oldest row, and a known major gets its own row.
pub proof fn lemma_map_major_coverage(major: u32)
    ensures
        spec_map_major(major) is Some <==> major <= 21,
        major < 13 ==> spec_map_major(major) == spec_map_major(13),
        13 <= major <= 21 ==> spec_map_major(major) == Some(
            (version_table()[major - 13].1, version_table()[major - 13].2),
        ),
{
    lemma_version_table_consecutive();
    let t = version_table();
    assert(t[0].0 == 13);
    assert(t.last().0 == 21);
    lemma_find_row_consecutive(t, 13);
    if 13 <= major <= 21 {
        lemma_find_row_consecutive(t, major);
    }
}

} // verus!

verus! {

/// White space around a range spec does not change what it parses to: `"  ^20.0.0  "`
/// parses as `"^20.0.0"` does.
pub proof fn lemma_parse_version_ignores_surrounding_space(a: Seq<char>, s: Seq<char>, b: Seq<char>)
    requires
        all_space(a),
        all_space(b),
    ensures
        spec_parse_version(a + s + b) == spec_parse_version(s),
{
    let u = a + s + b;
    assert(u =~= a + (s + b));
    assert forall|i: int| 0 <= i < a.len() implies (non_digit_class())(#[trigger] a[i]) by {
        assert(is_space(a[i]));
    }
    lemma_leading_len_prepend(a, s + b, non_digit_class());
    lemma_leading_len_props(s, non_digit_class());
    let k = leading_len(s, non_digit_class());
    if b.len() > 0 {
        assert(is_space(b[0]));
    }
    if k == s.len() {
        // No digit in `s`, and none in the white space around it.
        assert forall|i: int| 0 <= i < b.len() implies (non_digit_class())(#[trigger] b[i]) by {
            assert(is_space(b[i]));
        }
        lemma_leading_len_prepend(s, b, non_digit_class());
        assert(leading_len(b, non_digit_class()) == b.len()) by {
            lemma_leading_len(b, non_digit_class(), b.len() as int);
        }
    } else {
        lemma_leading_len_append(s, b, non_digit_class());
        let ku = a.len() + k;
        let prefix = s.take(k as int);
        let prefix_u = u.take(ku as int);
        assert(prefix_u =~= a + prefix);
        lemma_contains_concat(a, prefix, ':');
        lemma_contains_concat(a, prefix, '@');
        assert(!a.contains(':') && !a.contains('@')) by {
            if a.contains(':') {
                let j = choose|j: int| 0 <= j < a.len() && a[j] == ':';
                assert(is_space(a[j]));
            }
            if a.contains('@') {
                let j = choose|j: int| 0 <= j < a.len() && a[j] == '@';
                assert(is_space(a[j]));
            }
        }
        let rest = s.skip(k as int);
        let rest_u = u.skip(ku as int);
        assert(rest_u =~= rest + b);
        lemma_leading_len_append(rest, b, non_space_class());
        lemma_leading_len_append(rest, b, digit_class());
        lemma_leading_len_props(rest, non_space_class());
        lemma_leading_len_props(rest, digit_class());
        let c = leading_len(rest, non_space_class());
        let d = leading_len(rest, digit_class());
        assert(rest_u.take(c as int) =~= rest.take(c as int));
        assert(rest_u.take(d as int) =~= rest.take(d as int));
    }
}

} // verus!

verus! {

/// The cleaned token of a parsed spec starts with a digit and holds no white space, and the
/// major version is the number its leading digits spell.
pub proof fn lemma_parsed_token_shape(s: Seq<char>)
    ensures
        spec_parse_version(s) matches Some((major, cleaned)) ==> {
            &&& cleaned.len() > 0
            &&& is_digit(cleaned[0])
            &&& forall|i: int| 0 <= i < cleaned.len() ==> !is_space(#[trigger] cleaned[i])
            &&& major == decimal_value(cleaned.take(leading_len(cleaned, digit_class()) as int))
        },
{
    if let Some((major, cleaned)) = spec_parse_version(s) {
        let start = leading_len(s, non_digit_class());
        lemma_leading_len_props(s, non_digit_class());
        let rest = s.skip(start as int);
        let c = leading_len(rest, non_space_class());
        let d = leading_len(rest, digit_class());
        lemma_leading_len_props(rest, non_space_class());
        lemma_leading_len_props(rest, digit_class());
        assert(rest[0] == s[start as int]);
        // The run of digits stops within the token, since digits are not white space.
        assert(d <= c) by {
            if d > c {
                assert(is_digit(rest[c as int]));
            }
        }
        assert(c > 0);
        assert forall|i: int| 0 <= i < d implies (digit_class())(#[trigger] cleaned[i]) by {
            assert(cleaned[i] == rest[i]);
        }
        if d < c {
            assert(cleaned[d as int] == rest[d as int]);
        }
        lemma_leading_len(cleaned, digit_class(), d as int);
        assert(cleaned.take(d as int) =~= rest.take(d as int));
        assert forall|i: int| 0 <= i < cleaned.len() implies !is_space(#[trigger] cleaned[i]) by {
            assert(cleaned[i] == rest[i]);
        }
    }
}

} // verus!

verus! {

/// A version that starts with two digits and a dot and holds no white space parses to the
/// major those two digits spell, and is its own cleaned token.
proof fn lemma_parse_two_digit_release(s: Seq<char>)
    requires
        s.len() >= 3,
        is_digit(s[0]),
        is_digit(s[1]),
        s[2] == '.',
        forall|i: int| 0 <= i < s.len() ==> !is_space(#[trigger] s[i]),
    ensures
        spec_parse_version(s) == Some(
            ((10 * digit_value(s[0]) + digit_value(s[1])) as u32, s),
        ),
{
    lemma_leading_len(s, non_digit_class(), 0);
    assert(s.take(0) =~= Seq::<char>::empty());
    assert(s.skip(0) =~= s);
    assert forall|i: int| 0 <= i < s.len() implies (non_space_class())(#[trigger] s[i]) by {}
    lemma_leading_len(s, non_space_class(), s.len() as int);
    assert(s.take(s.len() as int) =~= s);
    assert forall|i: int| 0 <= i < 2 implies (digit_class())(#[trigger] s[i]) by {}
    lemma_leading_len(s, digit_class(), 2);
    let two = s.take(2);
    assert(two.drop_last() =~= s.take(1));
    assert(s.take(1).drop_last() =~= Seq::<char>::empty());
    assert(s.take(1).last() == s[0]);
    assert(two.last() == s[1]);
    assert(decimal_value(Seq::<char>::empty()) == 0);
    assert(decimal_value(s.take(1)) == digit_value(s[0]));
    assert(decimal_value(two) == digit_value(s[0]) * 10 + digit_value(s[1]));
}

/// The table follows the project's Angular version: the language server it pairs with each
/// Angular major it knows is a release of that same major.
pub proof fn lemma_table_server_matches_major(major: u32)
    requires
        13 <= major <= 21,
    ensures
        spec_map_major(major) matches Some((als, _)) && spec_parse_version(als) matches Some(
            (m, _),
        ) && m == major,
{
    lemma_map_major_coverage(major);
    let als = version_table()[major - 13].1;
    if major == 13 {
        reveal_strlit("13.3.4");
    } else if major == 14 {
        reveal_strlit("14.2.0");
    } else if major == 15 {
        reveal_strlit("15.2.1");
    } else if major == 16 {
        reveal_strlit("16.2.0");
    } else if major == 17 {
        reveal_strlit("17.3.2");
    } else if major == 18 {
        reveal_strlit("18.2.0");
    } else if major == 19 {
        reveal_strlit("19.2.4");
    } else if major == 20 {
        reveal_strlit("20.3.0");
    } else {
        reveal_strlit("21.2.17");
    }
    assert forall|i: int| 0 <= i < als.len() implies !is_space(#[trigger] als[i]) by {}
    lemma_parse_two_digit_release(als);
}

} // verus!
