//! Character classes and scanning over character sequences.
use vstd::prelude::*;

verus! {

/// `c` is one of the ten ASCII decimal digits.
pub open spec fn is_digit(c: char) -> bool {
    '0' <= c && c <= '9'
}

/// `c` carries the Unicode `White_Space` property (the characters that
/// `char::is_whitespace` accepts).
pub open spec fn is_space(c: char) -> bool {
    ||| c == ' '
    ||| ('\t' <= c && c <= '\r')
    ||| c == '\u{85}'
    ||| c == '\u{a0}'
    ||| c == '\u{1680}'
    ||| ('\u{2000}' <= c && c <= '\u{200a}')
    ||| c == '\u{2028}'
    ||| c == '\u{2029}'
    ||| c == '\u{202f}'
    ||| c == '\u{205f}'
    ||| c == '\u{3000}'
}

/// The ASCII digits, as a predicate.
pub open spec fn digit_class() -> spec_fn(char) -> bool {
    |c: char| is_digit(c)
}

/// Every character but the ASCII digits, as a predicate.
pub open spec fn non_digit_class() -> spec_fn(char) -> bool {
    |c: char| !is_digit(c)
}

/// Every character but white space, as a predicate.
pub open spec fn non_space_class() -> spec_fn(char) -> bool {
    |c: char| !is_space(c)
}

/// Length of the longest prefix of `s` whose characters all satisfy `p`.
pub open spec fn leading_len(s: Seq<char>, p: spec_fn(char) -> bool) -> nat
    decreases s.len(),
{
    if s.len() == 0 || !p(s[0]) {
        0
    } else {
        1 + leading_len(s.drop_first(), p)
    }
}

/// `n` is the length of the longest prefix of `s` made of characters that satisfy `p`
/// exactly when every character before `n` satisfies `p` and the one at `n`, if any, does not.
pub proof fn lemma_leading_len(s: Seq<char>, p: spec_fn(char) -> bool, n: int)
    requires
        0 <= n <= s.len(),
        forall|i: int| 0 <= i < n ==> p(#[trigger] s[i]),
        n == s.len() || !p(s[n]),
    ensures
        leading_len(s, p) == n,
    decreases s.len(),
{
    if s.len() != 0 && p(s[0]) {
        assert forall|i: int| 0 <= i < n - 1 implies p(#[trigger] s.drop_first()[i]) by {
            assert(s.drop_first()[i] == s[i + 1]);
        }
        if n < s.len() {
            assert(s.drop_first()[n - 1] == s[n]);
        }
        lemma_leading_len(s.drop_first(), p, n - 1);
    }
}

/// The longest prefix of `s` made of characters that satisfy `p`: every character before it
/// satisfies `p`, and the one right after it, if any, does not.
pub proof fn lemma_leading_len_props(s: Seq<char>, p: spec_fn(char) -> bool)
    ensures
        leading_len(s, p) <= s.len(),
        forall|i: int| 0 <= i < leading_len(s, p) ==> p(#[trigger] s[i]),
        leading_len(s, p) == s.len() || !p(s[leading_len(s, p) as int]),
    decreases s.len(),
{
    if s.len() != 0 && p(s[0]) {
        let t = s.drop_first();
        lemma_leading_len_props(t, p);
        assert forall|i: int| 0 <= i < leading_len(s, p) implies p(#[trigger] s[i]) by {
            if i > 0 {
                assert(s[i] == t[i - 1]);
            }
        }
        if leading_len(s, p) < s.len() {
            assert(s[leading_len(s, p) as int] == t[leading_len(t, p) as int]);
        }
    }
}

/// Putting characters that satisfy `p` in front of `s` lengthens its leading run by as many.
pub proof fn lemma_leading_len_prepend(a: Seq<char>, s: Seq<char>, p: spec_fn(char) -> bool)
    requires
        forall|i: int| 0 <= i < a.len() ==> p(#[trigger] a[i]),
    ensures
        leading_len(a + s, p) == a.len() + leading_len(s, p),
{
    lemma_leading_len_props(s, p);
    let u = a + s;
    let n = a.len() + leading_len(s, p);
    assert forall|i: int| 0 <= i < n implies p(#[trigger] u[i]) by {
        if i >= a.len() {
            assert(u[i] == s[i - a.len()]);
        }
    }
    if n < u.len() {
        assert(u[n as int] == s[leading_len(s, p) as int]);
    }
    lemma_leading_len(u, p, n as int);
}

/// Putting characters after `s` leaves its leading run alone, as long as the run stops inside
/// `s` or the first character put after it, if any, does not satisfy `p`.
pub proof fn lemma_leading_len_append(s: Seq<char>, b: Seq<char>, p: spec_fn(char) -> bool)
    requires
        leading_len(s, p) < s.len() || b.len() == 0 || !p(b[0]),
    ensures
        leading_len(s + b, p) == leading_len(s, p),
{
    lemma_leading_len_props(s, p);
    let u = s + b;
    let n = leading_len(s, p);
    assert forall|i: int| 0 <= i < n implies p(#[trigger] u[i]) by {
        assert(u[i] == s[i]);
    }
    if n < s.len() {
        assert(u[n as int] == s[n as int]);
    } else if n < u.len() {
        assert(u[n as int] == b[0]);
    }
    lemma_leading_len(u, p, n as int);
}

/// A prefix of `s` whose characters all satisfy `p` is no longer than the longest such prefix.
pub proof fn lemma_leading_len_at_least(s: Seq<char>, p: spec_fn(char) -> bool, m: int)
    requires
        0 <= m <= s.len(),
        forall|i: int| 0 <= i < m ==> p(#[trigger] s[i]),
    ensures
        m <= leading_len(s, p) <= s.len(),
    decreases s.len(),
{
    if s.len() != 0 && p(s[0]) {
        assert forall|i: int| 0 <= i < m - 1 implies p(#[trigger] s.drop_first()[i]) by {
            assert(s.drop_first()[i] == s[i + 1]);
        }
        lemma_leading_len_at_least(s.drop_first(), p, if m > 0 { m - 1 } else { 0 });
    }
}

/// Two sequences put together hold `x` exactly when one of them does.
pub proof fn lemma_contains_concat<A>(a: Seq<A>, b: Seq<A>, x: A)
    ensures
        (a + b).contains(x) == (a.contains(x) || b.contains(x)),
{
    let u = a + b;
    if u.contains(x) {
        let j = choose|j: int| 0 <= j < u.len() && u[j] == x;
        if j < a.len() {
            assert(a[j] == x);
        } else {
            assert(b[j - a.len()] == x);
        }
    }
    if a.contains(x) {
        let j = choose|j: int| 0 <= j < a.len() && a[j] == x;
        assert(u[j] == x);
    }
    if b.contains(x) {
        let j = choose|j: int| 0 <= j < b.len() && b[j] == x;
        assert(u[j + a.len()] == x);
    }
}

/// What a one- or two-element sequence holds.
pub proof fn lemma_contains_small<A>(a: A, b: A, x: A)
    ensures
        seq![a].contains(x) == (a == x),
        seq![a, b].contains(x) == (a == x || b == x),
        !Seq::<A>::empty().contains(x),
{
    assert(seq![a][0] == a);
    assert(seq![a, b][0] == a);
    assert(seq![a, b][1] == b);
}

/// The decimal number spelled by a sequence of digits.
pub open spec fn decimal_value(s: Seq<char>) -> nat
    decreases s.len(),
{
    if s.len() == 0 {
        0
    } else {
        decimal_value(s.drop_last()) * 10 + digit_value(s.last())
    }
}

/// The value of a decimal digit.
pub open spec fn digit_value(c: char) -> nat {
    (c as int - '0' as int) as nat
}

/// A decimal number is at least as large as the number spelled by any of its prefixes.
pub proof fn lemma_decimal_value_prefix(s: Seq<char>, k: int)
    requires
        0 <= k <= s.len(),
    ensures
        decimal_value(s.take(k)) <= decimal_value(s),
    decreases s.len() - k,
{
    if k < s.len() {
        lemma_decimal_value_prefix(s, k + 1);
        assert(s.take(k + 1).drop_last() =~= s.take(k));
    } else {
        assert(s.take(k) =~= s);
    }
}

/// Every character of `s` is white space: `str::trim` leaves nothing of it.
pub open spec fn all_space(s: Seq<char>) -> bool {
    forall|i: int| 0 <= i < s.len() ==> is_space(#[trigger] s[i])
}

/// The text of an optional string.
pub open spec fn opt_string_view(o: Option<String>) -> Option<Seq<char>> {
    match o {
        Some(s) => Some(s@),
        None => None,
    }
}

/// The character sequences of a list of strings.
pub open spec fn string_views(v: Seq<String>) -> Seq<Seq<char>> {
    v.map_values(|x: String| x@)
}

/// Whether `c` is an ASCII decimal digit.
pub fn char_is_digit(c: char) -> (r: bool)
    ensures
        r == is_digit(c),
{
    '0' <= c && c <= '9'
}

/// Whether `c` carries the Unicode `White_Space` property.
pub fn char_is_space(c: char) -> (r: bool)
    ensures
        r == is_space(c),
{
    c == ' ' || ('\t' <= c && c <= '\r') || c == '\u{85}' || c == '\u{a0}' || c == '\u{1680}'
        || ('\u{2000}' <= c && c <= '\u{200a}') || c == '\u{2028}' || c == '\u{2029}'
        || c == '\u{202f}' || c == '\u{205f}' || c == '\u{3000}'
}

/// The characters of `s`, in order.
pub fn chars_of(s: &str) -> (v: Vec<char>)
    ensures
        v@ == s@,
{
    let n = s.unicode_len();
    let mut v: Vec<char> = Vec::new();
    let mut i: usize = 0;
    while i < n
        invariant
            n == s@.len(),
            i <= n,
            v@ == s@.take(i as int),
        decreases n - i,
    {
        let c = s.get_char(i);
        v.push(c);
        i = i + 1;
        assert(v@ =~= s@.take(i as int));
    }
    assert(s@.take(n as int) =~= s@);
    v
}

/// Whether every character of `s` is white space (what `s.trim().is_empty()` tests).
pub fn is_blank(s: &str) -> (r: bool)
    ensures
        r == all_space(s@),
{
    let chars = chars_of(s);
    let mut i: usize = 0;
    while i < chars.len()
        invariant
            chars@ == s@,
            i <= chars.len(),
            forall|j: int| 0 <= j < i ==> is_space(#[trigger] chars@[j]),
        decreases chars.len() - i,
    {
        if !char_is_space(chars[i]) {
            return false;
        }
        i = i + 1;
    }
    true
}

} // verus!
