use vstd::prelude::*;

use crate::chars::{chars_of, string_of};

verus! {

/// The most characters a label keeps.
pub const MAX_LEN: usize = 128;

/// A control character: Unicode general category Cc, which is what
/// `char::is_control` tests.
pub open spec fn is_control(c: char) -> bool {
    c <= '\u{1f}' || ('\u{7f}' <= c && c <= '\u{9f}')
}

/// A character with the Unicode White_Space property, which is what
/// `char::is_whitespace` tests and what `str::trim` strips.
pub open spec fn is_whitespace(c: char) -> bool {
    ||| ('\u{9}' <= c && c <= '\u{d}')
    ||| c == ' '
    ||| c == '\u{85}'
    ||| c == '\u{a0}'
    ||| c == '\u{1680}'
    ||| ('\u{2000}' <= c && c <= '\u{200a}')
    ||| c == '\u{2028}'
    ||| c == '\u{2029}'
    ||| c == '\u{202f}'
    ||| c == '\u{205f}'
    ||| c == '\u{3000}'
}

/// A character that may stand in a label: no control character and no angle bracket.
pub open spec fn is_label_char(c: char) -> bool {
    !is_control(c) && c != '<' && c != '>'
}

/// `s` without the characters that may not stand in a label.
pub open spec fn strip_unsafe(s: Seq<char>) -> Seq<char>
    decreases s.len(),
{
    if s.len() == 0 {
        s
    } else if is_label_char(s.last()) {
        strip_unsafe(s.drop_last()).push(s.last())
    } else {
        strip_unsafe(s.drop_last())
    }
}

/// `s` without leading white space.
pub open spec fn trim_start(s: Seq<char>) -> Seq<char>
    decreases s.len(),
{
    if s.len() > 0 && is_whitespace(s[0]) {
        trim_start(s.drop_first())
    } else {
        s
    }
}

/// `s` without trailing white space.
pub open spec fn trim_end(s: Seq<char>) -> Seq<char>
    decreases s.len(),
{
    if s.len() > 0 && is_whitespace(s.last()) {
        trim_end(s.drop_last())
    } else {
        s
    }
}

/// `s` without leading or trailing white space.
pub open spec fn trim(s: Seq<char>) -> Seq<char> {
    trim_end(trim_start(s))
}

/// What `plain` makes of `s`: unsafe characters dropped, white space trimmed,
/// and at most `MAX_LEN` characters kept, with the white space that the cut
/// leaves at the end trimmed again.
pub open spec fn plain_spec(s: Seq<char>) -> Seq<char> {
    let t = trim(strip_unsafe(s));
    if t.len() > MAX_LEN {
        trim_end(t.take(MAX_LEN as int))
    } else {
        t
    }
}

/// Every character of `s` may stand in a label.
pub open spec fn all_label_chars(s: Seq<char>) -> bool {
    forall|i: int| 0 <= i < s.len() ==> is_label_char(#[trigger] s[i])
}

proof fn lemma_strip_unsafe_is_clean(s: Seq<char>)
    ensures
        all_label_chars(strip_unsafe(s)),
        strip_unsafe(s).len() <= s.len(),
    decreases s.len(),
{
    if s.len() > 0 {
        lemma_strip_unsafe_is_clean(s.drop_last());
    }
}

proof fn lemma_trim_start_keeps(s: Seq<char>)
    requires
        all_label_chars(s),
    ensures
        all_label_chars(trim_start(s)),
        trim_start(s).len() <= s.len(),
    decreases s.len(),
{
    if s.len() > 0 && is_whitespace(s[0]) {
        let t = s.drop_first();
        assert forall|i: int| 0 <= i < t.len() implies is_label_char(#[trigger] t[i]) by {
            assert(t[i] == s[i + 1]);
        }
        lemma_trim_start_keeps(t);
    }
}

proof fn lemma_trim_end_keeps(s: Seq<char>)
    requires
        all_label_chars(s),
    ensures
        all_label_chars(trim_end(s)),
        trim_end(s).len() <= s.len(),
    decreases s.len(),
{
    if s.len() > 0 && is_whitespace(s.last()) {
        let t = s.drop_last();
        assert forall|i: int| 0 <= i < t.len() implies is_label_char(#[trigger] t[i]) by {
            assert(t[i] == s[i]);
        }
        lemma_trim_end_keeps(t);
    }
}

/// A label never holds a control character, which would break the line
/// protocol, nor an angle bracket, which a markup-aware widget would parse,
/// and never more than `MAX_LEN` characters.
pub proof fn law_labels_are_plain(s: Seq<char>)
    ensures
        all_label_chars(plain_spec(s)),
        plain_spec(s).len() <= MAX_LEN,
{
    lemma_strip_unsafe_is_clean(s);
    let u = strip_unsafe(s);
    lemma_trim_start_keeps(u);
    lemma_trim_end_keeps(trim_start(u));
    let t = trim(u);
    if t.len() > MAX_LEN {
        let c = t.take(MAX_LEN as int);
        assert forall|i: int| 0 <= i < c.len() implies is_label_char(#[trigger] c[i]) by {
            assert(c[i] == t[i]);
        }
        lemma_trim_end_keeps(c);
    }
}

/// `s` is a label already: only label characters, no white space at either
/// end, and at most `MAX_LEN` characters.
pub open spec fn is_clean_label(s: Seq<char>) -> bool {
    &&& all_label_chars(s)
    &&& trim(s) == s
    &&& s.len() <= MAX_LEN
}

proof fn lemma_strip_unsafe_keeps_clean(s: Seq<char>)
    requires
        all_label_chars(s),
    ensures
        strip_unsafe(s) == s,
    decreases s.len(),
{
    if s.len() > 0 {
        let t = s.drop_last();
        assert forall|i: int| 0 <= i < t.len() implies is_label_char(#[trigger] t[i]) by {
            assert(t[i] == s[i]);
        }
        lemma_strip_unsafe_keeps_clean(t);
        assert(is_label_char(s[s.len() - 1]));
        assert(t.push(s.last()) =~= s);
    }
}

proof fn lemma_trim_start_front(s: Seq<char>)
    ensures
        trim_start(s).len() > 0 ==> !is_whitespace(trim_start(s)[0]),
    decreases s.len(),
{
    if s.len() > 0 && is_whitespace(s[0]) {
        lemma_trim_start_front(s.drop_first());
    }
}

proof fn lemma_trim_end_back(s: Seq<char>)
    ensures
        trim_end(s).len() > 0 ==> !is_whitespace(trim_end(s).last()),
    decreases s.len(),
{
    if s.len() > 0 && is_whitespace(s.last()) {
        lemma_trim_end_back(s.drop_last());
    }
}

proof fn lemma_trim_end_is_prefix(s: Seq<char>)
    ensures
        trim_end(s).len() <= s.len(),
        trim_end(s) == s.take(trim_end(s).len() as int),
    decreases s.len(),
{
    if s.len() > 0 && is_whitespace(s.last()) {
        lemma_trim_end_is_prefix(s.drop_last());
        let t = trim_end(s.drop_last());
        assert(s.drop_last().take(t.len() as int) =~= s.take(t.len() as int));
    } else {
        assert(s.take(s.len() as int) =~= s);
    }
}

/// A sequence whose ends are not white space is its own trim.
proof fn lemma_trim_of_trimmed(s: Seq<char>)
    requires
        s.len() > 0 ==> !is_whitespace(s[0]) && !is_whitespace(s.last()),
    ensures
        trim(s) == s,
{
}

/// Trimming the start of what has no space at its end keeps that end.
proof fn lemma_trim_end_then_start(s: Seq<char>)
    requires
        s.len() > 0 ==> !is_whitespace(s[0]),
    ensures
        trim(trim_end(s)) == trim_end(s),
{
    lemma_trim_end_is_prefix(s);
    lemma_trim_end_back(s);
    let t = trim_end(s);
    if t.len() > 0 {
        assert(t[0] == s[0]);
    }
    lemma_trim_of_trimmed(t);
}

/// What `plain` returns is a clean label.
pub proof fn lemma_plain_is_clean(s: Seq<char>)
    ensures
        is_clean_label(plain_spec(s)),
{
    law_labels_are_plain(s);
    let u = strip_unsafe(s);
    let a = trim_start(u);
    lemma_trim_start_front(u);
    lemma_trim_end_then_start(a);
    let t = trim(u);
    if t.len() > MAX_LEN {
        let c = t.take(MAX_LEN as int);
        lemma_trim_end_then_start(a);
        lemma_trim_end_is_prefix(a);
        assert(t.len() > 0);
        assert(t[0] == a[0]);
        assert(c[0] == t[0]);
        lemma_trim_end_then_start(c);
    }
}

/// Cleaning leaves a clean label as it is, so cleaning twice is cleaning
/// once.
pub proof fn law_plain_leaves_clean_labels_alone(s: Seq<char>)
    ensures
        is_clean_label(s) ==> plain_spec(s) == s,
        plain_spec(plain_spec(s)) == plain_spec(s),
{
    if is_clean_label(s) {
        lemma_strip_unsafe_keeps_clean(s);
    }
    lemma_plain_is_clean(s);
    let o = plain_spec(s);
    lemma_strip_unsafe_keeps_clean(o);
}

pub fn is_control_char(c: char) -> (r: bool)
    ensures
        r == is_control(c),
{
    c <= '\u{1f}' || ('\u{7f}' <= c && c <= '\u{9f}')
}

pub fn is_whitespace_char(c: char) -> (r: bool)
    ensures
        r == is_whitespace(c),
{
    ('\u{9}' <= c && c <= '\u{d}') || c == ' ' || c == '\u{85}' || c == '\u{a0}' || c == '\u{1680}'
        || ('\u{2000}' <= c && c <= '\u{200a}') || c == '\u{2028}' || c == '\u{2029}' || c
        == '\u{202f}' || c == '\u{205f}' || c == '\u{3000}'
}

proof fn lemma_trim_start_skip(s: Seq<char>, k: int)
    requires
        0 <= k <= s.len(),
        forall|i: int| 0 <= i < k ==> is_whitespace(#[trigger] s[i]),
        k == s.len() || !is_whitespace(s[k]),
    ensures
        trim_start(s) == s.skip(k),
    decreases k,
{
    if k == 0 {
        assert(s.skip(0) =~= s);
    } else {
        assert(is_whitespace(s[0]));
        let t = s.drop_first();
        assert forall|i: int| 0 <= i < k - 1 implies is_whitespace(#[trigger] t[i]) by {
            assert(t[i] == s[i + 1]);
        }
        lemma_trim_start_skip(t, k - 1);
        assert(t.skip(k - 1) =~= s.skip(k));
    }
}

proof fn lemma_trim_end_take(s: Seq<char>, e: int)
    requires
        0 <= e <= s.len(),
        forall|i: int| e <= i < s.len() ==> is_whitespace(#[trigger] s[i]),
        e == 0 || !is_whitespace(s[e - 1]),
    ensures
        trim_end(s) == s.take(e),
    decreases s.len() - e,
{
    if e == s.len() {
        assert(s.take(e) =~= s);
    } else {
        assert(is_whitespace(s.last()));
        let t = s.drop_last();
        assert forall|i: int| e <= i < t.len() implies is_whitespace(#[trigger] t[i]) by {
            assert(t[i] == s[i]);
        }
        lemma_trim_end_take(t, e);
        assert(t.take(e) =~= s.take(e));
    }
}

/// Trimming a sequence is taking the part between its first and last
/// non-space characters.
pub proof fn lemma_trim_range(s: Seq<char>, a: int, b: int)
    requires
        0 <= a <= b <= s.len(),
        forall|i: int| 0 <= i < a ==> is_whitespace(#[trigger] s[i]),
        a == s.len() || !is_whitespace(s[a]) || a == b,
        forall|i: int| b <= i < s.len() ==> is_whitespace(#[trigger] s[i]),
        b == a || !is_whitespace(s[b - 1]),
        a < b || a == s.len() || forall|i: int| a <= i < s.len() ==> is_whitespace(#[trigger] s[i]),
    ensures
        trim(s) == s.subrange(a, b),
{
    if a == b {
        // everything is white space, or the non-space part is empty
        let k = if a < s.len() && !is_whitespace(s[a]) { a } else { s.len() as int };
        if a < s.len() && !is_whitespace(s[a]) {
            // a == b and s[a] is not a space but s[b..] are all spaces: impossible
            assert(is_whitespace(s[b]));
        }
        assert forall|i: int| 0 <= i < s.len() implies is_whitespace(#[trigger] s[i]) by {
            if i >= a {
                assert(b <= i);
            }
        }
        lemma_trim_start_skip(s, s.len() as int);
        assert(s.skip(s.len() as int) =~= Seq::<char>::empty());
        assert(s.subrange(a, b) =~= Seq::<char>::empty());
    } else {
        lemma_trim_start_skip(s, a);
        let t = s.skip(a);
        assert forall|i: int| b - a <= i < t.len() implies is_whitespace(#[trigger] t[i]) by {
            assert(t[i] == s[a + i]);
        }
        assert(t[b - a - 1] == s[b - 1]);
        lemma_trim_end_take(t, b - a);
        assert(t.take(b - a) =~= s.subrange(a, b));
    }
}

/// The characters of `v` from `start` to `end`, with white space trimmed at both ends.
fn trim_range(v: &Vec<char>, start: usize, end: usize) -> (r: Vec<char>)
    requires
        start <= end <= v@.len(),
    ensures
        r@ == trim(v@.subrange(start as int, end as int)),
        r@.len() > 0 ==> !is_whitespace(r@[0]),
{
    let ghost s = v@.subrange(start as int, end as int);
    let mut a = start;
    while a < end && is_whitespace_char(v[a])
        invariant
            start <= a <= end <= v@.len(),
            s == v@.subrange(start as int, end as int),
            forall|i: int| start <= i < a ==> is_whitespace(#[trigger] v@[i]),
        decreases end - a,
    {
        a = a + 1;
    }
    proof {
        assert forall|i: int| 0 <= i < a - start implies is_whitespace(#[trigger] s[i]) by {
            assert(s[i] == v@[start + i]);
        }
        lemma_trim_start_skip(s, a - start);
    }
    let ghost t = s.skip(a - start);
    let mut b = end;
    while b > a && is_whitespace_char(v[b - 1])
        invariant
            start <= a <= b <= end <= v@.len(),
            t == v@.subrange(a as int, end as int),
            forall|i: int| b <= i < end ==> is_whitespace(#[trigger] v@[i]),
        decreases b - a,
    {
        b = b - 1;
    }
    proof {
        assert(t =~= v@.subrange(a as int, end as int));
        assert forall|i: int| b - a <= i < t.len() implies is_whitespace(#[trigger] t[i]) by {
            assert(t[i] == v@[a + i]);
        }
        lemma_trim_end_take(t, b - a);
    }
    let mut r: Vec<char> = Vec::new();
    let mut k = a;
    while k < b
        invariant
            a <= k <= b <= v@.len(),
            r@ == v@.subrange(a as int, k as int),
        decreases b - k,
    {
        r.push(v[k]);
        k = k + 1;
        proof {
            assert(r@ =~= v@.subrange(a as int, k as int));
        }
    }
    proof {
        assert(r@ =~= t.take(b - a));
        if r@.len() > 0 {
            assert(r@[0] == v@[a as int]);
        }
    }
    r
}

/// `s` with white space trimmed at both ends, as `str::trim` trims it.
pub fn trim_text(s: &str) -> (r: String)
    ensures
        r@ == trim(s@),
{
    let v = chars_of(s);
    proof {
        assert(v@.subrange(0, v@.len() as int) =~= v@);
    }
    let t = trim_range(&v, 0, v.len());
    string_of(&t)
}

/// Removes what must not reach a label: control characters, which would break
/// the line protocol, and angle brackets, which a markup-aware widget would
/// parse; trims white space and keeps at most `MAX_LEN` characters.
pub fn plain(value: &str) -> (r: String)
    ensures
        r@ == plain_spec(value@),
{
    let v = chars_of(value);
    let mut cleaned: Vec<char> = Vec::new();
    let mut i: usize = 0;
    while i < v.len()
        invariant
            v@ == value@,
            i <= v@.len(),
            cleaned@ == strip_unsafe(v@.take(i as int)),
        decreases v@.len() - i,
    {
        let c = v[i];
        proof {
            assert(v@.take(i + 1).drop_last() =~= v@.take(i as int));
            assert(v@.take(i + 1).last() == c);
        }
        if !is_control_char(c) && c != '<' && c != '>' {
            cleaned.push(c);
        }
        i = i + 1;
    }
    proof {
        assert(v@.take(v@.len() as int) =~= v@);
        assert(cleaned@.subrange(0, cleaned@.len() as int) =~= cleaned@);
    }
    let trimmed = trim_range(&cleaned, 0, cleaned.len());
    if trimmed.len() > MAX_LEN {
        let capped = trim_range(&trimmed, 0, MAX_LEN);
        proof {
            assert(trimmed@.subrange(0, MAX_LEN as int) =~= trimmed@.take(MAX_LEN as int));
            // the cut part already starts with a non-space
            let t = trimmed@.take(MAX_LEN as int);
            assert(t[0] == trimmed@[0]);
            assert(trim_start(t) == t);
        }
        string_of(&capped)
    } else {
        string_of(&trimmed)
    }
}

/// A character that may stand in either part of an entity id.
pub open spec fn is_id_char(c: char) -> bool {
    ('a' <= c && c <= 'z') || ('0' <= c && c <= '9') || c == '_'
}

/// One part of an entity id: not empty, lower-case ASCII letters, digits and underscores.
pub open spec fn is_id_part(s: Seq<char>) -> bool {
    s.len() > 0 && forall|i: int| 0 <= i < s.len() ==> is_id_char(#[trigger] s[i])
}

/// The index of the first `.` in `s`, or its length where there is none.
pub open spec fn dot_index(s: Seq<char>) -> int
    decreases s.len(),
{
    if s.len() == 0 {
        0
    } else if s[0] == '.' {
        0
    } else {
        1 + dot_index(s.drop_first())
    }
}

/// A well-formed entity id: a domain and an object id, each an id part, joined by one `.`.
pub open spec fn valid_entity_id_spec(s: Seq<char>) -> bool {
    let d = dot_index(s);
    d < s.len() && is_id_part(s.take(d)) && is_id_part(s.skip(d + 1))
}

pub proof fn lemma_dot_index(s: Seq<char>, k: int)
    requires
        0 <= k <= s.len(),
        forall|i: int| 0 <= i < k ==> #[trigger] s[i] != '.',
        k == s.len() || s[k] == '.',
    ensures
        dot_index(s) == k,
    decreases k,
{
    if k > 0 {
        let t = s.drop_first();
        assert forall|i: int| 0 <= i < k - 1 implies #[trigger] t[i] != '.' by {
            assert(t[i] == s[i + 1]);
        }
        lemma_dot_index(t, k - 1);
    }
}

/// The index of the first `.` in `v`, or its length.
pub fn find_dot(v: &Vec<char>) -> (k: usize)
    ensures
        k == dot_index(v@),
        k <= v@.len(),
{
    let mut k: usize = 0;
    while k < v.len() && v[k] != '.'
        invariant
            k <= v@.len(),
            forall|i: int| 0 <= i < k ==> #[trigger] v@[i] != '.',
        decreases v@.len() - k,
    {
        k = k + 1;
    }
    proof {
        lemma_dot_index(v@, k as int);
    }
    k
}

fn is_id_char_exec(c: char) -> (r: bool)
    ensures
        r == is_id_char(c),
{
    ('a' <= c && c <= 'z') || ('0' <= c && c <= '9') || c == '_'
}

/// Whether `v[from..to]` is an id part.
fn is_id_part_range(v: &Vec<char>, from: usize, to: usize) -> (r: bool)
    requires
        from <= to <= v@.len(),
    ensures
        r == is_id_part(v@.subrange(from as int, to as int)),
{
    let ghost s = v@.subrange(from as int, to as int);
    if from == to {
        return false;
    }
    let mut i = from;
    while i < to
        invariant
            from <= i <= to <= v@.len(),
            s == v@.subrange(from as int, to as int),
            forall|j: int| from <= j < i ==> is_id_char(#[trigger] v@[j]),
        decreases to - i,
    {
        if !is_id_char_exec(v[i]) {
            assert(s[i - from] == v@[i as int]);
            return false;
        }
        i = i + 1;
    }
    assert forall|j: int| 0 <= j < s.len() implies is_id_char(#[trigger] s[j]) by {
        assert(s[j] == v@[from + j]);
    }
    true
}

/// Whether `value` is a well-formed entity id: a lower-case domain and object
/// id of letters, digits and underscores, joined by a single dot.
pub fn valid_entity_id(value: &str) -> (r: bool)
    ensures
        r == valid_entity_id_spec(value@),
{
    let v = chars_of(value);
    let d = find_dot(&v);
    if d == v.len() {
        return false;
    }
    proof {
        assert(v@.subrange(0, d as int) =~= v@.take(d as int));
        assert(v@.subrange(d + 1, v@.len() as int) =~= v@.skip(d + 1));
    }
    is_id_part_range(&v, 0, d) && is_id_part_range(&v, d + 1, v.len())
}

} // verus!
