//! Tag ranking: version-aware importance order and fuzzy-match ordering.
use vstd::prelude::*;
use std::cmp::Ordering;
use nucleo_matcher::pattern::{CaseMatching, Normalization, Pattern};
use nucleo_matcher::{Config, Matcher, Utf32Str};
use crate::text::{
    chars_of, contains, same_chars, contains_char, contains_exec, is_ascii_alpha, is_digit, is_digit_char,
    lower, to_lower, trim, trim_str,
};

verus! {

pub open spec fn digit_value(c: char) -> nat {
    ((c as u32) - ('0' as u32)) as nat
}

/// The tag without one leading `v` or `V`.
pub open spec fn strip_v(s: Seq<char>) -> Seq<char> {
    if s.len() > 0 && (s[0] == 'v' || s[0] == 'V') {
        s.drop_first()
    } else {
        s
    }
}

/// Closes the component in progress (`None`: no digit seen since the last dot).
pub open spec fn close_version(parts: Seq<u32>, cur: Option<nat>) -> Option<Seq<u32>> {
    match cur {
        None => if parts.len() == 0 {
            None
        } else {
            Some(parts)
        },
        Some(v) => if v > u32::MAX {
            None
        } else {
            Some(parts.push(v as u32))
        },
    }
}

/// Left-to-right scan: digits accumulate, a dot closes a non-empty component, anything
/// else ends the version.
pub open spec fn scan_version(s: Seq<char>, parts: Seq<u32>, cur: Option<nat>) -> Option<Seq<u32>>
    decreases s.len(),
{
    if s.len() == 0 {
        close_version(parts, cur)
    } else if is_digit(s[0]) {
        let v = match cur {
            None => digit_value(s[0]),
            Some(c) => c * 10 + digit_value(s[0]),
        };
        scan_version(s.drop_first(), parts, Some(v))
    } else if s[0] == '.' {
        match cur {
            None => None,
            Some(c) => if c > u32::MAX {
                None
            } else {
                scan_version(s.drop_first(), parts.push(c as u32), None)
            },
        }
    } else {
        close_version(parts, cur)
    }
}

/// The version that a tag starts with, if any.
pub open spec fn version_of(tag: Seq<char>) -> Option<Seq<u32>> {
    scan_version(strip_v(tag), Seq::empty(), None)
}

pub open spec fn component(v: Seq<u32>, i: int) -> int {
    if 0 <= i < v.len() {
        v[i] as int
    } else {
        0
    }
}

/// Component-wise comparison from index `i` on, missing components read as 0;
/// the higher version comes first.
pub open spec fn version_desc_from(a: Seq<u32>, b: Seq<u32>, i: int) -> Ordering
    decreases a.len() + b.len() - i,
{
    if i >= a.len() && i >= b.len() {
        Ordering::Equal
    } else if component(a, i) > component(b, i) {
        Ordering::Less
    } else if component(a, i) < component(b, i) {
        Ordering::Greater
    } else {
        version_desc_from(a, b, i + 1)
    }
}

/// Order of two parsed versions, higher first; a tag with a version before one without.
pub open spec fn version_order(a: Option<Seq<u32>>, b: Option<Seq<u32>>) -> Ordering {
    match (a, b) {
        (Some(x), Some(y)) => version_desc_from(x, y, 0),
        (Some(_), None) => Ordering::Less,
        (None, Some(_)) => Ordering::Greater,
        (None, None) => Ordering::Equal,
    }
}

pub open spec fn has_digit_letter(s: Seq<char>) -> bool {
    exists|i: int| 0 <= i && i + 1 < s.len() && is_digit(s[i]) && is_ascii_alpha(s[i + 1])
}

/// A tag that looks like a pre-release build.
pub open spec fn is_prerelease_tag(tag: Seq<char>) -> bool {
    let l = lower(tag);
    contains(l, "-rc"@) || contains(l, "rc"@) || contains(l, "alpha"@) || contains(l, "beta"@)
        || contains(l, "preview"@) || contains(l, "dev"@) || has_digit_letter(l)
}

pub open spec fn is_latest(tag: Seq<char>) -> bool {
    lower(tag) == "latest"@
}

pub open spec fn has_dash(tag: Seq<char>) -> bool {
    tag.contains('-')
}

/// `Less` when only `a` holds, `Greater` when only `b` holds.
pub open spec fn first_if(a: bool, b: bool) -> Ordering {
    if a && !b {
        Ordering::Less
    } else if !a && b {
        Ordering::Greater
    } else {
        Ordering::Equal
    }
}

pub open spec fn tie_break(first: Ordering, second: Ordering) -> Ordering {
    if first is Equal {
        second
    } else {
        first
    }
}

/// Lexicographic order of characters by code point, from index `i` on.
pub open spec fn lex_from(a: Seq<char>, b: Seq<char>, i: int) -> Ordering
    decreases a.len() + b.len() - i,
{
    if i >= a.len() && i >= b.len() {
        Ordering::Equal
    } else if i >= a.len() {
        Ordering::Less
    } else if i >= b.len() {
        Ordering::Greater
    } else if a[i] < b[i] {
        Ordering::Less
    } else if a[i] > b[i] {
        Ordering::Greater
    } else {
        lex_from(a, b, i + 1)
    }
}

pub open spec fn lex_order(a: Seq<char>, b: Seq<char>) -> Ordering {
    lex_from(a, b, 0)
}

/// The importance order of tags: `Less` means that `a` comes before `b`.
pub open spec fn importance_order(a: Seq<char>, b: Seq<char>) -> Ordering {
    tie_break(
        first_if(is_latest(a), is_latest(b)),
        tie_break(
            first_if(!is_prerelease_tag(a), !is_prerelease_tag(b)),
            tie_break(
                version_order(version_of(a), version_of(b)),
                tie_break(first_if(!has_dash(a), !has_dash(b)), lex_order(a, b)),
            ),
        ),
    )
}

pub fn parse_version_prefix(tag: &str) -> (r: Option<Vec<u32>>)
    ensures
        r matches Some(v) ==> version_of(tag@) == Some(v@),
        r is None ==> version_of(tag@) is None,
{
    let chars = chars_of(tag);
    let mut i: usize = 0;
    if chars.len() > 0 && (chars[0] == 'v' || chars[0] == 'V') {
        i = 1;
    }
    assert(strip_v(tag@) == chars@.skip(i as int));
    let mut parts: Vec<u32> = Vec::new();
    let mut cur: Option<u32> = None;
    let mut overflow = false;
    let ghost mut gcur: Option<nat> = None;
    while i < chars.len()
        invariant
            i <= chars.len(),
            version_of(tag@) == scan_version(chars@.skip(i as int), parts@, gcur),
            gcur is None <==> (cur is None && !overflow),
            overflow ==> (gcur matches Some(v) && v > u32::MAX),
            cur matches Some(c) ==> (gcur == Some(c as nat) && !overflow),
        decreases chars.len() - i,
    {
        let c = chars[i];
        let ghost rest = chars@.skip(i as int);
        assert(rest[0] == c);
        assert(rest.drop_first() == chars@.skip(i + 1));
        if is_digit_char(c) {
            let d = (c as u32) - ('0' as u32);
            let ghost prev = gcur;
            proof {
                gcur = Some(
                    match gcur {
                        None => digit_value(c),
                        Some(g) => g * 10 + digit_value(c),
                    },
                );
            }
            if !overflow {
                match cur {
                    None => {
                        cur = Some(d);
                    },
                    Some(v) => {
                        let next: u64 = (v as u64) * 10 + (d as u64);
                        if next > u32::MAX as u64 {
                            cur = None;
                            overflow = true;
                        } else {
                            cur = Some(next as u32);
                        }
                    },
                }
            } else {
                proof {
                    let o = prev->0;
                    assert(o * 10 + digit_value(c) >= o) by (nonlinear_arith);
                }
            }
        } else if c == '.' {
            if overflow {
                return None;
            }
            match cur {
                None => {
                    return None;
                },
                Some(v) => {
                    parts.push(v);
                    cur = None;
                    proof {
                        gcur = None;
                    }
                },
            }
        } else {
            if overflow {
                return None;
            }
            match cur {
                None => {
                    if parts.len() == 0 {
                        return None;
                    }
                    return Some(parts);
                },
                Some(v) => {
                    parts.push(v);
                    return Some(parts);
                },
            }
        }
        i = i + 1;
    }
    assert(chars@.skip(i as int).len() == 0);
    if overflow {
        return None;
    }
    match cur {
        None => {
            if parts.len() == 0 {
                return None;
            }
            Some(parts)
        },
        Some(v) => {
            parts.push(v);
            Some(parts)
        },
    }
}

fn compare_parsed_versions(left: &Vec<u32>, right: &Vec<u32>) -> (r: Ordering)
    ensures
        r == version_desc_from(left@, right@, 0),
{
    let max_len = if left.len() > right.len() {
        left.len()
    } else {
        right.len()
    };
    let mut index: usize = 0;
    while index < max_len
        invariant
            index <= max_len,
            max_len == if left.len() > right.len() { left.len() } else { right.len() },
            version_desc_from(left@, right@, 0) == version_desc_from(left@, right@, index as int),
        decreases max_len - index,
    {
        let left_part = if index < left.len() {
            left[index]
        } else {
            0
        };
        let right_part = if index < right.len() {
            right[index]
        } else {
            0
        };
        if left_part > right_part {
            return Ordering::Less;
        }
        if left_part < right_part {
            return Ordering::Greater;
        }
        index = index + 1;
    }
    Ordering::Equal
}

pub fn compare_version_desc(left_tag: &str, right_tag: &str) -> (r: Ordering)
    ensures
        r == version_order(version_of(left_tag@), version_of(right_tag@)),
{
    match (parse_version_prefix(left_tag), parse_version_prefix(right_tag)) {
        (Some(left), Some(right)) => compare_parsed_versions(&left, &right),
        (Some(_), None) => Ordering::Less,
        (None, Some(_)) => Ordering::Greater,
        (None, None) => Ordering::Equal,
    }
}

fn has_digit_letter_exec(s: &Vec<char>) -> (r: bool)
    ensures
        r == has_digit_letter(s@),
{
    let mut i: usize = 0;
    while i < s.len() && i + 1 < s.len()
        invariant
            forall|j: int| 0 <= j < i ==> !(j + 1 < s@.len() && is_digit(s@[j]) && is_ascii_alpha(s@[j + 1])),
        decreases s.len() - i,
    {
        let a = s[i + 1];
        if is_digit_char(s[i]) && (('a' <= a && a <= 'z') || ('A' <= a && a <= 'Z')) {
            return true;
        }
        i = i + 1;
    }
    false
}

pub fn is_prerelease(tag: &str) -> (r: bool)
    ensures
        r == is_prerelease_tag(tag@),
{
    let lower_chars = to_lower(&chars_of(tag));
    let has_pair = has_digit_letter_exec(&lower_chars);
    contains_exec(&lower_chars, &chars_of("-rc")) || contains_exec(&lower_chars, &chars_of("rc"))
        || contains_exec(&lower_chars, &chars_of("alpha")) || contains_exec(
        &lower_chars,
        &chars_of("beta"),
    ) || contains_exec(&lower_chars, &chars_of("preview")) || contains_exec(
        &lower_chars,
        &chars_of("dev"),
    ) || has_pair
}


fn tag_is_latest(tag: &str) -> (r: bool)
    ensures
        r == is_latest(tag@),
{
    same_chars(&to_lower(&chars_of(tag)), &chars_of("latest"))
}

fn lex_compare(a: &Vec<char>, b: &Vec<char>) -> (r: Ordering)
    ensures
        r == lex_order(a@, b@),
{
    let mut i: usize = 0;
    loop
        invariant
            i <= a.len() || i <= b.len(),
            lex_order(a@, b@) == lex_from(a@, b@, i as int),
        decreases a.len() + b.len() - i,
    {
        if i >= a.len() && i >= b.len() {
            return Ordering::Equal;
        } else if i >= a.len() {
            return Ordering::Less;
        } else if i >= b.len() {
            return Ordering::Greater;
        } else if a[i] < b[i] {
            return Ordering::Less;
        } else if a[i] > b[i] {
            return Ordering::Greater;
        }
        i = i + 1;
    }
}

fn first_if_exec(a: bool, b: bool) -> (r: Ordering)
    ensures
        r == first_if(a, b),
{
    if a && !b {
        Ordering::Less
    } else if !a && b {
        Ordering::Greater
    } else {
        Ordering::Equal
    }
}

/// The importance order of two tags (`Less`: `left` is the more important one).
pub fn compare_tag_importance_desc(left: &str, right: &str) -> (r: Ordering)
    ensures
        r == importance_order(left@, right@),
{
    let latest = first_if_exec(tag_is_latest(left), tag_is_latest(right));
    if !matches!(latest, Ordering::Equal) {
        return latest;
    }
    let release = first_if_exec(!is_prerelease(left), !is_prerelease(right));
    if !matches!(release, Ordering::Equal) {
        return release;
    }
    let version_cmp = compare_version_desc(left, right);
    if !matches!(version_cmp, Ordering::Equal) {
        return version_cmp;
    }
    let left_chars = chars_of(left);
    let right_chars = chars_of(right);
    let plain = first_if_exec(!contains_char(&left_chars, '-'), !contains_char(&right_chars, '-'));
    if !matches!(plain, Ordering::Equal) {
        return plain;
    }
    lex_compare(&left_chars, &right_chars)
}

pub open spec fn reversed(o: Ordering) -> Ordering {
    match o {
        Ordering::Less => Ordering::Greater,
        Ordering::Greater => Ordering::Less,
        Ordering::Equal => Ordering::Equal,
    }
}

/// The facts that make three pairwise comparisons of a, b, c consistent with a total preorder.
pub open spec fn consistent(ab: Ordering, bc: Ordering, ac: Ordering) -> bool {
    &&& (ab is Equal && bc is Equal) ==> ac is Equal
    &&& (ab is Less && !(bc is Greater)) ==> ac is Less
    &&& (!(ab is Greater) && bc is Less) ==> ac is Less
    &&& (ab is Greater && !(bc is Less)) ==> ac is Greater
    &&& (!(ab is Less) && bc is Greater) ==> ac is Greater
}

proof fn lemma_lex_antisym(a: Seq<char>, b: Seq<char>, i: int)
    requires
        0 <= i,
    ensures
        lex_from(a, b, i) == reversed(lex_from(b, a, i)),
    decreases a.len() + b.len() - i,
{
    if i < a.len() && i < b.len() && a[i] == b[i] {
        lemma_lex_antisym(a, b, i + 1);
    }
}

proof fn lemma_lex_consistent(a: Seq<char>, b: Seq<char>, c: Seq<char>, i: int)
    requires
        0 <= i,
    ensures
        consistent(lex_from(a, b, i), lex_from(b, c, i), lex_from(a, c, i)),
    decreases a.len() + b.len() + c.len() - i,
{
    if i < a.len() && i < b.len() && i < c.len() {
        lemma_lex_consistent(a, b, c, i + 1);
    }
}

proof fn lemma_lex_equal(a: Seq<char>, b: Seq<char>, i: int)
    requires
        0 <= i <= a.len(),
        i <= b.len(),
        lex_from(a, b, i) is Equal,
    ensures
        a.len() == b.len(),
        forall|j: int| i <= j < a.len() ==> a[j] == b[j],
    decreases a.len() + b.len() - i,
{
    if i < a.len() && i < b.len() {
        lemma_lex_equal(a, b, i + 1);
    }
}

proof fn lemma_version_antisym(a: Seq<u32>, b: Seq<u32>, i: int)
    requires
        0 <= i,
    ensures
        version_desc_from(a, b, i) == reversed(version_desc_from(b, a, i)),
    decreases a.len() + b.len() - i,
{
    if !(i >= a.len() && i >= b.len()) && component(a, i) == component(b, i) {
        lemma_version_antisym(a, b, i + 1);
    }
}

proof fn lemma_version_consistent(a: Seq<u32>, b: Seq<u32>, c: Seq<u32>, i: int)
    requires
        0 <= i,
    ensures
        consistent(version_desc_from(a, b, i), version_desc_from(b, c, i), version_desc_from(a, c, i)),
    decreases a.len() + b.len() + c.len() - i,
{
    if i >= a.len() && i >= b.len() && i >= c.len() {
    } else {
        lemma_version_consistent(a, b, c, i + 1);
        if i >= a.len() && i >= b.len() {
            lemma_version_ended(a, b, i + 1);
        }
        if i >= b.len() && i >= c.len() {
            lemma_version_ended(b, c, i + 1);
        }
        if i >= a.len() && i >= c.len() {
            lemma_version_ended(a, c, i + 1);
        }
    }
}

proof fn lemma_version_ended(a: Seq<u32>, b: Seq<u32>, i: int)
    requires
        i >= a.len(),
        i >= b.len(),
    ensures
        version_desc_from(a, b, i) is Equal,
{
}

proof fn lemma_version_order_props(a: Option<Seq<u32>>, b: Option<Seq<u32>>, c: Option<Seq<u32>>)
    ensures
        version_order(a, b) == reversed(version_order(b, a)),
        consistent(version_order(a, b), version_order(b, c), version_order(a, c)),
{
    if a is Some && b is Some {
        lemma_version_antisym(a->0, b->0, 0);
    }
    if a is Some && b is Some && c is Some {
        lemma_version_consistent(a->0, b->0, c->0, 0);
    }
}

/// The importance order is antisymmetric, transitive, and tells distinct tags apart.
pub proof fn lemma_importance_total(a: Seq<char>, b: Seq<char>, c: Seq<char>)
    ensures
        importance_order(a, b) == reversed(importance_order(b, a)),
        consistent(importance_order(a, b), importance_order(b, c), importance_order(a, c)),
        importance_order(a, b) is Equal ==> a == b,
{
    lemma_lex_antisym(a, b, 0);
    lemma_lex_consistent(a, b, c, 0);
    lemma_version_order_props(version_of(a), version_of(b), version_of(c));
    if importance_order(a, b) is Equal {
        lemma_lex_equal(a, b, 0);
        assert(a == b);
    }
}

// ---------------------------------------------------------------------------
// Insertion sort, stated over any strict order.

pub open spec fn strict_order<A>(before: spec_fn(A, A) -> bool) -> bool {
    &&& forall|a: A, b: A| #[trigger] before(a, b) ==> !before(b, a)
    &&& forall|a: A, b: A, c: A| #[trigger] before(a, b) && #[trigger] before(b, c) ==> before(a, c)
}

pub open spec fn sorted_by<A>(s: Seq<A>, before: spec_fn(A, A) -> bool) -> bool {
    forall|i: int, j: int| 0 <= i < j < s.len() ==> !before(#[trigger] s[j], #[trigger] s[i])
}

/// Where `x` goes in `s`: before the first element that it precedes.
pub open spec fn insert_pos<A>(s: Seq<A>, x: A, before: spec_fn(A, A) -> bool) -> int
    decreases s.len(),
{
    if s.len() == 0 || before(x, s[0]) {
        0
    } else {
        1 + insert_pos(s.drop_first(), x, before)
    }
}

pub open spec fn insert_sorted<A>(s: Seq<A>, x: A, before: spec_fn(A, A) -> bool) -> Seq<A> {
    s.insert(insert_pos(s, x, before), x)
}

/// Stable insertion sort: the elements of `s`, taken in order, each inserted after
/// every element that it does not precede.
pub open spec fn sort_by<A>(s: Seq<A>, before: spec_fn(A, A) -> bool) -> Seq<A>
    decreases s.len(),
{
    if s.len() == 0 {
        s
    } else {
        insert_sorted(sort_by(s.drop_last(), before), s.last(), before)
    }
}

pub open spec fn take_at_most<A>(s: Seq<A>, n: nat) -> Seq<A> {
    if n < s.len() {
        s.take(n as int)
    } else {
        s
    }
}

proof fn lemma_insert_pos<A>(s: Seq<A>, x: A, before: spec_fn(A, A) -> bool)
    ensures
        0 <= insert_pos(s, x, before) <= s.len(),
        forall|j: int| 0 <= j < insert_pos(s, x, before) ==> !before(x, #[trigger] s[j]),
        insert_pos(s, x, before) < s.len() ==> before(x, s[insert_pos(s, x, before)]),
    decreases s.len(),
{
    if s.len() > 0 && !before(x, s[0]) {
        lemma_insert_pos(s.drop_first(), x, before);
        assert forall|j: int| 0 <= j < insert_pos(s, x, before) implies !before(x, #[trigger] s[j]) by {
            if j > 0 {
                assert(s[j] == s.drop_first()[j - 1]);
            }
        }
    }
}

proof fn lemma_insert_pos_unique<A>(s: Seq<A>, x: A, before: spec_fn(A, A) -> bool, p: int)
    requires
        0 <= p <= s.len(),
        forall|j: int| 0 <= j < p ==> !before(x, #[trigger] s[j]),
        p < s.len() ==> before(x, s[p]),
    ensures
        insert_pos(s, x, before) == p,
    decreases s.len(),
{
    if s.len() > 0 && p > 0 {
        assert(!before(x, s[0]));
        assert forall|j: int| 0 <= j < p - 1 implies !before(x, #[trigger] s.drop_first()[j]) by {
            assert(s.drop_first()[j] == s[j + 1]);
        }
        lemma_insert_pos_unique(s.drop_first(), x, before, p - 1);
    }
}

proof fn lemma_insert_keeps_sorted<A>(s: Seq<A>, x: A, before: spec_fn(A, A) -> bool)
    requires
        strict_order(before),
        sorted_by(s, before),
    ensures
        sorted_by(insert_sorted(s, x, before), before),
{
    lemma_insert_pos(s, x, before);
    let p = insert_pos(s, x, before);
    let t = insert_sorted(s, x, before);
    assert forall|i: int, j: int| 0 <= i < j < t.len() implies !before(#[trigger] t[j], #[trigger] t[i]) by {
        if j < p {
            assert(t[i] == s[i] && t[j] == s[j]);
        } else if j == p {
            assert(t[i] == s[i] && t[j] == x);
        } else if i < p {
            assert(t[i] == s[i] && t[j] == s[j - 1]);
        } else if i == p {
            assert(t[i] == x && t[j] == s[j - 1]);
            if before(s[j - 1], x) {
                if j - 1 > p {
                    assert(!before(s[j - 1], s[p]));
                }
            }
        } else {
            assert(t[i] == s[i - 1] && t[j] == s[j - 1]);
        }
    }
}

/// The result of `sort_by` is sorted and holds the same elements as its input.
pub proof fn lemma_sort_by<A>(s: Seq<A>, before: spec_fn(A, A) -> bool)
    requires
        strict_order(before),
    ensures
        sorted_by(sort_by(s, before), before),
        sort_by(s, before).to_multiset() == s.to_multiset(),
        sort_by(s, before).len() == s.len(),
    decreases s.len(),
{
    broadcast use vstd::seq_lib::to_multiset_insert, vstd::seq_lib::to_multiset_build, vstd::seq_lib::to_multiset_len;

    if s.len() > 0 {
        let t = sort_by(s.drop_last(), before);
        lemma_sort_by(s.drop_last(), before);
        lemma_insert_keeps_sorted(t, s.last(), before);
        lemma_insert_pos(t, s.last(), before);
        assert(s.drop_last().push(s.last()) == s);
    }
}

proof fn lemma_insert_last<A>(s: Seq<A>, x: A, before: spec_fn(A, A) -> bool)
    requires
        forall|j: int| 0 <= j < s.len() ==> !before(x, #[trigger] s[j]),
    ensures
        insert_sorted(s, x, before) == s.push(x),
{
    lemma_insert_pos_unique(s, x, before, s.len() as int);
    assert(s.insert(s.len() as int, x) == s.push(x));
}

/// Sorting a sorted sequence leaves it as it is.
pub proof fn lemma_sort_sorted_is_identity<A>(s: Seq<A>, before: spec_fn(A, A) -> bool)
    requires
        sorted_by(s, before),
    ensures
        sort_by(s, before) == s,
    decreases s.len(),
{
    if s.len() > 0 {
        let d = s.drop_last();
        assert(sorted_by(d, before)) by {
            assert forall|i: int, j: int| 0 <= i < j < d.len() implies !before(#[trigger] d[j], #[trigger] d[i]) by {
                assert(d[i] == s[i] && d[j] == s[j]);
            }
        }
        lemma_sort_sorted_is_identity(d, before);
        assert forall|j: int| 0 <= j < d.len() implies !before(s.last(), #[trigger] d[j]) by {
            assert(d[j] == s[j]);
        }
        lemma_insert_last(d, s.last(), before);
        assert(d.push(s.last()) == s);
    }
}

/// Sorting twice gives what sorting once gives.
pub proof fn lemma_sort_idempotent<A>(s: Seq<A>, before: spec_fn(A, A) -> bool)
    requires
        strict_order(before),
    ensures
        sort_by(sort_by(s, before), before) == sort_by(s, before),
{
    lemma_sort_by(s, before);
    lemma_sort_sorted_is_identity(sort_by(s, before), before);
}

pub open spec fn importance_before() -> spec_fn(Seq<char>, Seq<char>) -> bool {
    |a: Seq<char>, b: Seq<char>| importance_order(a, b) is Less
}

pub proof fn lemma_importance_strict()
    ensures
        strict_order(importance_before()),
{
    let before = importance_before();
    assert forall|a: Seq<char>, b: Seq<char>| #[trigger] before(a, b) implies !before(b, a) by {
        lemma_importance_total(a, b, a);
    }
    assert forall|a: Seq<char>, b: Seq<char>, c: Seq<char>| #[trigger] before(a, b) && #[trigger] before(b, c) implies before(a, c) by {
        lemma_importance_total(a, b, c);
    }
}

// ---------------------------------------------------------------------------
// Ranking a tag list.

pub open spec fn views(s: Seq<String>) -> Seq<Seq<char>> {
    s.map_values(|t: String| t@)
}

/// The score that the fuzzy matcher gives `tag` for `query`; `None` when it does not match.
pub uninterp spec fn fuzzy_score_of(query: Seq<char>, tag: Seq<char>) -> Option<u32>;

/// Relies on nucleo_matcher's `Pattern::parse` (smart case, smart normalization) and
/// `Pattern::score` under `Config::DEFAULT`: the score of each tag depends on the query and
/// on that tag alone.
#[verifier::external_body]
fn fuzzy_scores(query: &str, tags: &[String]) -> (r: Vec<Option<u32>>)
    ensures
        r.len() == tags.len(),
        forall|i: int| 0 <= i < tags.len() ==> r[i] == fuzzy_score_of(query@, tags@[i]@),
{
    let mut matcher = Matcher::new(Config::DEFAULT);
    let pattern = Pattern::parse(query, CaseMatching::Smart, Normalization::Smart);
    let mut buf = Vec::new();
    tags.iter().map(|tag| pattern.score(Utf32Str::new(tag, &mut buf), &mut matcher)).collect()
}

pub open spec fn score_or_zero(query: Seq<char>, tag: Seq<char>) -> int {
    match fuzzy_score_of(query, tag) {
        Some(v) => v as int,
        None => 0,
    }
}

pub open spec fn fuzzy_matches(query: Seq<char>) -> spec_fn(Seq<char>) -> bool {
    |t: Seq<char>| fuzzy_score_of(query, t) is Some
}

/// Higher match score first; equal scores in importance order.
pub open spec fn fuzzy_before(query: Seq<char>) -> spec_fn(Seq<char>, Seq<char>) -> bool {
    |a: Seq<char>, b: Seq<char>|
        score_or_zero(query, a) > score_or_zero(query, b) || (score_or_zero(query, a)
            == score_or_zero(query, b) && importance_order(a, b) is Less)
}

/// The ranked candidate list: importance order for a blank query, otherwise the matching
/// tags by score, at most `limit` of them.
pub open spec fn ranked_tags(tags: Seq<Seq<char>>, query: Seq<char>, limit: nat) -> Seq<Seq<char>> {
    if trim(query).len() == 0 {
        take_at_most(sort_by(tags, importance_before()), limit)
    } else {
        take_at_most(sort_by(tags.filter(fuzzy_matches(query)), fuzzy_before(query)), limit)
    }
}

pub proof fn lemma_fuzzy_strict(query: Seq<char>)
    ensures
        strict_order(fuzzy_before(query)),
{
    let before = fuzzy_before(query);
    assert forall|a: Seq<char>, b: Seq<char>| #[trigger] before(a, b) implies !before(b, a) by {
        lemma_importance_total(a, b, a);
    }
    assert forall|a: Seq<char>, b: Seq<char>, c: Seq<char>| #[trigger] before(a, b) && #[trigger] before(b, c) implies before(a, c) by {
        lemma_importance_total(a, b, c);
    }
}

proof fn lemma_views_insert(s: Seq<String>, p: int, x: String)
    requires
        0 <= p <= s.len(),
    ensures
        views(s.insert(p, x)) == views(s).insert(p, x@),
{
    assert(views(s.insert(p, x)) =~= views(s).insert(p, x@));
}

proof fn lemma_views_take_push(s: Seq<String>, i: int)
    requires
        0 <= i < s.len(),
    ensures
        views(s).take(i + 1).drop_last() == views(s).take(i),
        views(s).take(i + 1).last() == s[i]@,
        views(s).take(i + 1).len() > 0,
{
    assert(views(s).take(i + 1).drop_last() =~= views(s).take(i));
}

fn sort_by_importance(tags: &[String]) -> (r: Vec<String>)
    ensures
        views(r@) == sort_by(views(tags@), importance_before()),
{
    let ghost before = importance_before();
    let mut r: Vec<String> = Vec::new();
    let mut i: usize = 0;
    while i < tags.len()
        invariant
            i <= tags.len(),
            before == importance_before(),
            views(r@) == sort_by(views(tags@).take(i as int), before),
        decreases tags.len() - i,
    {
        let x = tags[i].clone();
        let mut p: usize = 0;
        let mut found = false;
        while !found && p < r.len()
            invariant
                p <= r.len(),
                before == importance_before(),
                forall|j: int| 0 <= j < p ==> !before(x@, #[trigger] views(r@)[j]),
                found ==> (p < r.len() && before(x@, views(r@)[p as int])),
            decreases r.len() - p + (if found { 0int } else { 1int }),
        {
            if matches!(compare_tag_importance_desc(x.as_str(), r[p].as_str()), Ordering::Less) {
                found = true;
            } else {
                p = p + 1;
            }
        }
        proof {
            lemma_insert_pos_unique(views(r@), x@, before, p as int);
            lemma_views_insert(r@, p as int, x);
            lemma_views_take_push(tags@, i as int);
        }
        r.insert(p, x);
        i = i + 1;
    }
    assert(views(tags@).take(tags.len() as int) == views(tags@));
    r
}

proof fn lemma_filter_step(s: Seq<Seq<char>>, i: int, pred: spec_fn(Seq<char>) -> bool)
    requires
        0 <= i < s.len(),
    ensures
        s.take(i + 1).filter(pred) == if pred(s[i]) {
            s.take(i).filter(pred).push(s[i])
        } else {
            s.take(i).filter(pred)
        },
{
    reveal(Seq::filter);
    assert(s.take(i + 1).drop_last() =~= s.take(i));
}

fn sort_matches(tags: &[String], query: &str) -> (r: Vec<String>)
    ensures
        views(r@) == sort_by(views(tags@).filter(fuzzy_matches(query@)), fuzzy_before(query@)),
{
    let ghost before = fuzzy_before(query@);
    let ghost pred = fuzzy_matches(query@);
    let scores = fuzzy_scores(query, tags);
    let mut r: Vec<String> = Vec::new();
    let mut r_scores: Vec<u32> = Vec::new();
    let mut i: usize = 0;
    proof {
        reveal(Seq::filter);
        assert(views(tags@).take(0).filter(pred) =~= Seq::<Seq<char>>::empty());
    }
    while i < tags.len()
        invariant
            i <= tags.len(),
            scores.len() == tags.len(),
            forall|k: int| 0 <= k < tags.len() ==> scores[k] == fuzzy_score_of(query@, tags@[k]@),
            before == fuzzy_before(query@),
            pred == fuzzy_matches(query@),
            views(r@) == sort_by(views(tags@).take(i as int).filter(pred), before),
            r_scores.len() == r.len(),
            forall|k: int| 0 <= k < r.len() ==> fuzzy_score_of(query@, #[trigger] r@[k]@) == Some(r_scores[k]),
        decreases tags.len() - i,
    {
        proof {
            lemma_filter_step(views(tags@), i as int, pred);
            lemma_views_take_push(tags@, i as int);
            assert(views(tags@)[i as int] == tags@[i as int]@);
        }
        match scores[i] {
            None => {
                assert(!pred(views(tags@)[i as int]));
            },
            Some(score) => {
                let x = tags[i].clone();
                let mut p: usize = 0;
                let mut found = false;
                while !found && p < r.len()
                    invariant
                        p <= r.len(),
                        r_scores.len() == r.len(),
                        before == fuzzy_before(query@),
                        fuzzy_score_of(query@, x@) == Some(score),
                        forall|k: int| 0 <= k < r.len() ==> fuzzy_score_of(query@, #[trigger] r@[k]@) == Some(r_scores[k]),
                        forall|j: int| 0 <= j < p ==> !before(x@, #[trigger] views(r@)[j]),
                        found ==> (p < r.len() && before(x@, views(r@)[p as int])),
                    decreases r.len() - p + (if found { 0int } else { 1int }),
                {
                    assert(views(r@)[p as int] == r@[p as int]@);
                    let other = r_scores[p];
                    if score > other || (score == other && matches!(
                        compare_tag_importance_desc(x.as_str(), r[p].as_str()),
                        Ordering::Less
                    )) {
                        found = true;
                    } else {
                        p = p + 1;
                    }
                }
                proof {
                    lemma_insert_pos_unique(views(r@), x@, before, p as int);
                    lemma_views_insert(r@, p as int, x);
                    let f = views(tags@).take(i as int).filter(pred);
                    assert(f.push(x@).drop_last() == f);
                    assert(pred(x@));
                }
                let ghost prev = r@;
                let ghost prev_scores = r_scores@;
                r.insert(p, x);
                r_scores.insert(p, score);
                assert forall|k: int| 0 <= k < r.len() implies fuzzy_score_of(query@, #[trigger] r@[k]@) == Some(r_scores[k]) by {
                    if k > p {
                        assert(r@[k] == prev[k - 1]);
                        assert(r_scores@[k] == prev_scores[k - 1]);
                    } else if k < p {
                        assert(r@[k] == prev[k]);
                    }
                }
            },
        }
        i = i + 1;
    }
    assert(views(tags@).take(tags.len() as int) == views(tags@));
    r
}

fn take_prefix(v: Vec<String>, limit: usize) -> (r: Vec<String>)
    ensures
        views(r@) == take_at_most(views(v@), limit as nat),
{
    let mut r: Vec<String> = Vec::new();
    let mut i: usize = 0;
    while i < limit && i < v.len()
        invariant
            i <= v.len(),
            i <= limit,
            r@ == v@.take(i as int),
        decreases v.len() - i,
    {
        r.push(v[i].clone());
        i = i + 1;
        assert(v@.take(i as int) == v@.take(i - 1).push(v@[i - 1]));
    }
    assert(views(r@) =~= take_at_most(views(v@), limit as nat));
    r
}

fn rank_tags(tags: &[String], query: &str, limit: usize) -> (r: Vec<String>)
    ensures
        views(r@) == ranked_tags(views(tags@), query@, limit as nat),
{
    let trimmed = trim_str(query);
    if trimmed.as_str().is_empty() {
        let ordered = sort_by_importance(tags);
        return take_prefix(ordered, limit);
    }
    let matched = sort_matches(tags, query);
    take_prefix(matched, limit)
}

/// Candidate tags for `query`, at most `max(limit, 1)` of them (see `ranked_tags`).
pub fn filter_tags(tags: &[String], query: &str, limit: usize) -> (r: Vec<String>)
    ensures
        views(r@) == ranked_tags(views(tags@), query@, if limit == 0 { 1 } else { limit as nat }),
        r.len() <= if limit == 0 { 1 } else { limit },
{
    let effective_limit = if limit == 0 {
        1
    } else {
        limit
    };
    let r = rank_tags(tags, query, effective_limit);
    assert(r@.len() == views(r@).len());
    r
}

/// With a blank query, ranking the full ordered list a second time reproduces it.
pub proof fn lemma_blank_query_idempotent(tags: Seq<Seq<char>>, query: Seq<char>)
    requires
        trim(query).len() == 0,
    ensures
        ranked_tags(tags, query, tags.len()).len() == tags.len(),
        ranked_tags(ranked_tags(tags, query, tags.len()), query, tags.len()) == ranked_tags(
            tags,
            query,
            tags.len(),
        ),
{
    lemma_importance_strict();
    lemma_sort_by(tags, importance_before());
    lemma_sort_idempotent(tags, importance_before());
}

/// With a blank query, a tag that reads `latest` in any case comes first whenever one is
/// present, whatever the other tags hold.
pub proof fn lemma_latest_first(tags: Seq<Seq<char>>, query: Seq<char>, limit: nat, i: int)
    requires
        trim(query).len() == 0,
        limit >= 1,
        0 <= i < tags.len(),
        is_latest(tags[i]),
    ensures
        ranked_tags(tags, query, limit).len() > 0,
        is_latest(ranked_tags(tags, query, limit)[0]),
{
    broadcast use vstd::seq_lib::to_multiset_contains;

    let before = importance_before();
    lemma_importance_strict();
    lemma_sort_by(tags, before);
    let s = sort_by(tags, before);
    assert(tags.contains(tags[i]));
    assert(tags.to_multiset().count(tags[i]) > 0);
    assert(s.to_multiset().count(tags[i]) > 0);
    assert(s.contains(tags[i]));
    let k = choose|k: int| 0 <= k < s.len() && s[k] == tags[i];
    if k > 0 && !is_latest(s[0]) {
        assert(!before(s[k], s[0]));
    }
}

/// With a blank query the result holds at most `limit` tags, in importance order, and with
/// a limit that covers the list it holds exactly the given tags.
pub proof fn lemma_blank_query_sorted(tags: Seq<Seq<char>>, query: Seq<char>, limit: nat)
    requires
        trim(query).len() == 0,
    ensures
        ranked_tags(tags, query, limit).len() <= limit,
        sorted_by(ranked_tags(tags, query, limit), importance_before()),
        limit >= tags.len() ==> ranked_tags(tags, query, limit).to_multiset() == tags.to_multiset(),
{
    let before = importance_before();
    lemma_importance_strict();
    lemma_sort_by(tags, before);
    let s = sort_by(tags, before);
    let r = ranked_tags(tags, query, limit);
    assert forall|i: int, j: int| 0 <= i < j < r.len() implies !before(#[trigger] r[j], #[trigger] r[i]) by {
        assert(r[i] == s[i] && r[j] == s[j]);
    }
}

} // verus!
