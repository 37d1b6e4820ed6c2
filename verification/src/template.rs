//! Substitution templates and the capture groups they refer to.
//!
//! A template refers to a group as `$name` or `${name}`, where a name made of
//! decimal digits is the group's position; `$$` stands for a dollar sign. A
//! resolver is only built from a template whose references all exist in its
//! pattern, which is what this module decides.

use vstd::prelude::*;
use vstd::string::*;

verus! {

/// A character that may stand in a reference written without braces.
pub open spec fn is_name_char(c: char) -> bool {
    is_digit(c) || (0x61 <= c as u32 && c as u32 <= 0x7a) || (0x41 <= c as u32 && c as u32 <= 0x5a)
        || c == '_'
}

/// A decimal digit.
pub open spec fn is_digit(c: char) -> bool {
    0x30 <= c as u32 && c as u32 <= 0x39
}

/// The value of a decimal digit, and 0 for any other character.
pub open spec fn digit_of(c: char) -> nat {
    if is_digit(c) {
        (c as u32 - 0x30) as nat
    } else {
        0
    }
}

/// How many name characters stand in `t` from position `from` on, without a gap.
pub open spec fn name_len(t: Seq<char>, from: int) -> nat
    decreases t.len() - from,
{
    if from < 0 || from >= t.len() || !is_name_char(t[from]) {
        0
    } else {
        1 + name_len(t, from + 1)
    }
}

/// How many characters stand in `t` from position `from` on before the next
/// closing brace, or before the end where there is none.
pub open spec fn brace_gap(t: Seq<char>, from: int) -> nat
    decreases t.len() - from,
{
    if from < 0 || from >= t.len() || t[from] == '}' {
        0
    } else {
        1 + brace_gap(t, from + 1)
    }
}

/// Whether every character of `s` is a decimal digit.
pub open spec fn all_digits(s: Seq<char>) -> bool {
    forall|i: int| 0 <= i < s.len() ==> is_digit(#[trigger] s[i])
}

/// The number that the decimal digits of `s` write.
pub open spec fn digits_value(s: Seq<char>) -> nat
    decreases s.len(),
{
    if s.len() == 0 {
        0
    } else {
        digits_value(s.drop_last()) * 10 + digit_of(s.last())
    }
}

/// Whether a reference by `name` finds a group among `groups`: by position,
/// where the name is a number below the count of groups, or by the name that
/// a group carries.
pub open spec fn resolves(name: Seq<char>, groups: Seq<Option<Seq<char>>>) -> bool {
    ||| (name.len() > 0 && all_digits(name) && digits_value(name) < groups.len())
    ||| groups.contains(Some(name))
}

/// Whether every reference that `t` holds from position `from` on finds a
/// group among `groups`.
pub open spec fn references_resolve(
    t: Seq<char>,
    from: int,
    groups: Seq<Option<Seq<char>>>,
) -> bool
    decreases t.len() - from,
    via references_resolve_decreases
{
    if from < 0 || from >= t.len() {
        true
    } else if t[from] != '$' {
        references_resolve(t, from + 1, groups)
    } else if from + 1 >= t.len() {
        true
    } else if t[from + 1] == '$' {
        references_resolve(t, from + 2, groups)
    } else if t[from + 1] == '{' {
        let close = from + 2 + brace_gap(t, from + 2);
        if close >= t.len() {
            references_resolve(t, from + 1, groups)
        } else {
            resolves(t.subrange(from + 2, close), groups) && references_resolve(
                t,
                close + 1,
                groups,
            )
        }
    } else {
        let end = from + 1 + name_len(t, from + 1);
        if end == from + 1 {
            references_resolve(t, from + 1, groups)
        } else {
            resolves(t.subrange(from + 1, end), groups) && references_resolve(t, end, groups)
        }
    }
}

/// A run of name characters ends within the template.
pub proof fn lemma_name_len_bound(t: Seq<char>, from: int)
    requires
        0 <= from <= t.len(),
    ensures
        from + name_len(t, from) <= t.len(),
    decreases t.len() - from,
{
    if from < t.len() && is_name_char(t[from]) {
        lemma_name_len_bound(t, from + 1);
    }
}

#[via_fn]
proof fn references_resolve_decreases(t: Seq<char>, from: int, groups: Seq<Option<Seq<char>>>) {
    if 0 <= from && from + 1 < t.len() {
        lemma_name_len_bound(t, from + 1);
    }
}

/// A prefix of a digit string writes a number that is no larger.
pub proof fn lemma_digits_prefix(s: Seq<char>, k: int)
    requires
        0 <= k <= s.len(),
    ensures
        digits_value(s.subrange(0, k)) <= digits_value(s),
    decreases s.len(),
{
    if k == s.len() {
        assert(s.subrange(0, k) =~= s);
    } else {
        lemma_digits_prefix(s.drop_last(), k);
        assert(s.drop_last().subrange(0, k) =~= s.subrange(0, k));
    }
}

/// The characters of a string, one by one.
pub fn chars_of(s: &str) -> (chars: Vec<char>)
    ensures
        chars@ == s@,
{
    let n: usize = s.unicode_len();
    let mut chars: Vec<char> = Vec::new();
    let mut i: usize = 0;
    while i < n
        invariant
            n == s@.len(),
            i <= n,
            chars@ == s@.subrange(0, i as int),
        decreases n - i,
    {
        chars.push(s.get_char(i));
        i += 1;
        assert(chars@ =~= s@.subrange(0, i as int));
    }
    assert(chars@ =~= s@);
    chars
}

fn char_is_digit(c: char) -> (r: bool)
    ensures
        r == is_digit(c),
{
    let code: u32 = c as u32;
    0x30 <= code && code <= 0x39
}

fn char_is_name(c: char) -> (r: bool)
    ensures
        r == is_name_char(c),
{
    let code: u32 = c as u32;
    (0x30 <= code && code <= 0x39) || (0x61 <= code && code <= 0x7a) || (0x41 <= code && code
        <= 0x5a) || c == '_'
}

fn scan_name(t: &Vec<char>, from: usize) -> (end: usize)
    requires
        from <= t.len(),
    ensures
        end == from + name_len(t@, from as int),
        end <= t.len(),
{
    let mut end: usize = from;
    while end < t.len() && char_is_name(t[end])
        invariant
            from <= end <= t.len(),
            from + name_len(t@, from as int) == end + name_len(t@, end as int),
        decreases t.len() - end,
    {
        end += 1;
    }
    end
}

fn scan_brace(t: &Vec<char>, from: usize) -> (close: usize)
    requires
        from <= t.len(),
    ensures
        close == from + brace_gap(t@, from as int),
        close <= t.len(),
{
    let mut close: usize = from;
    while close < t.len() && t[close] != '}'
        invariant
            from <= close <= t.len(),
            from + brace_gap(t@, from as int) == close + brace_gap(t@, close as int),
        decreases t.len() - close,
    {
        close += 1;
    }
    close
}

fn range_all_digits(t: &Vec<char>, a: usize, b: usize) -> (r: bool)
    requires
        a <= b <= t.len(),
    ensures
        r == all_digits(t@.subrange(a as int, b as int)),
{
    let mut i: usize = a;
    while i < b
        invariant
            a <= i <= b <= t.len(),
            forall|k: int| a <= k < i ==> is_digit(#[trigger] t@[k]),
        decreases b - i,
    {
        if !char_is_digit(t[i]) {
            assert(!is_digit(t@.subrange(a as int, b as int)[i - a]));
            return false;
        }
        i += 1;
    }
    assert forall|k: int| 0 <= k < b - a implies is_digit(
        #[trigger] t@.subrange(a as int, b as int)[k],
    ) by {
        assert(is_digit(t@[a + k]));
    }
    true
}

fn range_below(t: &Vec<char>, a: usize, b: usize, bound: usize) -> (r: bool)
    requires
        a <= b <= t.len(),
        all_digits(t@.subrange(a as int, b as int)),
    ensures
        r == (digits_value(t@.subrange(a as int, b as int)) < bound),
{
    if bound == 0 {
        return false;
    }
    let ghost whole = t@.subrange(a as int, b as int);
    let mut value: usize = 0;
    let mut i: usize = a;
    assert(t@.subrange(a as int, a as int) =~= Seq::<char>::empty());
    while i < b
        invariant
            a <= i <= b <= t.len(),
            whole == t@.subrange(a as int, b as int),
            all_digits(whole),
            value == digits_value(t@.subrange(a as int, i as int)),
            value < bound,
        decreases b - i,
    {
        let c: char = t[i];
        proof {
            let next = t@.subrange(a as int, i + 1);
            assert(next.drop_last() =~= t@.subrange(a as int, i as int));
            assert(next.last() == c);
            assert(c == whole[i - a]);
            assert(is_digit(c));
            assert(next =~= whole.subrange(0, i + 1 - a));
            lemma_digits_prefix(whole, i + 1 - a);
        }
        let digit: u128 = (c as u32 - 0x30) as u128;
        let next: u128 = (value as u128) * 10 + digit;
        if next >= bound as u128 {
            return false;
        }
        value = next as usize;
        i += 1;
    }
    assert(t@.subrange(a as int, i as int) =~= whole);
    true
}

fn name_equals(name: &str, t: &Vec<char>, a: usize, b: usize) -> (r: bool)
    requires
        a <= b <= t.len(),
    ensures
        r == (name@ == t@.subrange(a as int, b as int)),
{
    let n: usize = name.unicode_len();
    if n != b - a {
        return false;
    }
    let mut i: usize = 0;
    while i < n
        invariant
            a <= b <= t.len(),
            n == b - a,
            n == name@.len(),
            i <= n,
            forall|k: int| 0 <= k < i ==> name@[k] == t@[a + k],
        decreases n - i,
    {
        if name.get_char(i) != t[a + i] {
            assert(t@.subrange(a as int, b as int)[i as int] == t@[a + i]);
            return false;
        }
        i += 1;
    }
    assert(name@ =~= t@.subrange(a as int, b as int));
    true
}

fn names_group(groups: &Vec<Option<String>>, t: &Vec<char>, a: usize, b: usize) -> (r: bool)
    requires
        a <= b <= t.len(),
    ensures
        r == groups.deep_view().contains(Some(t@.subrange(a as int, b as int))),
{
    let ghost wanted = Some(t@.subrange(a as int, b as int));
    let mut i: usize = 0;
    while i < groups.len()
        invariant
            a <= b <= t.len(),
            i <= groups.len(),
            wanted == Some(t@.subrange(a as int, b as int)),
            forall|k: int| 0 <= k < i ==> groups.deep_view()[k] != wanted,
        decreases groups.len() - i,
    {
        assert(groups.deep_view()[i as int] == groups@[i as int].deep_view());
        match &groups[i] {
            Some(name) => {
                if name_equals(name.as_str(), t, a, b) {
                    assert(groups.deep_view()[i as int] == wanted);
                    return true;
                }
            },
            None => {},
        }
        i += 1;
    }
    false
}

fn reference_resolves(groups: &Vec<Option<String>>, t: &Vec<char>, a: usize, b: usize) -> (r:
    bool)
    requires
        a <= b <= t.len(),
    ensures
        r == resolves(t@.subrange(a as int, b as int), groups.deep_view()),
{
    if a < b && range_all_digits(t, a, b) && range_below(t, a, b, groups.len()) {
        return true;
    }
    names_group(groups, t, a, b)
}

/// Decides whether every reference in `template` finds a group among `groups`,
/// the capture groups of a pattern in their order.
pub fn references_valid(template: &str, groups: &Vec<Option<String>>) -> (valid: bool)
    ensures
        valid == references_resolve(template@, 0, groups.deep_view()),
{
    let t = chars_of(template);
    let n: usize = t.len();
    let mut i: usize = 0;
    while i < n
        invariant
            n == t.len(),
            t@ == template@,
            i <= n,
            references_resolve(t@, 0, groups.deep_view()) == references_resolve(
                t@,
                i as int,
                groups.deep_view(),
            ),
        decreases n - i,
    {
        if t[i] != '$' {
            i += 1;
        } else if i + 1 >= n {
            return true;
        } else if t[i + 1] == '$' {
            i += 2;
        } else if t[i + 1] == '{' {
            let close = scan_brace(&t, i + 2);
            if close >= n {
                i += 1;
            } else if reference_resolves(groups, &t, i + 2, close) {
                i = close + 1;
            } else {
                return false;
            }
        } else {
            let end = scan_name(&t, i + 1);
            if end == i + 1 {
                i += 1;
            } else if reference_resolves(groups, &t, i + 1, end) {
                i = end;
            } else {
                return false;
            }
        }
    }
    true
}

} // verus!
