//! Verified parsing of the small string formats the adaptor reads: property
//! values carrying decimal integers, sysfs file contents with a leading
//! number, and the dotted brightness string whose integer part matters.

use vstd::prelude::*;
use vstd::string::StrSliceExecFns;

verus! {

/// Whitespace as Unicode defines it: the `White_Space` set, the same
/// characters `str::trim` strips.
pub open spec fn spec_is_space(c: char) -> bool {
    ('\u{9}' <= c && c <= '\u{d}') || c == ' ' || c == '\u{85}' || c == '\u{a0}' || c == '\u{1680}'
        || ('\u{2000}' <= c && c <= '\u{200a}') || c == '\u{2028}' || c == '\u{2029}'
        || c == '\u{202f}' || c == '\u{205f}' || c == '\u{3000}'
}

/// Whitespace test on a character.
fn is_space_char(c: char) -> (r: bool)
    ensures
        r == spec_is_space(c),
{
    ('\u{9}' <= c && c <= '\u{d}') || c == ' ' || c == '\u{85}' || c == '\u{a0}' || c == '\u{1680}'
        || ('\u{2000}' <= c && c <= '\u{200a}') || c == '\u{2028}' || c == '\u{2029}'
        || c == '\u{202f}' || c == '\u{205f}' || c == '\u{3000}'
}

/// ASCII decimal digit.
pub open spec fn spec_is_digit(c: char) -> bool {
    '0' <= c && c <= '9'
}

/// Numeric value of a digit character.
pub open spec fn spec_digit_val(c: char) -> int {
    c as u32 - 48
}

/// The string without its leading whitespace.
pub open spec fn spec_trim_front(s: Seq<char>) -> Seq<char>
    decreases s.len(),
{
    if s.len() > 0 && spec_is_space(s[0]) {
        spec_trim_front(s.drop_first())
    } else {
        s
    }
}

/// The string without its trailing whitespace.
pub open spec fn spec_trim_back(s: Seq<char>) -> Seq<char>
    decreases s.len(),
{
    if s.len() > 0 && spec_is_space(s.last()) {
        spec_trim_back(s.drop_last())
    } else {
        s
    }
}

/// The string without leading or trailing whitespace.
pub open spec fn spec_trim(s: Seq<char>) -> Seq<char> {
    spec_trim_back(spec_trim_front(s))
}

/// Every character is a decimal digit.
pub open spec fn spec_all_digits(s: Seq<char>) -> bool {
    forall|k: int| 0 <= k < s.len() ==> spec_is_digit(s[k])
}

/// Value of a digit string read in base 10.
pub open spec fn spec_digits_val(s: Seq<char>) -> int
    decreases s.len(),
{
    if s.len() == 0 {
        0
    } else {
        10 * spec_digits_val(s.drop_last()) + spec_digit_val(s.last())
    }
}

/// The longest digit-only prefix of the string.
pub open spec fn spec_digits_prefix(s: Seq<char>) -> Seq<char>
    decreases s.len(),
{
    if s.len() > 0 && spec_is_digit(s[0]) {
        seq![s[0]] + spec_digits_prefix(s.drop_first())
    } else {
        Seq::empty()
    }
}

/// The prefix of the string up to (excluding) the first `.`.
pub open spec fn spec_before_dot(s: Seq<char>) -> Seq<char>
    decreases s.len(),
{
    if s.len() > 0 && s[0] != '.' {
        seq![s[0]] + spec_before_dot(s.drop_first())
    } else {
        Seq::empty()
    }
}

/// Strict decimal reading of a whole string into an `i32`: an optional sign,
/// then one or more digits, nothing else, and the value must fit.
pub open spec fn spec_parse_i32(s: Seq<char>) -> Option<i32> {
    let signed = s.len() > 0 && (s[0] == '-' || s[0] == '+');
    let neg = s.len() > 0 && s[0] == '-';
    let body = if signed {
        s.subrange(1, s.len() as int)
    } else {
        s
    };
    if body.len() == 0 || !spec_all_digits(body) {
        None
    } else {
        let v = if neg {
            -spec_digits_val(body)
        } else {
            spec_digits_val(body)
        };
        if i32::MIN <= v <= i32::MAX {
            Some(v as i32)
        } else {
            None
        }
    }
}

/// Reading of a sysfs value: trim whitespace, take the digit prefix, and read
/// it as a non-negative `i32`; an empty prefix or an overflowing value is a
/// failure.
pub open spec fn spec_parse_leading_i32(s: Seq<char>) -> Option<i32> {
    let d = spec_digits_prefix(spec_trim(s));
    if d.len() == 0 {
        None
    } else if spec_digits_val(d) > i32::MAX {
        None
    } else {
        Some(spec_digits_val(d) as i32)
    }
}

proof fn lemma_trim_front_at(s: Seq<char>, i: int)
    requires
        0 <= i <= s.len(),
        forall|k: int| 0 <= k < i ==> spec_is_space(s[k]),
        i < s.len() ==> !spec_is_space(s[i]),
    ensures
        spec_trim_front(s) == s.subrange(i, s.len() as int),
    decreases i,
{
    if i == 0 {
        assert(s.subrange(0, s.len() as int) =~= s);
    } else {
        let t = s.subrange(1, s.len() as int);
        assert(s.drop_first() =~= t);
        lemma_trim_front_at(t, i - 1);
        assert(t.subrange(i - 1, t.len() as int) =~= s.subrange(i, s.len() as int));
    }
}

proof fn lemma_trim_back_at(s: Seq<char>, j: int)
    requires
        0 <= j <= s.len(),
        forall|k: int| j <= k < s.len() ==> spec_is_space(s[k]),
        j > 0 ==> !spec_is_space(s[j - 1]),
    ensures
        spec_trim_back(s) == s.subrange(0, j),
    decreases s.len() - j,
{
    if j == s.len() {
        assert(s.subrange(0, j) =~= s);
    } else {
        let t = s.subrange(0, s.len() as int - 1);
        assert(s.drop_last() =~= t);
        lemma_trim_back_at(t, j);
        assert(t.subrange(0, j) =~= s.subrange(0, j));
    }
}

proof fn lemma_digits_prefix_at(s: Seq<char>, k: int)
    requires
        0 <= k <= s.len(),
        forall|j: int| 0 <= j < k ==> spec_is_digit(s[j]),
        k < s.len() ==> !spec_is_digit(s[k]),
    ensures
        spec_digits_prefix(s) == s.subrange(0, k),
    decreases k,
{
    if k == 0 {
        assert(s.subrange(0, 0) =~= Seq::<char>::empty());
    } else {
        let t = s.subrange(1, s.len() as int);
        assert(s.drop_first() =~= t);
        lemma_digits_prefix_at(t, k - 1);
        assert(seq![s[0]] + t.subrange(0, k - 1) =~= s.subrange(0, k));
    }
}

proof fn lemma_before_dot_at(s: Seq<char>, k: int)
    requires
        0 <= k <= s.len(),
        forall|j: int| 0 <= j < k ==> s[j] != '.',
        k < s.len() ==> s[k] == '.',
    ensures
        spec_before_dot(s) == s.subrange(0, k),
    decreases k,
{
    if k == 0 {
        assert(s.subrange(0, 0) =~= Seq::<char>::empty());
    } else {
        let t = s.subrange(1, s.len() as int);
        assert(s.drop_first() =~= t);
        lemma_before_dot_at(t, k - 1);
        assert(seq![s[0]] + t.subrange(0, k - 1) =~= s.subrange(0, k));
    }
}

proof fn lemma_digits_val_nonneg(s: Seq<char>)
    requires
        spec_all_digits(s),
    ensures
        spec_digits_val(s) >= 0,
    decreases s.len(),
{
    if s.len() > 0 {
        assert(spec_all_digits(s.drop_last()));
        lemma_digits_val_nonneg(s.drop_last());
    }
}

proof fn lemma_digits_val_push(s: Seq<char>, c: char)
    ensures
        spec_digits_val(s.push(c)) == 10 * spec_digits_val(s) + spec_digit_val(c),
{
    assert(s.push(c).drop_last() =~= s);
}

/// Whitespace stripped from both ends of the string.
pub fn trim_whitespace<'a>(s: &'a str) -> (r: &'a str)
    ensures
        r@ == spec_trim(s@),
{
    let n: usize = s.unicode_len();
    let mut start: usize = 0;
    loop
        invariant
            0 <= start <= n,
            n == s@.len(),
            forall|k: int| 0 <= k < start ==> spec_is_space(s@[k]),
        ensures
            0 <= start <= n,
            forall|k: int| 0 <= k < start ==> spec_is_space(s@[k]),
            start < n ==> !spec_is_space(s@[start as int]),
        decreases n - start,
    {
        if start >= n {
            break;
        }
        if !is_space_char(s.get_char(start)) {
            break;
        }
        start = start + 1;
    }
    let mut end: usize = n;
    loop
        invariant
            start <= end <= n,
            n == s@.len(),
            forall|k: int| end <= k < n ==> spec_is_space(s@[k]),
        ensures
            start <= end <= n,
            forall|k: int| end <= k < n ==> spec_is_space(s@[k]),
            end > start ==> !spec_is_space(s@[end - 1]),
        decreases end,
    {
        if end <= start {
            break;
        }
        if !is_space_char(s.get_char(end - 1)) {
            break;
        }
        end = end - 1;
    }
    let r = s.substring_char(start, end);
    proof {
        lemma_trim_front_at(s@, start as int);
        let t = s@.subrange(start as int, n as int);
        lemma_trim_back_at(t, end - start);
        assert(t.subrange(0, end - start) =~= s@.subrange(start as int, end as int));
    }
    r
}

/// The characters of the string before its first `.`, or the whole string if
/// it has none.
pub fn prefix_before_dot<'a>(s: &'a str) -> (r: &'a str)
    ensures
        r@ == spec_before_dot(s@),
{
    let n: usize = s.unicode_len();
    let mut k: usize = 0;
    loop
        invariant
            0 <= k <= n,
            n == s@.len(),
            forall|j: int| 0 <= j < k ==> s@[j] != '.',
        ensures
            0 <= k <= n,
            forall|j: int| 0 <= j < k ==> s@[j] != '.',
            k < n ==> s@[k as int] == '.',
        decreases n - k,
    {
        if k >= n {
            break;
        }
        if s.get_char(k) == '.' {
            break;
        }
        k = k + 1;
    }
    let r = s.substring_char(0, k);
    proof {
        lemma_before_dot_at(s@, k as int);
    }
    r
}

/// Character-for-character equality of two strings.
pub fn str_content_eq(a: &str, b: &str) -> (r: bool)
    ensures
        r == (a@ == b@),
{
    let na: usize = a.unicode_len();
    let nb: usize = b.unicode_len();
    if na != nb {
        return false;
    }
    let mut i: usize = 0;
    loop
        invariant
            0 <= i <= na,
            na == a@.len(),
            nb == b@.len(),
            na == nb,
            forall|k: int| 0 <= k < i ==> a@[k] == b@[k],
        ensures
            forall|k: int| 0 <= k < a@.len() ==> a@[k] == b@[k],
        decreases na - i,
    {
        if i >= na {
            break;
        }
        if a.get_char(i) != b.get_char(i) {
            return false;
        }
        i = i + 1;
    }
    proof {
        assert(a@ =~= b@);
    }
    true
}

/// Strict decimal reading of the whole string, as a property value carries
/// it: optional sign, digits, and the value must fit an `i32`.
pub fn parse_i32(s: &str) -> (r: Option<i32>)
    ensures
        r == spec_parse_i32(s@),
{
    let n: usize = s.unicode_len();
    let mut idx: usize = 0;
    let mut neg: bool = false;
    if n > 0 {
        let c0 = s.get_char(0);
        if c0 == '-' {
            neg = true;
            idx = 1;
        } else if c0 == '+' {
            idx = 1;
        }
    }
    if idx >= n {
        return None;
    }
    let ghost body: Seq<char> = s@.subrange(idx as int, n as int);
    proof {
        if idx == 0 {
            assert(body =~= s@);
        }
    }
    let mut mag: u64 = 0;
    let mut big: bool = false;
    let mut i: usize = idx;
    loop
        invariant
            idx <= i <= n,
            n == s@.len(),
            idx <= 1,
            n > idx,
            (idx == 1) == (s@.len() > 0 && (s@[0] == '-' || s@[0] == '+')),
            neg == (s@.len() > 0 && s@[0] == '-'),
            body == s@.subrange(idx as int, n as int),
            forall|k: int| idx <= k < i ==> spec_is_digit(s@[k]),
            !big ==> mag as int == spec_digits_val(s@.subrange(idx as int, i as int)) && mag
                <= 2147483648,
            big ==> spec_digits_val(s@.subrange(idx as int, i as int)) > 2147483648,
        ensures
            i == n,
            forall|k: int| idx <= k < n ==> spec_is_digit(s@[k]),
            !big ==> mag as int == spec_digits_val(body) && mag <= 2147483648,
            big ==> spec_digits_val(body) > 2147483648,
        decreases n - i,
    {
        if i >= n {
            break;
        }
        let c = s.get_char(i);
        if !(c >= '0' && c <= '9') {
            proof {
                if idx == 0 {
                    assert(body =~= s@);
                } else {
                    assert(body =~= s@.subrange(1, s@.len() as int));
                }
                assert(body[i - idx] == s@[i as int]);
                assert(!spec_all_digits(body));
            }
            return None;
        }
        proof {
            assert(s@.subrange(idx as int, i as int + 1) =~= s@.subrange(
                idx as int,
                i as int,
            ).push(s@[i as int]));
            lemma_digits_val_push(s@.subrange(idx as int, i as int), s@[i as int]);
        }
        let d: u64 = (c as u32 - 48) as u64;
        if !big {
            let nm: u64 = mag * 10 + d;
            if nm > 2147483648 {
                big = true;
            } else {
                mag = nm;
            }
        }
        i = i + 1;
    }
    proof {
        if idx == 0 {
            assert(body =~= s@);
        } else {
            assert(body =~= s@.subrange(1, s@.len() as int));
        }
        assert forall|k: int| 0 <= k < body.len() implies spec_is_digit(body[k]) by {
            assert(body[k] == s@[idx + k]);
        }
        if big {
            lemma_digits_val_nonneg(body);
        }
    }
    if neg {
        if big {
            None
        } else {
            Some((-(mag as i64)) as i32)
        }
    } else {
        if big || mag > 2147483647 {
            None
        } else {
            Some(mag as i32)
        }
    }
}

/// Reading of a sysfs value: whitespace trimmed, then the digit prefix as a
/// non-negative `i32`.
pub fn parse_leading_i32(s: &str) -> (r: Option<i32>)
    ensures
        r == spec_parse_leading_i32(s@),
{
    let t = trim_whitespace(s);
    let n: usize = t.unicode_len();
    let mut mag: u64 = 0;
    let mut big: bool = false;
    let mut i: usize = 0;
    loop
        invariant
            0 <= i <= n,
            n == t@.len(),
            t@ == spec_trim(s@),
            forall|k: int| 0 <= k < i ==> spec_is_digit(t@[k]),
            !big ==> mag as int == spec_digits_val(t@.subrange(0, i as int)) && mag <= 2147483648,
            big ==> spec_digits_val(t@.subrange(0, i as int)) > 2147483648,
        ensures
            0 <= i <= n,
            forall|k: int| 0 <= k < i ==> spec_is_digit(t@[k]),
            i < n ==> !spec_is_digit(t@[i as int]),
            !big ==> mag as int == spec_digits_val(t@.subrange(0, i as int)) && mag <= 2147483648,
            big ==> spec_digits_val(t@.subrange(0, i as int)) > 2147483648,
        decreases n - i,
    {
        if i >= n {
            break;
        }
        let c = t.get_char(i);
        if !(c >= '0' && c <= '9') {
            break;
        }
        proof {
            assert(t@.subrange(0, i as int + 1) =~= t@.subrange(0, i as int).push(t@[i as int]));
            lemma_digits_val_push(t@.subrange(0, i as int), t@[i as int]);
        }
        let d: u64 = (c as u32 - 48) as u64;
        if !big {
            let nm: u64 = mag * 10 + d;
            if nm > 2147483648 {
                big = true;
            } else {
                mag = nm;
            }
        }
        i = i + 1;
    }
    proof {
        lemma_digits_prefix_at(t@, i as int);
        if big {
            lemma_digits_val_nonneg(t@.subrange(0, i as int));
        }
    }
    if i == 0 {
        None
    } else if big || mag > 2147483647 {
        None
    } else {
        Some(mag as i32)
    }
}

} // verus!
