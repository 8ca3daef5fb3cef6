//! Character-level helpers shared by the codecs: conversion between strings
//! and character vectors, white space, searching and removing, and decimal
//! numbers.

use vstd::prelude::*;

verus! {

/// `String::push` of the standard library: appends one character.
pub assume_specification[ String::push ](s: &mut String, ch: char)
    ensures
        final(s)@ == old(s)@.push(ch),
;

/// The characters of `s`, in order.
pub fn to_chars(s: &str) -> (v: Vec<char>)
    ensures
        v@ == s@,
{
    let mut v: Vec<char> = Vec::new();
    for c in it: s.chars()
        invariant
            it.seq() == s@,
            v@ == s@.subrange(0, it.index() as int),
    {
        v.push(c);
    }
    v
}

/// The string made of the characters of `v`, in order.
pub fn from_chars(v: &Vec<char>) -> (s: String)
    ensures
        s@ == v@,
{
    let mut s = String::new();
    let mut i: usize = 0;
    while i < v.len()
        invariant
            i <= v.len(),
            s@ == v@.subrange(0, i as int),
        decreases v.len() - i,
    {
        s.push(v[i]);
        i += 1;
    }
    assert(v@.subrange(0, v.len() as int) == v@);
    s
}

/// Copies a character vector.
pub fn copy_chars(v: &Vec<char>) -> (r: Vec<char>)
    ensures
        r@ == v@,
{
    let mut r: Vec<char> = Vec::new();
    let mut i: usize = 0;
    while i < v.len()
        invariant
            i <= v.len(),
            r@ == v@.subrange(0, i as int),
        decreases v.len() - i,
    {
        r.push(v[i]);
        i += 1;
    }
    assert(v@.subrange(0, v.len() as int) == v@);
    r
}

/// Whether two character vectors hold the same text.
pub fn same_chars(a: &Vec<char>, b: &Vec<char>) -> (r: bool)
    ensures
        r == (a@ == b@),
{
    if a.len() != b.len() {
        return false;
    }
    let mut i: usize = 0;
    while i < a.len()
        invariant
            i <= a.len(),
            a.len() == b.len(),
            a@.subrange(0, i as int) == b@.subrange(0, i as int),
        decreases a.len() - i,
    {
        if a[i] != b[i] {
            return false;
        }
        assert(a@.subrange(0, i + 1) == a@.subrange(0, i as int).push(a@[i as int]));
        assert(b@.subrange(0, i + 1) == b@.subrange(0, i as int).push(b@[i as int]));
        i += 1;
    }
    assert(a@.subrange(0, a.len() as int) == a@);
    assert(b@.subrange(0, b.len() as int) == b@);
    true
}

/// The characters with the Unicode property `White_Space`.
pub open spec fn is_white_space(c: char) -> bool {
    let n = c as u32;
    (0x09 <= n <= 0x0D) || n == 0x20 || n == 0x85 || n == 0xA0 || n == 0x1680 || (0x2000 <= n
        <= 0x200A) || n == 0x2028 || n == 0x2029 || n == 0x202F || n == 0x205F || n == 0x3000
}

/// Decides `is_white_space`.
pub fn white_space(c: char) -> (r: bool)
    ensures
        r == is_white_space(c),
{
    let n: u32 = c as u32;
    (0x09 <= n && n <= 0x0D) || n == 0x20 || n == 0x85 || n == 0xA0 || n == 0x1680 || (0x2000 <= n
        && n <= 0x200A) || n == 0x2028 || n == 0x2029 || n == 0x202F || n == 0x205F || n
        == 0x3000
}

/// `s` without its white space characters.
pub open spec fn strip_white_space(s: Seq<char>) -> Seq<char>
    decreases s.len(),
{
    if s.len() == 0 {
        s
    } else if is_white_space(s.last()) {
        strip_white_space(s.drop_last())
    } else {
        strip_white_space(s.drop_last()).push(s.last())
    }
}

/// Removes every white space character.
pub fn without_white_space(v: &Vec<char>) -> (r: Vec<char>)
    ensures
        r@ == strip_white_space(v@),
{
    let mut r: Vec<char> = Vec::new();
    let mut i: usize = 0;
    while i < v.len()
        invariant
            i <= v.len(),
            r@ == strip_white_space(v@.subrange(0, i as int)),
        decreases v.len() - i,
    {
        assert(v@.subrange(0, i + 1).drop_last() == v@.subrange(0, i as int));
        if !white_space(v[i]) {
            r.push(v[i]);
        }
        i += 1;
    }
    assert(v@.subrange(0, v.len() as int) == v@);
    r
}

/// Every character of `s` is white space.
pub open spec fn all_white_space(s: Seq<char>) -> bool {
    forall|i: int| 0 <= i < s.len() ==> is_white_space(#[trigger] s[i])
}

/// Index of the first character of `s` that is not white space; the length
/// of `s` where there is none.
pub open spec fn leading_white_space(s: Seq<char>) -> nat
    decreases s.len(),
{
    if s.len() == 0 || !is_white_space(s[0]) {
        0
    } else {
        1 + leading_white_space(s.drop_first())
    }
}

/// Number of white space characters at the end of `s`.
pub open spec fn trailing_white_space(s: Seq<char>) -> nat
    decreases s.len(),
{
    if s.len() == 0 || !is_white_space(s.last()) {
        0
    } else {
        1 + trailing_white_space(s.drop_last())
    }
}

/// `s` without its leading and trailing white space.
pub open spec fn trimmed(s: Seq<char>) -> Seq<char> {
    let from = leading_white_space(s);
    if from == s.len() {
        Seq::empty()
    } else {
        s.subrange(from as int, s.len() - trailing_white_space(s))
    }
}

pub proof fn lemma_leading_white_space(s: Seq<char>)
    ensures
        leading_white_space(s) <= s.len(),
        forall|i: int| 0 <= i < leading_white_space(s) ==> is_white_space(#[trigger] s[i]),
        leading_white_space(s) < s.len() ==> !is_white_space(s[leading_white_space(s) as int]),
    decreases s.len(),
{
    if s.len() != 0 && is_white_space(s[0]) {
        let t = s.drop_first();
        lemma_leading_white_space(t);
        assert forall|i: int| 0 <= i < leading_white_space(s) implies is_white_space(
            #[trigger] s[i],
        ) by {
            if i > 0 {
                assert(s[i] == t[i - 1]);
            }
        }
        if leading_white_space(s) < s.len() {
            assert(s[leading_white_space(s) as int] == t[leading_white_space(t) as int]);
        }
    }
}

pub proof fn lemma_trailing_white_space(s: Seq<char>)
    ensures
        trailing_white_space(s) <= s.len(),
        forall|i: int|
            s.len() - trailing_white_space(s) <= i < s.len() ==> is_white_space(#[trigger] s[i]),
        trailing_white_space(s) < s.len() ==> !is_white_space(
            s[s.len() - trailing_white_space(s) - 1],
        ),
    decreases s.len(),
{
    if s.len() != 0 && is_white_space(s.last()) {
        let t = s.drop_last();
        lemma_trailing_white_space(t);
        assert forall|i: int| s.len() - trailing_white_space(s) <= i < s.len() implies is_white_space(
            #[trigger] s[i],
        ) by {
            if i < s.len() - 1 {
                assert(s[i] == t[i]);
            }
        }
        if trailing_white_space(s) < s.len() {
            assert(s[s.len() - trailing_white_space(s) - 1] == t[t.len() - trailing_white_space(t)
                - 1]);
        }
    }
}

/// A first index that is not white space, with white space before it, is
/// the count of leading white space.
pub proof fn lemma_leading_is(s: Seq<char>, n: int)
    requires
        0 <= n <= s.len(),
        forall|i: int| 0 <= i < n ==> is_white_space(#[trigger] s[i]),
        n < s.len() ==> !is_white_space(s[n]),
    ensures
        leading_white_space(s) == n,
    decreases s.len(),
{
    if n > 0 {
        assert(is_white_space(s[0]));
        let t = s.drop_first();
        assert forall|i: int| 0 <= i < n - 1 implies is_white_space(#[trigger] t[i]) by {
            assert(t[i] == s[i + 1]);
        }
        lemma_leading_is(t, n - 1);
    }
}

/// White space from index `n` on, and none just before `n`, makes the count
/// of trailing white space.
pub proof fn lemma_trailing_is(s: Seq<char>, n: int)
    requires
        0 <= n <= s.len(),
        forall|i: int| n <= i < s.len() ==> is_white_space(#[trigger] s[i]),
        n > 0 ==> !is_white_space(s[n - 1]),
    ensures
        trailing_white_space(s) == s.len() - n,
    decreases s.len(),
{
    if n < s.len() {
        assert(is_white_space(s[s.len() - 1]));
        let t = s.drop_last();
        assert forall|i: int| n <= i < t.len() implies is_white_space(#[trigger] t[i]) by {
            assert(t[i] == s[i]);
        }
        lemma_trailing_is(t, n);
    }
}

/// Removes leading and trailing white space.
pub fn trim(v: &Vec<char>) -> (r: Vec<char>)
    ensures
        r@ == trimmed(v@),
{
    let mut from: usize = 0;
    while from < v.len() && white_space(v[from])
        invariant
            from <= v.len(),
            forall|i: int| 0 <= i < from ==> is_white_space(#[trigger] v@[i]),
        decreases v.len() - from,
    {
        from += 1;
    }
    proof {
        lemma_leading_is(v@, from as int);
    }
    let mut r: Vec<char> = Vec::new();
    if from == v.len() {
        return r;
    }
    let mut to: usize = v.len();
    while to > 0 && white_space(v[to - 1])
        invariant
            to <= v.len(),
            forall|i: int| to <= i < v.len() ==> is_white_space(#[trigger] v@[i]),
        decreases to,
    {
        to -= 1;
    }
    proof {
        lemma_trailing_is(v@, to as int);
        assert(from < to) by {
            if to <= from {
                assert(is_white_space(v@[from as int]));
            }
        }
    }
    let mut i: usize = from;
    while i < to
        invariant
            from <= i <= to <= v.len(),
            r@ == v@.subrange(from as int, i as int),
        decreases to - i,
    {
        r.push(v[i]);
        i += 1;
    }
    r
}

/// The trimmed text is empty exactly when all of it is white space.
pub proof fn lemma_trimmed_empty(s: Seq<char>)
    ensures
        (trimmed(s).len() == 0) == all_white_space(s),
{
    lemma_leading_white_space(s);
    lemma_trailing_white_space(s);
    let from = leading_white_space(s);
    if from == s.len() {
        assert(all_white_space(s));
    } else {
        assert(!is_white_space(s[from as int]));
        assert(!all_white_space(s));
        let k = trailing_white_space(s);
        if s.len() - k <= from {
            assert(is_white_space(s[from as int]));
        }
    }
}

/// Whether the text is empty once trimmed.
pub fn is_blank(v: &Vec<char>) -> (r: bool)
    ensures
        r == all_white_space(v@),
        r == (trimmed(v@).len() == 0),
{
    let mut i: usize = 0;
    while i < v.len()
        invariant
            i <= v.len(),
            forall|j: int| 0 <= j < i ==> is_white_space(#[trigger] v@[j]),
        decreases v.len() - i,
    {
        if !white_space(v[i]) {
            proof {
                lemma_trimmed_empty(v@);
            }
            return false;
        }
        i += 1;
    }
    proof {
        lemma_trimmed_empty(v@);
    }
    true
}

/// Index of the first `c` in `s`; the length of `s` where there is none.
pub open spec fn first_index(s: Seq<char>, c: char) -> nat
    decreases s.len(),
{
    if s.len() == 0 || s[0] == c {
        0
    } else {
        1 + first_index(s.drop_first(), c)
    }
}

pub proof fn lemma_first_index(s: Seq<char>, c: char)
    ensures
        first_index(s, c) <= s.len(),
        forall|i: int| 0 <= i < first_index(s, c) ==> #[trigger] s[i] != c,
        first_index(s, c) < s.len() ==> s[first_index(s, c) as int] == c,
        (first_index(s, c) < s.len()) == s.contains(c),
    decreases s.len(),
{
    if s.len() != 0 && s[0] != c {
        let t = s.drop_first();
        lemma_first_index(t, c);
        assert forall|i: int| 0 <= i < first_index(s, c) implies #[trigger] s[i] != c by {
            if i > 0 {
                assert(s[i] == t[i - 1]);
            }
        }
        if first_index(s, c) < s.len() {
            assert(s[first_index(s, c) as int] == t[first_index(t, c) as int]);
        }
        if s.contains(c) {
            let k = choose|k: int| 0 <= k < s.len() && s[k] == c;
            assert(t[k - 1] == c);
        }
    } else if s.len() != 0 {
        assert(s[0] == c);
    }
}

pub proof fn lemma_first_index_is(s: Seq<char>, c: char, n: int)
    requires
        0 <= n <= s.len(),
        forall|i: int| 0 <= i < n ==> #[trigger] s[i] != c,
        n < s.len() ==> s[n] == c,
    ensures
        first_index(s, c) == n,
    decreases s.len(),
{
    if n > 0 {
        let t = s.drop_first();
        assert(s[0] != c);
        assert forall|i: int| 0 <= i < n - 1 implies #[trigger] t[i] != c by {
            assert(t[i] == s[i + 1]);
        }
        lemma_first_index_is(t, c, n - 1);
    }
}

/// Position of the first `c` in `v`.
pub fn find_char(v: &Vec<char>, c: char) -> (r: Option<usize>)
    ensures
        r is Some == v@.contains(c),
        r matches Some(i) ==> i == first_index(v@, c) && i < v.len(),
{
    let mut i: usize = 0;
    while i < v.len()
        invariant
            i <= v.len(),
            forall|j: int| 0 <= j < i ==> #[trigger] v@[j] != c,
        decreases v.len() - i,
    {
        if v[i] == c {
            proof {
                lemma_first_index_is(v@, c, i as int);
                lemma_first_index(v@, c);
            }
            return Some(i);
        }
        i += 1;
    }
    proof {
        lemma_first_index_is(v@, c, i as int);
        lemma_first_index(v@, c);
    }
    None
}

/// The characters of `v` from `from` up to, not including, `to`.
pub fn slice_chars(v: &Vec<char>, from: usize, to: usize) -> (r: Vec<char>)
    requires
        from <= to <= v.len(),
    ensures
        r@ == v@.subrange(from as int, to as int),
{
    let mut r: Vec<char> = Vec::new();
    let mut i: usize = from;
    while i < to
        invariant
            from <= i <= to <= v.len(),
            r@ == v@.subrange(from as int, i as int),
        decreases to - i,
    {
        r.push(v[i]);
        i += 1;
    }
    r
}

/// Appends the characters of `tail` to `v`.
pub fn append_chars(v: &mut Vec<char>, tail: &Vec<char>)
    ensures
        final(v)@ == old(v)@ + tail@,
{
    let ghost before = v@;
    let mut i: usize = 0;
    while i < tail.len()
        invariant
            i <= tail.len(),
            v@ == before + tail@.subrange(0, i as int),
        decreases tail.len() - i,
    {
        v.push(tail[i]);
        i += 1;
        assert(v@ == before + tail@.subrange(0, i as int));
    }
    assert(tail@.subrange(0, tail.len() as int) == tail@);
}

/// Appends the characters of `tail` to `v`.
pub fn append_str(v: &mut Vec<char>, tail: &str)
    ensures
        final(v)@ == old(v)@ + tail@,
{
    let t = to_chars(tail);
    append_chars(v, &t);
}

/// `s` begins with `p`.
pub open spec fn has_prefix(s: Seq<char>, p: Seq<char>) -> bool {
    p.len() <= s.len() && s.subrange(0, p.len() as int) == p
}

/// Whether `v`, read from index `at`, begins with `p`.
pub fn prefix_at(v: &Vec<char>, at: usize, p: &Vec<char>) -> (r: bool)
    requires
        at <= v.len(),
    ensures
        r == has_prefix(v@.skip(at as int), p@),
{
    if p.len() > v.len() - at {
        return false;
    }
    let ghost rest = v@.skip(at as int);
    let mut i: usize = 0;
    while i < p.len()
        invariant
            i <= p.len(),
            at + p.len() <= v.len(),
            rest == v@.skip(at as int),
            rest.subrange(0, i as int) == p@.subrange(0, i as int),
        decreases p.len() - i,
    {
        if v[at + i] != p[i] {
            assert(rest.subrange(0, p.len() as int)[i as int] == rest[i as int]);
            return false;
        }
        assert(rest.subrange(0, i + 1) == rest.subrange(0, i as int).push(rest[i as int]));
        assert(p@.subrange(0, i + 1) == p@.subrange(0, i as int).push(p@[i as int]));
        i += 1;
    }
    assert(p@.subrange(0, p.len() as int) == p@);
    true
}

/// `s` with every occurrence of `p` taken out, found from left to right
/// without overlap.
pub open spec fn without_pattern(s: Seq<char>, p: Seq<char>) -> Seq<char>
    decreases s.len(),
{
    if p.len() == 0 || s.len() == 0 {
        s
    } else if has_prefix(s, p) {
        without_pattern(s.skip(p.len() as int), p)
    } else {
        seq![s[0]] + without_pattern(s.drop_first(), p)
    }
}

/// Taking a pattern out of a text brings no character in.
pub proof fn lemma_without_pattern_subset(s: Seq<char>, p: Seq<char>, c: char)
    ensures
        without_pattern(s, p).contains(c) ==> s.contains(c),
    decreases s.len(),
{
    let r = without_pattern(s, p);
    if p.len() == 0 || s.len() == 0 {
    } else if has_prefix(s, p) {
        let rest = s.skip(p.len() as int);
        lemma_without_pattern_subset(rest, p, c);
        if r.contains(c) {
            let i = choose|i: int| 0 <= i < rest.len() && rest[i] == c;
            assert(s[i + p.len()] == c);
        }
    } else {
        let rest = s.drop_first();
        let tail = without_pattern(rest, p);
        lemma_without_pattern_subset(rest, p, c);
        if r.contains(c) {
            let i = choose|i: int| 0 <= i < r.len() && r[i] == c;
            if i == 0 {
                assert(s[0] == c);
            } else {
                assert(tail[i - 1] == c);
                let j = choose|j: int| 0 <= j < rest.len() && rest[j] == c;
                assert(s[j + 1] == c);
            }
        }
    }
}

/// A text from which a character was taken out does not hold it.
pub proof fn lemma_without_char(s: Seq<char>, c: char)
    ensures
        !without_pattern(s, seq![c]).contains(c),
    decreases s.len(),
{
    let p = seq![c];
    let r = without_pattern(s, p);
    if s.len() == 0 {
    } else if has_prefix(s, p) {
        lemma_without_char(s.skip(1), c);
    } else {
        let rest = s.drop_first();
        let tail = without_pattern(rest, p);
        lemma_without_char(rest, c);
        assert(s[0] != c) by {
            if s[0] == c {
                assert(s.subrange(0, 1) =~= p);
            }
        }
        if r.contains(c) {
            let i = choose|i: int| 0 <= i < r.len() && r[i] == c;
            if i > 0 {
                assert(tail[i - 1] == c);
            }
        }
    }
}

/// Takes every occurrence of `p` out of `v`.
pub fn remove_pattern(v: &Vec<char>, p: &Vec<char>) -> (r: Vec<char>)
    ensures
        r@ == without_pattern(v@, p@),
{
    if p.len() == 0 {
        return copy_chars(v);
    }
    let mut r: Vec<char> = Vec::new();
    let mut i: usize = 0;
    assert(v@.skip(0) == v@);
    while i < v.len()
        invariant
            i <= v.len(),
            p.len() > 0,
            r@ + without_pattern(v@.skip(i as int), p@) == without_pattern(v@, p@),
        decreases v.len() - i,
    {
        let ghost rest = v@.skip(i as int);
        if prefix_at(v, i, p) {
            assert(rest.skip(p.len() as int) == v@.skip(i + p.len()));
            i += p.len();
        } else {
            assert(rest.drop_first() == v@.skip(i + 1));
            assert(r@.push(v@[i as int]) + without_pattern(v@.skip(i + 1), p@) == r@ + (seq![
                rest[0],
            ] + without_pattern(rest.drop_first(), p@)));
            r.push(v[i]);
            i += 1;
        }
    }
    assert(r@ + Seq::<char>::empty() == r@);
    r
}

/// Whether `v` holds the character `c`.
pub fn has_char(v: &Vec<char>, c: char) -> (r: bool)
    ensures
        r == v@.contains(c),
{
    find_char(v, c).is_some()
}

/// What `str::to_uppercase` returns for text that is not all ASCII.
pub uninterp spec fn upper_case(s: Seq<char>) -> Seq<char>;

/// Every character of `s` is ASCII.
pub open spec fn all_ascii(s: Seq<char>) -> bool {
    forall|i: int| 0 <= i < s.len() ==> (#[trigger] s[i]) as u32 <= 0x7F
}

/// An ASCII small letter becomes its capital; any other character stays.
pub open spec fn ascii_upper(c: char) -> char {
    if 0x61 <= c as u32 <= 0x7A {
        ((c as u32 - 0x20) as u8) as char
    } else {
        c
    }
}

/// The upper-case form of `s`: on ASCII text each small letter becomes its
/// capital and nothing else changes; other text is mapped as Unicode says.
pub open spec fn upper_cased(s: Seq<char>) -> Seq<char> {
    if all_ascii(s) {
        s.map_values(|c: char| ascii_upper(c))
    } else {
        upper_case(s)
    }
}

/// `str::to_uppercase` of the standard library: the upper-case equivalent
/// of the text, by the Unicode property `Uppercase`. On ASCII text that is
/// the mapping of the small letters to their capitals.
pub assume_specification[ str::to_uppercase ](s: &str) -> (r: String)
    ensures
        all_ascii(s@) ==> r@ == s@.map_values(|c: char| ascii_upper(c)),
        !all_ascii(s@) ==> r@ == upper_case(s@),
;

/// What `str::to_lowercase` returns for text that is not all ASCII.
pub uninterp spec fn lower_case(s: Seq<char>) -> Seq<char>;

/// An ASCII capital becomes its small letter; any other character stays.
pub open spec fn ascii_lower(c: char) -> char {
    if 0x41 <= c as u32 <= 0x5A {
        ((c as u32 + 0x20) as u8) as char
    } else {
        c
    }
}

/// The lower-case form of `s`: on ASCII text each capital becomes its small
/// letter and nothing else changes; other text is mapped as Unicode says.
pub open spec fn lower_cased(s: Seq<char>) -> Seq<char> {
    if all_ascii(s) {
        s.map_values(|c: char| ascii_lower(c))
    } else {
        lower_case(s)
    }
}

/// `str::to_lowercase` of the standard library: the lower-case equivalent
/// of the text, by the Unicode property `Lowercase`. On ASCII text that is
/// the mapping of the capitals to their small letters.
pub assume_specification[ str::to_lowercase ](s: &str) -> (r: String)
    ensures
        all_ascii(s@) ==> r@ == s@.map_values(|c: char| ascii_lower(c)),
        !all_ascii(s@) ==> r@ == lower_case(s@),
;

/// The lines of a text: the pieces between its line feeds.
pub open spec fn lines_of(content: Seq<char>) -> Seq<Seq<char>>
    decreases content.len(),
{
    let at = first_index(content, '\n');
    if at >= content.len() {
        seq![content]
    } else {
        seq![content.subrange(0, at as int)] + lines_of(content.skip(at as int + 1))
    }
}

/// The texts of a list of character vectors.
pub open spec fn chars_view(lines: Seq<Vec<char>>) -> Seq<Seq<char>> {
    lines.map_values(|line: Vec<char>| line@)
}

/// Splits a text at its line feeds.
pub fn split_lines(content: &Vec<char>) -> (lines: Vec<Vec<char>>)
    ensures
        chars_view(lines@) == lines_of(content@),
{
    let mut lines: Vec<Vec<char>> = Vec::new();
    let mut start: usize = 0;
    let mut i: usize = 0;
    assert(content@.skip(0) == content@);
    assert(chars_view(lines@) =~= Seq::<Seq<char>>::empty());
    while i < content.len()
        invariant
            start <= i <= content.len(),
            forall|j: int| start <= j < i ==> content@[j] != '\n',
            chars_view(lines@) + lines_of(content@.skip(start as int)) == lines_of(content@),
        decreases content.len() - i,
    {
        if content[i] == '\n' {
            let ghost rest = content@.skip(start as int);
            let ghost done = chars_view(lines@);
            proof {
                assert forall|j: int| 0 <= j < i - start implies #[trigger] rest[j] != '\n' by {
                    assert(rest[j] == content@[start + j]);
                }
                assert(rest[i - start] == '\n');
                lemma_first_index_is(rest, '\n', i - start);
                assert(rest.subrange(0, i - start) == content@.subrange(start as int, i as int));
                assert(rest.skip(i - start + 1) == content@.skip(i + 1));
            }
            let line = slice_chars(content, start, i);
            lines.push(line);
            proof {
                assert(chars_view(lines@) =~= done + seq![rest.subrange(0, i - start)]);
                assert(chars_view(lines@) + lines_of(content@.skip(i + 1)) =~= done + (seq![
                    rest.subrange(0, i - start),
                ] + lines_of(rest.skip(i - start + 1))));
            }
            start = i + 1;
        }
        i += 1;
    }
    let ghost rest = content@.skip(start as int);
    let ghost done = chars_view(lines@);
    proof {
        assert forall|j: int| 0 <= j < rest.len() implies #[trigger] rest[j] != '\n' by {
            assert(rest[j] == content@[start + j]);
        }
        lemma_first_index_is(rest, '\n', rest.len() as int);
        assert(rest == content@.subrange(start as int, content.len() as int));
    }
    let line = slice_chars(content, start, content.len());
    lines.push(line);
    proof {
        assert(chars_view(lines@) =~= done + seq![rest]);
    }
    lines
}

} // verus!
