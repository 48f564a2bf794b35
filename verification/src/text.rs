//! Text as a sequence of characters: trimming, letter case, searching,
//! splitting and ordering.

use vstd::prelude::*;

verus! {

/// `String::push` appends one character to the end of the string.
pub assume_specification[ String::push ](s: &mut String, c: char)
    ensures
        final(s)@ == old(s)@.push(c),
;

/// `String::push_str` appends a string slice to the end of the string.
pub assume_specification[ String::push_str ](s: &mut String, other: &str)
    ensures
        final(s)@ == old(s)@ + other@,
;

/// The view of an optional string.
pub open spec fn opt_view(s: Option<String>) -> Option<Seq<char>> {
    match s {
        Some(t) => Some(t@),
        None => None,
    }
}

/// The views of a list of strings.
pub open spec fn views(s: Seq<String>) -> Seq<Seq<char>> {
    s.map_values(|t: String| t@)
}

/// A copy of an optional string.
pub fn copy_opt(s: &Option<String>) -> (r: Option<String>)
    ensures
        opt_view(r) == opt_view(*s),
{
    match s {
        Some(t) => Some(t.clone()),
        None => None,
    }
}

/// A copy of a list of strings.
pub fn copy_strings(list: &Vec<String>) -> (r: Vec<String>)
    ensures
        views(r@) == views(list@),
{
    let mut out: Vec<String> = Vec::new();
    for i in 0..list.len()
        invariant
            out@.len() == i,
            forall|j: int| 0 <= j < i ==> (#[trigger] out@[j])@ == list@[j]@,
    {
        out.push(list[i].clone());
    }
    assert(views(out@) =~= views(list@));
    out
}

/// A text with another set between two pieces.
pub fn around(before: &str, middle: &str, after: &str) -> (r: String)
    ensures
        r@ == before@ + middle@ + after@,
{
    let mut out: String = before.to_owned();
    out.push_str(middle);
    out.push_str(after);
    out
}

/// A text with two others set between three pieces.
pub fn around_two(before: &str, first: &str, between: &str, second: &str, after: &str) -> (r:
    String)
    ensures
        r@ == before@ + first@ + between@ + second@ + after@,
{
    let mut out: String = before.to_owned();
    out.push_str(first);
    out.push_str(between);
    out.push_str(second);
    out.push_str(after);
    out
}

/// The characters of a string, in order.
pub fn chars_of(s: &str) -> (r: Vec<char>)
    ensures
        r@ == s@,
{
    let mut out: Vec<char> = Vec::new();
    for c in it: s.chars()
        invariant
            it.seq() == s@,
            out@ == s@.take(it.index() as int),
    {
        out.push(c);
    }
    out
}

/// The string made of the characters `from..to` of a list.
pub fn string_of(chars: &Vec<char>, from: usize, to: usize) -> (r: String)
    requires
        from <= to <= chars@.len(),
    ensures
        r@ == chars@.subrange(from as int, to as int),
{
    let mut out: String = String::new();
    let mut i: usize = from;
    while i < to
        invariant
            from <= i <= to <= chars@.len(),
            out@ == chars@.subrange(from as int, i as int),
        decreases to - i,
    {
        out.push(chars[i]);
        i += 1;
    }
    out
}

/// Whether a character has the Unicode property `White_Space`.
pub open spec fn is_white(c: char) -> bool {
    let n = c as u32;
    ||| 0x09 <= n <= 0x0d
    ||| n == 0x20
    ||| n == 0x85
    ||| n == 0xa0
    ||| n == 0x1680
    ||| 0x2000 <= n <= 0x200a
    ||| n == 0x2028
    ||| n == 0x2029
    ||| n == 0x202f
    ||| n == 0x205f
    ||| n == 0x3000
}

/// Whether a character is white space.
pub fn is_whitespace(c: char) -> (r: bool)
    ensures
        r == is_white(c),
{
    let n: u32 = c as u32;
    (0x09 <= n && n <= 0x0d) || n == 0x20 || n == 0x85 || n == 0xa0 || n == 0x1680 || (0x2000 <= n
        && n <= 0x200a) || n == 0x2028 || n == 0x2029 || n == 0x202f || n == 0x205f || n == 0x3000
}

/// `s` without the white space at its start.
pub open spec fn trim_start(s: Seq<char>) -> Seq<char>
    decreases s.len(),
{
    if s.len() > 0 && is_white(s[0]) {
        trim_start(s.drop_first())
    } else {
        s
    }
}

/// `s` without the white space at its end.
pub open spec fn trim_end(s: Seq<char>) -> Seq<char>
    decreases s.len(),
{
    if s.len() > 0 && is_white(s.last()) {
        trim_end(s.drop_last())
    } else {
        s
    }
}

/// `s` without the white space at either end.
pub open spec fn trimmed(s: Seq<char>) -> Seq<char> {
    trim_end(trim_start(s))
}

/// A string without the white space at either end.
pub fn trim(s: &str) -> (r: String)
    ensures
        r@ == trimmed(s@),
{
    let chars = chars_of(s);
    let mut from: usize = 0;
    let mut to: usize = chars.len();
    assert(s@.subrange(0, s@.len() as int) =~= s@);
    while from < to && is_whitespace(chars[from])
        invariant
            to == chars@.len(),
            from <= to,
            chars@ == s@,
            trim_start(s@) == trim_start(s@.subrange(from as int, s@.len() as int)),
        decreases to - from,
    {
        assert(s@.subrange(from as int, s@.len() as int).drop_first() =~= s@.subrange(
            from + 1,
            s@.len() as int,
        ));
        from += 1;
    }
    let ghost rest = s@.subrange(from as int, s@.len() as int);
    assert(trim_start(rest) == rest);
    while from < to && is_whitespace(chars[to - 1])
        invariant
            from <= to <= chars@.len(),
            chars@ == s@,
            trim_end(rest) == trim_end(s@.subrange(from as int, to as int)),
        decreases to - from,
    {
        assert(s@.subrange(from as int, to as int).drop_last() =~= s@.subrange(
            from as int,
            to - 1,
        ));
        to -= 1;
    }
    string_of(&chars, from, to)
}

/// Whether a string holds nothing but white space, or nothing at all.
pub fn is_blank(s: &str) -> (r: bool)
    ensures
        r == (trimmed(s@).len() == 0),
{
    trim(s).as_str().is_empty()
}

/// The lower-case letter of an ASCII letter; any other character itself.
pub open spec fn lower_char(c: char) -> char {
    if 'A' <= c <= 'Z' {
        ((c as u8) + 32) as char
    } else {
        c
    }
}

/// `s` with its ASCII letters in lower case.
pub open spec fn ascii_lower(s: Seq<char>) -> Seq<char> {
    s.map_values(|c: char| lower_char(c))
}

/// A string with its ASCII letters in lower case.
pub fn to_ascii_lowercase(s: &str) -> (r: String)
    ensures
        r@ == ascii_lower(s@),
{
    let mut out: String = String::new();
    for c in it: s.chars()
        invariant
            it.seq() == s@,
            out@ == ascii_lower(s@).take(it.index() as int),
    {
        if 'A' <= c && c <= 'Z' {
            out.push(((c as u8) + 32) as char);
        } else {
            out.push(c);
        }
    }
    assert(ascii_lower(s@).take(s@.len() as int) =~= ascii_lower(s@));
    out
}

/// Whether two strings hold the same characters.
pub fn same(a: &str, b: &str) -> (r: bool)
    ensures
        r == (a@ == b@),
{
    let left = chars_of(a);
    let right = chars_of(b);
    if left.len() != right.len() {
        return false;
    }
    for i in 0..left.len()
        invariant
            left@ == a@,
            right@ == b@,
            left@.len() == right@.len(),
            forall|j: int| 0 <= j < i ==> left@[j] == right@[j],
    {
        if left[i] != right[i] {
            return false;
        }
    }
    assert(a@ =~= b@);
    true
}

/// Whether `pattern` stands in `s` from position `at` on.
pub open spec fn occurs_at(s: Seq<char>, pattern: Seq<char>, at: int) -> bool {
    &&& 0 <= at
    &&& at + pattern.len() <= s.len()
    &&& s.subrange(at, at + pattern.len()) == pattern
}

/// Whether `pattern` stands anywhere in `s`.
pub open spec fn occurs(s: Seq<char>, pattern: Seq<char>) -> bool {
    exists|at: int| occurs_at(s, pattern, at)
}

/// Whether `s` begins with `prefix`.
pub open spec fn begins_with(s: Seq<char>, prefix: Seq<char>) -> bool {
    occurs_at(s, prefix, 0)
}

/// Whether `s` ends with `suffix`.
pub open spec fn ends_in(s: Seq<char>, suffix: Seq<char>) -> bool {
    occurs_at(s, suffix, s.len() - suffix.len())
}

/// Whether `pattern` stands in `chars` from position `at` on.
pub fn matches_at(chars: &Vec<char>, pattern: &Vec<char>, at: usize) -> (r: bool)
    ensures
        r == occurs_at(chars@, pattern@, at as int),
{
    if at > chars.len() || chars.len() - at < pattern.len() {
        return false;
    }
    for i in 0..pattern.len()
        invariant
            at + pattern.len() <= chars.len(),
            forall|j: int| 0 <= j < i ==> chars@[at + j] == pattern@[j],
    {
        if chars[at + i] != pattern[i] {
            proof {
                let part = chars@.subrange(at as int, at + pattern@.len());
                assert(part[i as int] == chars@[at + i]);
            }
            return false;
        }
    }
    assert(chars@.subrange(at as int, at + pattern@.len()) =~= pattern@);
    true
}

/// Whether `pattern` stands anywhere in `s`.
pub fn contains(s: &str, pattern: &str) -> (r: bool)
    ensures
        r == occurs(s@, pattern@),
{
    let chars = chars_of(s);
    let wanted = chars_of(pattern);
    let mut at: usize = 0;
    while at < chars.len()
        invariant
            at <= chars@.len(),
            chars@ == s@,
            wanted@ == pattern@,
            forall|j: int| 0 <= j < at ==> !#[trigger] occurs_at(s@, pattern@, j),
        decreases chars@.len() - at,
    {
        if matches_at(&chars, &wanted, at) {
            return true;
        }
        at += 1;
    }
    let last = matches_at(&chars, &wanted, at);
    assert(occurs(s@, pattern@) ==> last);
    last
}

/// Whether `s` ends with `suffix`.
pub fn ends_with(s: &str, suffix: &str) -> (r: bool)
    ensures
        r == ends_in(s@, suffix@),
{
    let chars = chars_of(s);
    let wanted = chars_of(suffix);
    if wanted.len() > chars.len() {
        return false;
    }
    matches_at(&chars, &wanted, chars.len() - wanted.len())
}

/// Whether `s` begins with `prefix`.
pub fn starts_with(s: &str, prefix: &str) -> (r: bool)
    ensures
        r == begins_with(s@, prefix@),
{
    let chars = chars_of(s);
    let wanted = chars_of(prefix);
    matches_at(&chars, &wanted, 0)
}

/// The words of `s`: its longest runs of characters that are not white space,
/// in order.
pub open spec fn words(s: Seq<char>) -> Seq<Seq<char>>
    decreases s.len(),
{
    if s.len() == 0 {
        Seq::empty()
    } else if is_white(s.last()) {
        words(s.drop_last())
    } else if s.len() == 1 || is_white(s[s.len() - 2]) {
        words(s.drop_last()).push(seq![s.last()])
    } else {
        let before = words(s.drop_last());
        before.drop_last().push(before.last().push(s.last()))
    }
}

/// Splits a string into its words.
pub fn split_whitespace(s: &str) -> (r: Vec<String>)
    ensures
        views(r@) == words(s@),
{
    let chars = chars_of(s);
    let mut out: Vec<String> = Vec::new();
    let mut word: String = String::new();
    assert(s@.take(0) =~= Seq::<char>::empty());
    for i in 0..chars.len()
        invariant
            chars@ == s@,
            word@.len() == 0 <==> (i == 0 || is_white(s@[i - 1])),
            words(s@.take(i as int)) == if word@.len() == 0 {
                views(out@)
            } else {
                views(out@).push(word@)
            },
    {
        let c = chars[i];
        let ghost before = out@;
        let ghost run = word@;
        assert(s@.take(i + 1).drop_last() =~= s@.take(i as int));
        assert(s@.take(i + 1).last() == c);
        if is_whitespace(c) {
            if !word.as_str().is_empty() {
                out.push(word);
                assert(views(out@) =~= views(before).push(run));
                word = String::new();
            }
        } else {
            word.push(c);
            if i > 0 {
                assert(s@.take(i + 1)[i - 1] == s@[i - 1]);
            }
            proof {
                if run.len() == 0 {
                    assert(word@ =~= seq![c]);
                } else {
                    let all = views(out@).push(run);
                    assert(all.drop_last() =~= views(out@));
                }
            }
        }
    }
    assert(s@.take(s@.len() as int) =~= s@);
    if !word.as_str().is_empty() {
        let ghost before = out@;
        let ghost run = word@;
        out.push(word);
        assert(views(out@) =~= views(before).push(run));
    }
    out
}

/// A text has no more words than characters, and one at least where it does not
/// end in white space.
pub proof fn words_are_bounded(s: Seq<char>)
    ensures
        words(s).len() <= s.len(),
        s.len() > 0 && !is_white(s.last()) ==> words(s).len() > 0,
    decreases s.len(),
{
    if s.len() > 0 {
        words_are_bounded(s.drop_last());
        if s.len() > 1 {
            assert(s.drop_last().last() == s[s.len() - 2]);
        }
    }
}

/// The strings of a list, one after the other, with `separator` between
/// neighbours.
pub open spec fn joined(parts: Seq<Seq<char>>, separator: Seq<char>) -> Seq<char>
    decreases parts.len(),
{
    if parts.len() == 0 {
        Seq::empty()
    } else if parts.len() == 1 {
        parts[0]
    } else {
        joined(parts.drop_last(), separator) + separator + parts.last()
    }
}

/// Joins the strings of a list, with `separator` between neighbours.
pub fn join(parts: &Vec<String>, separator: &str) -> (r: String)
    ensures
        r@ == joined(views(parts@), separator@),
{
    let mut out: String = String::new();
    assert(views(parts@).take(0) =~= Seq::<Seq<char>>::empty());
    for i in 0..parts.len()
        invariant
            out@ == joined(views(parts@).take(i as int), separator@),
    {
        if i > 0 {
            out.push_str(separator);
        }
        out.push_str(parts[i].as_str());
        proof {
            let upto = views(parts@).take(i + 1);
            assert(upto.drop_last() =~= views(parts@).take(i as int));
            assert(upto.last() == parts@[i as int]@);
            assert(i == 0 ==> out@ =~= parts@[0]@);
        }
    }
    assert(views(parts@).take(parts@.len() as int) =~= views(parts@));
    out
}

/// Whether `a` comes before `b` in the order of their characters' code points.
/// UTF-8 keeps that order, so it is the order of the encoded bytes too.
pub open spec fn precedes(a: Seq<char>, b: Seq<char>) -> bool
    decreases a.len(),
{
    if b.len() == 0 {
        false
    } else if a.len() == 0 {
        true
    } else if a[0] != b[0] {
        a[0] < b[0]
    } else {
        precedes(a.drop_first(), b.drop_first())
    }
}

/// Whether `a` comes before `b`.
pub fn comes_before(a: &str, b: &str) -> (r: bool)
    ensures
        r == precedes(a@, b@),
{
    let left = chars_of(a);
    let right = chars_of(b);
    let mut i: usize = 0;
    assert(a@.skip(0) =~= a@);
    assert(b@.skip(0) =~= b@);
    while i < left.len() && i < right.len()
        invariant
            left@ == a@,
            right@ == b@,
            i <= left@.len(),
            i <= right@.len(),
            precedes(a@, b@) == precedes(a@.skip(i as int), b@.skip(i as int)),
        decreases left@.len() - i,
    {
        if left[i] != right[i] {
            return left[i] < right[i];
        }
        assert(a@.skip(i as int).drop_first() =~= a@.skip(i + 1));
        assert(b@.skip(i as int).drop_first() =~= b@.skip(i + 1));
        i += 1;
    }
    i < right.len()
}

/// No string comes before itself.
pub proof fn precedes_irreflexive(a: Seq<char>)
    ensures
        !precedes(a, a),
    decreases a.len(),
{
    if a.len() > 0 {
        precedes_irreflexive(a.drop_first());
    }
}

/// The order of strings is transitive.
pub proof fn precedes_transitive(a: Seq<char>, b: Seq<char>, c: Seq<char>)
    requires
        precedes(a, b),
        precedes(b, c),
    ensures
        precedes(a, c),
    decreases a.len(),
{
    if a.len() > 0 && b.len() > 0 && c.len() > 0 && a[0] == b[0] && b[0] == c[0] {
        precedes_transitive(a.drop_first(), b.drop_first(), c.drop_first());
    }
}

/// Of two different strings one comes before the other.
pub proof fn precedes_total(a: Seq<char>, b: Seq<char>)
    ensures
        a == b || precedes(a, b) || precedes(b, a),
    decreases a.len(),
{
    if a.len() > 0 && b.len() > 0 && a[0] == b[0] {
        precedes_total(a.drop_first(), b.drop_first());
        if a.drop_first() == b.drop_first() {
            assert(a =~= seq![a[0]] + a.drop_first());
            assert(b =~= seq![b[0]] + b.drop_first());
        }
    } else if a.len() == 0 && b.len() == 0 {
        assert(a =~= b);
    }
}

/// How often `pattern` stands in `s` when each match is looked for behind the
/// end of the one before.
pub open spec fn match_count(s: Seq<char>, pattern: Seq<char>) -> nat
    decreases s.len(),
{
    if pattern.len() == 0 || s.len() < pattern.len() {
        0
    } else if begins_with(s, pattern) {
        1 + match_count(s.skip(pattern.len() as int), pattern)
    } else {
        match_count(s.drop_first(), pattern)
    }
}

/// `s` with `replacement` in place of each of those matches of `pattern`.
pub open spec fn replaced(s: Seq<char>, pattern: Seq<char>, replacement: Seq<char>) -> Seq<char>
    decreases s.len(),
{
    if pattern.len() == 0 || s.len() < pattern.len() {
        s
    } else if begins_with(s, pattern) {
        replacement + replaced(s.skip(pattern.len() as int), pattern, replacement)
    } else {
        seq![s[0]] + replaced(s.drop_first(), pattern, replacement)
    }
}

/// Counts the matches of a pattern that is not empty.
pub fn count_matches(s: &str, pattern: &str) -> (r: usize)
    requires
        pattern@.len() > 0,
    ensures
        r == match_count(s@, pattern@),
{
    let chars = chars_of(s);
    let wanted = chars_of(pattern);
    let mut at: usize = 0;
    let mut count: usize = 0;
    assert(s@.skip(0) =~= s@);
    while at < chars.len() && wanted.len() <= chars.len() - at
        invariant
            chars@ == s@,
            wanted@ == pattern@,
            wanted@.len() > 0,
            at <= chars.len(),
            count <= at,
            match_count(s@, pattern@) == count + match_count(s@.skip(at as int), pattern@),
        decreases chars@.len() - at,
    {
        let ghost rest = s@.skip(at as int);
        assert(rest.subrange(0, wanted@.len() as int) =~= s@.subrange(
            at as int,
            at + wanted@.len(),
        ));
        if matches_at(&chars, &wanted, at) {
            assert(rest.skip(wanted@.len() as int) =~= s@.skip(at + wanted@.len()));
            at += wanted.len();
            count += 1;
        } else {
            assert(rest.drop_first() =~= s@.skip(at + 1));
            at += 1;
        }
    }
    count
}

/// Replaces each match of a pattern that is not empty.
pub fn replace(s: &str, pattern: &str, replacement: &str) -> (r: String)
    requires
        pattern@.len() > 0,
    ensures
        r@ == replaced(s@, pattern@, replacement@),
{
    let chars = chars_of(s);
    let wanted = chars_of(pattern);
    let mut at: usize = 0;
    let mut out: String = String::new();
    assert(s@.skip(0) =~= s@);
    while at < chars.len() && wanted.len() <= chars.len() - at
        invariant
            chars@ == s@,
            wanted@ == pattern@,
            wanted@.len() > 0,
            at <= chars.len(),
            replaced(s@, pattern@, replacement@) == out@ + replaced(
                s@.skip(at as int),
                pattern@,
                replacement@,
            ),
        decreases chars@.len() - at,
    {
        let ghost rest = s@.skip(at as int);
        let ghost before = out@;
        assert(rest.subrange(0, wanted@.len() as int) =~= s@.subrange(
            at as int,
            at + wanted@.len(),
        ));
        if matches_at(&chars, &wanted, at) {
            assert(rest.skip(wanted@.len() as int) =~= s@.skip(at + wanted@.len()));
            out.push_str(replacement);
            at += wanted.len();
            assert(out@ + replaced(s@.skip(at as int), pattern@, replacement@) =~= before + (
            replacement@ + replaced(s@.skip(at as int), pattern@, replacement@)));
        } else {
            assert(rest.drop_first() =~= s@.skip(at + 1));
            out.push(chars[at]);
            at += 1;
            assert(out@ + replaced(s@.skip(at as int), pattern@, replacement@) =~= before + (
            seq![rest[0]] + replaced(s@.skip(at as int), pattern@, replacement@)));
        }
    }
    out.push_str(string_of(&chars, at, chars.len()).as_str());
    assert(s@.subrange(at as int, s@.len() as int) =~= s@.skip(at as int));
    out
}

/// Where a pattern has exactly one match, replacing it changes that stretch of
/// the text and nothing else: what stands before it and what stands behind it
/// stay as they are.
pub proof fn one_match_is_replaced(s: Seq<char>, pattern: Seq<char>, replacement: Seq<char>)
    requires
        match_count(s, pattern) == 1,
    ensures
        exists|at: int| #[trigger]
            occurs_at(s, pattern, at) && replaced(s, pattern, replacement) == s.take(at)
                + replacement + s.skip(at + pattern.len()),
    decreases s.len(),
{
    if begins_with(s, pattern) {
        let rest = s.skip(pattern.len() as int);
        no_match_is_unchanged(rest, pattern, replacement);
        assert(replaced(s, pattern, replacement) =~= s.take(0) + replacement + s.skip(
            pattern.len() as int,
        ));
        assert(occurs_at(s, pattern, 0));
    } else {
        let rest = s.drop_first();
        one_match_is_replaced(rest, pattern, replacement);
        let at = choose|at: int| #[trigger]
            occurs_at(rest, pattern, at) && replaced(rest, pattern, replacement) == rest.take(at)
                + replacement + rest.skip(at + pattern.len());
        assert(s.subrange(at + 1, at + 1 + pattern.len()) =~= rest.subrange(
            at,
            at + pattern.len(),
        ));
        assert(occurs_at(s, pattern, at + 1));
        assert(replaced(s, pattern, replacement) =~= s.take(at + 1) + replacement + s.skip(
            at + 1 + pattern.len(),
        ));
    }
}

/// Where a pattern has no match, replacing it changes nothing.
pub proof fn no_match_is_unchanged(s: Seq<char>, pattern: Seq<char>, replacement: Seq<char>)
    requires
        match_count(s, pattern) == 0,
    ensures
        replaced(s, pattern, replacement) == s,
    decreases s.len(),
{
    if pattern.len() > 0 && s.len() >= pattern.len() {
        no_match_is_unchanged(s.drop_first(), pattern, replacement);
        assert(seq![s[0]] + s.drop_first() =~= s);
    }
}

/// A pattern that is not empty has a match exactly where it stands somewhere.
pub proof fn match_count_finds_occurrence(s: Seq<char>, pattern: Seq<char>)
    requires
        pattern.len() > 0,
    ensures
        match_count(s, pattern) > 0 <==> occurs(s, pattern),
    decreases s.len(),
{
    if s.len() >= pattern.len() {
        if begins_with(s, pattern) {
            assert(occurs_at(s, pattern, 0));
        } else {
            let rest = s.drop_first();
            match_count_finds_occurrence(rest, pattern);
            if occurs(s, pattern) {
                let at = choose|at: int| occurs_at(s, pattern, at);
                assert(rest.subrange(at - 1, at - 1 + pattern.len()) =~= s.subrange(
                    at,
                    at + pattern.len(),
                ));
                assert(occurs_at(rest, pattern, at - 1));
            }
            if occurs(rest, pattern) {
                let at = choose|at: int| occurs_at(rest, pattern, at);
                assert(s.subrange(at + 1, at + 1 + pattern.len()) =~= rest.subrange(
                    at,
                    at + pattern.len(),
                ));
                assert(occurs_at(s, pattern, at + 1));
            }
        }
    }
}

/// At how many positions `pattern` stands in `s`, whether they overlap or not.
pub open spec fn place_count(s: Seq<char>, pattern: Seq<char>) -> nat
    decreases s.len(),
{
    if pattern.len() == 0 || s.len() < pattern.len() {
        0
    } else if begins_with(s, pattern) {
        1 + place_count(s.drop_first(), pattern)
    } else {
        place_count(s.drop_first(), pattern)
    }
}

/// Whether `pattern` stands in `s` at one position and no other.
pub open spec fn stands_once(s: Seq<char>, pattern: Seq<char>) -> bool {
    exists|at: int| #[trigger] is_only_place(s, pattern, at)
}

/// Whether a position is the only one at which `pattern` stands in `s`.
pub open spec fn is_only_place(s: Seq<char>, pattern: Seq<char>, at: int) -> bool {
    occurs_at(s, pattern, at) && forall|b: int| #[trigger] occurs_at(s, pattern, b) ==> b == at
}

/// Counts the positions at which a pattern that is not empty stands.
pub fn count_places(s: &str, pattern: &str) -> (r: usize)
    requires
        pattern@.len() > 0,
    ensures
        r == place_count(s@, pattern@),
{
    let chars = chars_of(s);
    let wanted = chars_of(pattern);
    let mut at: usize = 0;
    let mut count: usize = 0;
    assert(s@.skip(0) =~= s@);
    while at < chars.len() && wanted.len() <= chars.len() - at
        invariant
            chars@ == s@,
            wanted@ == pattern@,
            wanted@.len() > 0,
            at <= chars.len(),
            count <= at,
            place_count(s@, pattern@) == count + place_count(s@.skip(at as int), pattern@),
        decreases chars@.len() - at,
    {
        let ghost rest = s@.skip(at as int);
        assert(rest.subrange(0, wanted@.len() as int) =~= s@.subrange(
            at as int,
            at + wanted@.len(),
        ));
        assert(rest.drop_first() =~= s@.skip(at + 1));
        if matches_at(&chars, &wanted, at) {
            count += 1;
        }
        at += 1;
    }
    count
}

proof fn lemma_places_of_rest(s: Seq<char>, pattern: Seq<char>, at: int)
    requires
        s.len() > 0,
    ensures
        at >= 1 ==> (occurs_at(s, pattern, at) <==> occurs_at(s.drop_first(), pattern, at - 1)),
{
    if at >= 1 && at + pattern.len() <= s.len() {
        assert(s.drop_first().subrange(at - 1, at - 1 + pattern.len()) =~= s.subrange(
            at,
            at + pattern.len(),
        ));
    }
}

/// The number of positions tells whether a pattern that is not empty stands
/// anywhere, and whether it stands once.
pub proof fn place_count_tells(s: Seq<char>, pattern: Seq<char>)
    requires
        pattern.len() > 0,
    ensures
        place_count(s, pattern) > 0 <==> occurs(s, pattern),
        place_count(s, pattern) == 1 <==> stands_once(s, pattern),
    decreases s.len(),
{
    if s.len() >= pattern.len() {
        let rest = s.drop_first();
        place_count_tells(rest, pattern);
        assert forall|at: int| at >= 1 implies (#[trigger] occurs_at(s, pattern, at)
            <==> occurs_at(rest, pattern, at - 1)) by {
            lemma_places_of_rest(s, pattern, at);
        }
        assert forall|at: int| at >= 0 implies (#[trigger] occurs_at(rest, pattern, at)
            <==> occurs_at(s, pattern, at + 1)) by {
            lemma_places_of_rest(s, pattern, at + 1);
        }
        if occurs(rest, pattern) {
            let at = choose|at: int| occurs_at(rest, pattern, at);
            assert(occurs_at(s, pattern, at + 1));
        }
        if occurs(s, pattern) && !begins_with(s, pattern) {
            let at = choose|at: int| occurs_at(s, pattern, at);
            assert(occurs_at(rest, pattern, at - 1));
        }
        if begins_with(s, pattern) {
            assert(occurs_at(s, pattern, 0));
            if place_count(rest, pattern) == 0 {
                assert forall|b: int| #[trigger] occurs_at(s, pattern, b) implies b == 0 by {
                    if b >= 1 {
                        assert(occurs_at(rest, pattern, b - 1));
                        assert(occurs(rest, pattern));
                    }
                }
                assert(is_only_place(s, pattern, 0));
            } else {
                let at = choose|at: int| occurs_at(rest, pattern, at);
                assert(occurs_at(s, pattern, at + 1));
                if stands_once(s, pattern) {
                    let only = choose|only: int| #[trigger] is_only_place(s, pattern, only);
                    assert(only == 0);
                    assert(only == at + 1);
                }
            }
        } else {
            if stands_once(rest, pattern) {
                let only = choose|only: int| #[trigger] is_only_place(rest, pattern, only);
                assert forall|b: int| #[trigger] occurs_at(s, pattern, b) implies b == only + 1 by {
                    assert(occurs_at(rest, pattern, b - 1));
                }
                assert(occurs_at(s, pattern, only + 1));
                assert(is_only_place(s, pattern, only + 1));
            }
            if stands_once(s, pattern) {
                let only = choose|only: int| #[trigger] is_only_place(s, pattern, only);
                assert forall|b: int| #[trigger] occurs_at(rest, pattern, b) implies b == only
                    - 1 by {
                    assert(occurs_at(s, pattern, b + 1));
                }
                assert(occurs_at(rest, pattern, only - 1));
                assert(is_only_place(rest, pattern, only - 1));
            }
        }
    }
}

proof fn lemma_places_behind(s: Seq<char>, pattern: Seq<char>, from: int)
    requires
        0 <= from <= s.len(),
    ensures
        place_count(s.skip(from), pattern) <= place_count(s, pattern),
    decreases s.len(),
{
    if from == 0 {
        assert(s.skip(0) =~= s);
    } else {
        lemma_places_behind(s.drop_first(), pattern, from - 1);
        assert(s.drop_first().skip(from - 1) =~= s.skip(from));
    }
}

/// There are no more matches one behind the other than positions.
pub proof fn matches_are_places(s: Seq<char>, pattern: Seq<char>)
    requires
        pattern.len() > 0,
    ensures
        match_count(s, pattern) <= place_count(s, pattern),
    decreases s.len(),
{
    if s.len() >= pattern.len() {
        if begins_with(s, pattern) {
            let behind = s.skip(pattern.len() as int);
            matches_are_places(behind, pattern);
            lemma_places_behind(s.drop_first(), pattern, pattern.len() - 1);
            assert(s.drop_first().skip(pattern.len() - 1) =~= behind);
        } else {
            matches_are_places(s.drop_first(), pattern);
        }
    }
}

/// A text occurs in every text that has it between a beginning and an end.
pub proof fn middle_occurs(before: Seq<char>, middle: Seq<char>, after: Seq<char>)
    ensures
        occurs(before + middle + after, middle),
        occurs(before + middle, middle),
        occurs(middle + after, middle),
{
    let at = before.len() as int;
    let s = before + middle + after;
    assert(s.subrange(at, at + middle.len()) =~= middle);
    assert(occurs_at(s, middle, at));
    assert((before + middle).subrange(at, at + middle.len()) =~= middle);
    assert(occurs_at(before + middle, middle, at));
    assert((middle + after).subrange(0, middle.len() as int) =~= middle);
    assert(occurs_at(middle + after, middle, 0));
}

/// What is left of a text without its white space at either end has none there;
/// only white space was taken away; and nothing is left of a text that holds
/// nothing else.
pub proof fn trimmed_text_is_bare(s: Seq<char>)
    ensures
        exists|before: Seq<char>, after: Seq<char>|
            #![trigger before + trimmed(s) + after]
            s == before + trimmed(s) + after && (forall|i: int|
                0 <= i < before.len() ==> is_white(#[trigger] before[i])) && (forall|i: int|
                0 <= i < after.len() ==> is_white(#[trigger] after[i])),
        trimmed(s).len() > 0 ==> !is_white(trimmed(s)[0]) && !is_white(trimmed(s).last()),
        trimmed(s).len() == 0 <==> forall|i: int| 0 <= i < s.len() ==> is_white(#[trigger] s[i]),
{
    let from = lemma_trim_start(s);
    let rest = trim_start(s);
    let to = lemma_trim_end(rest);
    let kept = trimmed(s);
    let before = s.take(from as int);
    let after = rest.skip(to as int);
    assert(s =~= before + kept + after);
    if kept.len() == 0 {
        assert forall|i: int| 0 <= i < s.len() implies is_white(#[trigger] s[i]) by {
            if i < from {
                assert(before[i] == s[i]);
            } else {
                assert(after[i - from] == s[i]);
            }
        }
    } else {
        assert(kept[0] == rest[0]);
        assert(s[from as int] == kept[0]);
    }
}

proof fn lemma_trim_start(s: Seq<char>) -> (from: nat)
    ensures
        from <= s.len(),
        trim_start(s) == s.skip(from as int),
        forall|i: int| 0 <= i < from ==> is_white(#[trigger] s[i]),
        trim_start(s).len() > 0 ==> !is_white(trim_start(s)[0]),
    decreases s.len(),
{
    if s.len() > 0 && is_white(s[0]) {
        let from = lemma_trim_start(s.drop_first());
        assert(s.drop_first().skip(from as int) =~= s.skip(from + 1int));
        assert forall|i: int| 0 <= i < from + 1 implies is_white(#[trigger] s[i]) by {
            if i > 0 {
                assert(s.drop_first()[i - 1] == s[i]);
            }
        }
        from + 1
    } else {
        assert(s.skip(0) =~= s);
        0
    }
}

proof fn lemma_trim_end(s: Seq<char>) -> (to: nat)
    ensures
        to <= s.len(),
        trim_end(s) == s.take(to as int),
        forall|i: int| to <= i < s.len() ==> is_white(#[trigger] s[i]),
        trim_end(s).len() > 0 ==> !is_white(trim_end(s).last()),
    decreases s.len(),
{
    if s.len() > 0 && is_white(s.last()) {
        let to = lemma_trim_end(s.drop_last());
        assert(s.drop_last().take(to as int) =~= s.take(to as int));
        assert forall|i: int| to <= i < s.len() implies is_white(#[trigger] s[i]) by {
            if i < s.len() - 1 {
                assert(s.drop_last()[i] == s[i]);
            }
        }
        to
    } else {
        assert(s.take(s.len() as int) =~= s);
        s.len()
    }
}

/// Each of the parts that are joined occurs in what they are joined to.
pub proof fn parts_occur_in_joined(parts: Seq<Seq<char>>, separator: Seq<char>, i: int)
    requires
        0 <= i < parts.len(),
    ensures
        occurs(joined(parts, separator), parts[i]),
    decreases parts.len(),
{
    let whole = joined(parts, separator);
    if parts.len() == 1 {
        middle_occurs(Seq::empty(), whole, Seq::empty());
        assert(Seq::<char>::empty() + whole =~= whole);
    } else {
        let front = joined(parts.drop_last(), separator);
        if i == parts.len() - 1 {
            middle_occurs(front + separator, parts[i], Seq::empty());
        } else {
            parts_occur_in_joined(parts.drop_last(), separator, i);
            let at = choose|at: int| occurs_at(front, parts[i], at);
            assert(whole.subrange(at, at + parts[i].len()) =~= front.subrange(
                at,
                at + parts[i].len(),
            ));
            assert(occurs_at(whole, parts[i], at));
        }
    }
}

/// Joining one more part adds the separator and that part; a single part is itself,
/// and no parts are the empty text.
pub proof fn parts_are_joined_in_order(
    parts: Seq<Seq<char>>,
    part: Seq<char>,
    separator: Seq<char>,
)
    ensures
        joined(Seq::empty(), separator).len() == 0,
        joined(seq![part], separator) == part,
        parts.len() > 0 ==> joined(parts.push(part), separator) == joined(parts, separator)
            + separator + part,
{
    assert(parts.push(part).drop_last() =~= parts);
}

/// A text without white space is one word, itself; white space alone holds none; and
/// white space between two texts parts their words.
pub proof fn white_space_parts_words(a: Seq<char>, c: char, b: Seq<char>)
    ensures
        (forall|i: int| 0 <= i < a.len() ==> !is_white(#[trigger] a[i])) && a.len() > 0 ==> words(a)
            == seq![a],
        (forall|i: int| 0 <= i < a.len() ==> is_white(#[trigger] a[i])) ==> words(a).len() == 0,
        is_white(c) ==> words(a.push(c) + b) == words(a) + words(b),
{
    if (forall|i: int| 0 <= i < a.len() ==> !is_white(#[trigger] a[i])) && a.len() > 0 {
        lemma_one_word(a);
    }
    if forall|i: int| 0 <= i < a.len() ==> is_white(#[trigger] a[i]) {
        lemma_no_word(a);
    }
    if is_white(c) {
        lemma_words_parted(a, c, b);
    }
}

proof fn lemma_one_word(s: Seq<char>)
    requires
        s.len() > 0,
        forall|i: int| 0 <= i < s.len() ==> !is_white(#[trigger] s[i]),
    ensures
        words(s) == seq![s],
    decreases s.len(),
{
    let front = s.drop_last();
    assert(!is_white(s[s.len() - 1]));
    assert(forall|i: int| 0 <= i < front.len() ==> front[i] == s[i]);
    if s.len() == 1 {
        assert(front =~= Seq::empty());
        assert(words(front) =~= Seq::empty());
        assert(seq![s.last()] =~= s);
        assert(words(s) =~= seq![s]);
    } else {
        assert(!is_white(s[s.len() - 2]));
        lemma_one_word(front);
        assert(front.push(s.last()) =~= s);
        assert(words(s) =~= seq![s]);
    }
}

proof fn lemma_no_word(s: Seq<char>)
    requires
        forall|i: int| 0 <= i < s.len() ==> is_white(#[trigger] s[i]),
    ensures
        words(s).len() == 0,
    decreases s.len(),
{
    if s.len() > 0 {
        assert(is_white(s[s.len() - 1]));
        assert(forall|i: int| 0 <= i < s.drop_last().len() ==> s.drop_last()[i] == s[i]);
        lemma_no_word(s.drop_last());
    }
}

proof fn lemma_words_parted(a: Seq<char>, c: char, b: Seq<char>)
    requires
        is_white(c),
    ensures
        words(a.push(c) + b) == words(a) + words(b),
    decreases b.len(),
{
    let s = a.push(c) + b;
    if b.len() == 0 {
        assert(s =~= a.push(c));
        assert(s.drop_last() =~= a);
        assert(words(a) + words(b) =~= words(a));
    } else {
        let front = b.drop_last();
        lemma_words_parted(a, c, front);
        assert(s.drop_last() =~= a.push(c) + front);
        assert(s.last() == b.last());
        if !is_white(b.last()) {
            if b.len() == 1 {
                assert(s[s.len() - 2] == c);
                assert(words(front) =~= Seq::empty());
                assert(words(s) =~= words(a) + words(b));
            } else {
                assert(s[s.len() - 2] == b[b.len() - 2]);
                if is_white(b[b.len() - 2]) {
                    assert(words(s) =~= words(a) + words(b));
                } else {
                    words_are_bounded(front);
                    assert(front.last() == b[b.len() - 2]);
                    let before = words(a) + words(front);
                    assert(before.last() == words(front).last());
                    assert(before.drop_last() =~= words(a) + words(front).drop_last());
                    assert(words(s) =~= words(a) + words(b));
                }
            }
        }
    }
}

/// Texts make up the same text however they are grouped.
pub proof fn joining_is_associative(a: Seq<char>, b: Seq<char>, c: Seq<char>)
    ensures
        a + (b + c) == a + b + c,
{
    assert(a + (b + c) =~= a + b + c);
}

/// In lower case a text is as long as before; each capital ASCII letter becomes the
/// small one, and every other character stays.
pub proof fn lower_case_changes_capitals_only(s: Seq<char>, i: int)
    requires
        0 <= i < s.len(),
    ensures
        ascii_lower(s).len() == s.len(),
        'A' <= s[i] <= 'Z' ==> ascii_lower(s)[i] as u32 == s[i] as u32 + 32,
        !('A' <= s[i] <= 'Z') ==> ascii_lower(s)[i] == s[i],
{
}

/// Of two texts that differ first at some position, the one with the smaller
/// character there comes before the other; and a text comes before every longer one
/// that begins with it.
pub proof fn precedes_by_first_difference(a: Seq<char>, b: Seq<char>, at: int)
    requires
        0 <= at <= a.len(),
        at < b.len(),
        forall|i: int| 0 <= i < at ==> a[i] == #[trigger] b[i],
    ensures
        at < a.len() && a[at] != b[at] ==> (precedes(a, b) <==> a[at] < b[at]),
        at == a.len() ==> precedes(a, b) && !precedes(b, a),
    decreases at,
{
    if at > 0 {
        assert(a[0] == b[0]);
        let front = a.drop_first();
        let back = b.drop_first();
        assert forall|i: int| 0 <= i < at - 1 implies front[i] == #[trigger] back[i] by {
            assert(a[i + 1] == b[i + 1]);
        }
        precedes_by_first_difference(front, back, at - 1);
    }
}

/// A text occurs in itself.
pub broadcast proof fn whole_occurs(s: Seq<char>)
    ensures
        #[trigger] occurs(s, s),
{
    middle_occurs(Seq::empty(), s, Seq::empty());
    assert(Seq::<char>::empty() + s =~= s);
}

/// What occurs in a text occurs in what the text goes on to.
pub broadcast proof fn start_occurs(s: Seq<char>, t: Seq<char>, pattern: Seq<char>)
    requires
        occurs(s, pattern),
    ensures
        #[trigger] occurs(s + t, pattern),
{
    let at = choose|at: int| occurs_at(s, pattern, at);
    assert((s + t).subrange(at, at + pattern.len()) =~= s.subrange(at, at + pattern.len()));
    assert(occurs_at(s + t, pattern, at));
}

/// What a text goes on to occurs in the whole.
pub broadcast proof fn last_part_occurs(s: Seq<char>, t: Seq<char>)
    ensures
        #[trigger] occurs(s + t, t),
{
    middle_occurs(s, t, Seq::empty());
}

/// The last two parts of a text occur in it together.
pub broadcast proof fn last_parts_occur(s: Seq<char>, t: Seq<char>, u: Seq<char>)
    ensures
        #[trigger] occurs(s + t + u, t + u),
{
    joining_is_associative(s, t, u);
    middle_occurs(s, t + u, Seq::empty());
}

/// Among the ASCII characters the blank, the tab and the characters that end a line
/// or a page are white space, and no others.
pub proof fn ascii_white_space_is_known(c: char)
    requires
        (c as u32) < 128,
    ensures
        is_white(c) <==> c == ' ' || c == '\t' || c == '\n' || c == '\r' || c as u32 == 0x0b
            || c as u32 == 0x0c,
{
}

} // verus!
