//! Characters and strings: the operations on text that the rest of the crate is
//! built from, each with its meaning over `Seq<char>`.

use vstd::prelude::*;

verus! {

/// `String::push` appends the given character to the end of the string.
pub assume_specification[ String::push ](s: &mut String, c: char)
    ensures
        final(s)@ == old(s)@.push(c),
;

/// The texts of a list of strings.
pub open spec fn texts(list: Seq<String>) -> Seq<Seq<char>> {
    list.map_values(|s: String| s@)
}

/// The text of an optional string.
pub open spec fn text_of(value: Option<String>) -> Option<Seq<char>> {
    match value {
        Some(s) => Some(s@),
        None => None,
    }
}

/// The text of an optional string slice.
pub open spec fn str_of(value: Option<&str>) -> Option<Seq<char>> {
    match value {
        Some(s) => Some(s@),
        None => None,
    }
}

/// The characters of a text, in order.
pub fn chars_of(text: &str) -> (res: Vec<char>)
    ensures
        res@ == text@,
{
    let mut res: Vec<char> = Vec::new();
    for c in iter: text.chars()
        invariant
            iter.seq() == text@,
            res@ == text@.take(iter.index() as int),
    {
        res.push(c);
    }
    res
}

/// Whether two texts are the same.
pub fn same(left: &str, right: &str) -> (res: bool)
    ensures
        res == (left@ == right@),
{
    left.to_owned() == right.to_owned()
}

/// Whether an optional text is present and is the given one.
pub fn is_text(value: &Option<String>, expected: &str) -> (res: bool)
    ensures
        res == (text_of(*value) == Some(expected@)),
{
    match value {
        Some(text) => same(text.as_str(), expected),
        None => false,
    }
}

/// Two texts, one after the other.
pub fn concat2(first: &str, second: &str) -> (res: String)
    ensures
        res@ == first@ + second@,
{
    let mut res = first.to_owned();
    res.append(second);
    res
}

/// Three texts, one after the other.
pub fn concat3(first: &str, second: &str, third: &str) -> (res: String)
    ensures
        res@ == first@ + second@ + third@,
{
    let mut res = first.to_owned();
    res.append(second);
    res.append(third);
    res
}

/// Where a text first occurs in a list, or the length of the list if it does
/// not.
pub open spec fn position(list: Seq<Seq<char>>, wanted: Seq<char>) -> int
    decreases list.len(),
{
    if list.len() == 0 || list[0] == wanted {
        0
    } else {
        1 + position(list.drop_first(), wanted)
    }
}

/// `position` is the least index that holds the text.
pub proof fn lemma_position(list: Seq<Seq<char>>, wanted: Seq<char>)
    ensures
        0 <= position(list, wanted) <= list.len(),
        position(list, wanted) < list.len() ==> list[position(list, wanted)] == wanted,
        forall|k: int| 0 <= k < position(list, wanted) ==> #[trigger] list[k] != wanted,
        position(list, wanted) < list.len() <==> list.contains(wanted),
    decreases list.len(),
{
    if list.len() > 0 && list[0] != wanted {
        let rest = list.drop_first();
        lemma_position(rest, wanted);
        assert forall|k: int| 0 <= k < position(list, wanted) implies #[trigger] list[k] != wanted by {
            if k > 0 {
                assert(rest[k - 1] == list[k]);
            }
        }
        if list.contains(wanted) {
            let k = choose|k: int| 0 <= k < list.len() && list[k] == wanted;
            assert(rest[k - 1] == wanted);
        }
    }
}

/// The least index that holds the text is its position.
pub proof fn lemma_position_is(list: Seq<Seq<char>>, wanted: Seq<char>, n: int)
    requires
        0 <= n <= list.len(),
        n < list.len() ==> list[n] == wanted,
        forall|k: int| 0 <= k < n ==> #[trigger] list[k] != wanted,
    ensures
        position(list, wanted) == n,
{
    lemma_position(list, wanted);
    let found = position(list, wanted);
    if found < n {
        assert(list[found] != wanted);
    }
}

/// Whether a text occurs in a list.
pub fn is_listed(list: &Vec<String>, wanted: &str) -> (res: bool)
    ensures
        res == texts(list@).contains(wanted@),
{
    let mut i: usize = 0;
    while i < list.len()
        invariant
            i <= list.len(),
            forall|k: int| 0 <= k < i ==> #[trigger] texts(list@)[k] != wanted@,
        decreases list.len() - i,
    {
        if same(list[i].as_str(), wanted) {
            assert(texts(list@)[i as int] == wanted@);
            return true;
        }
        i = i + 1;
    }
    false
}

// ---------------------------------------------------------------------------
// White space
// ---------------------------------------------------------------------------

/// The characters with the Unicode property `White_Space`.
pub open spec fn is_white(c: char) -> bool {
    ||| '\u{9}' <= c <= '\u{d}'
    ||| c == ' '
    ||| c == '\u{85}'
    ||| c == '\u{a0}'
    ||| c == '\u{1680}'
    ||| '\u{2000}' <= c <= '\u{200a}'
    ||| c == '\u{2028}'
    ||| c == '\u{2029}'
    ||| c == '\u{202f}'
    ||| c == '\u{205f}'
    ||| c == '\u{3000}'
}

/// Whether a character is white space.
pub fn is_white_space(c: char) -> (res: bool)
    ensures
        res == is_white(c),
{
    ('\u{9}' <= c && c <= '\u{d}') || c == ' ' || c == '\u{85}' || c == '\u{a0}' || c == '\u{1680}'
        || ('\u{2000}' <= c && c <= '\u{200a}') || c == '\u{2028}' || c == '\u{2029}'
        || c == '\u{202f}' || c == '\u{205f}' || c == '\u{3000}'
}

/// A text without the white space at its start.
pub open spec fn trimmed_start(s: Seq<char>) -> Seq<char>
    decreases s.len(),
{
    if s.len() > 0 && is_white(s[0]) {
        trimmed_start(s.drop_first())
    } else {
        s
    }
}

/// A text without the white space at its end.
pub open spec fn trimmed_end(s: Seq<char>) -> Seq<char>
    decreases s.len(),
{
    if s.len() > 0 && is_white(s.last()) {
        trimmed_end(s.drop_last())
    } else {
        s
    }
}

/// A text without the white space around it.
pub open spec fn trimmed(s: Seq<char>) -> Seq<char> {
    trimmed_end(trimmed_start(s))
}

/// A text with nothing in it but white space.
pub open spec fn is_blank(s: Seq<char>) -> bool {
    forall|i: int| 0 <= i < s.len() ==> is_white(#[trigger] s[i])
}

proof fn lemma_trimmed_end_empty(s: Seq<char>)
    ensures
        trimmed_end(s).len() <= s.len(),
        trimmed_end(s).len() == 0 <==> is_blank(s),
    decreases s.len(),
{
    if s.len() > 0 && is_white(s.last()) {
        let shorter = s.drop_last();
        lemma_trimmed_end_empty(shorter);
        assert(is_blank(s) == is_blank(shorter)) by {
            if is_blank(shorter) {
                assert forall|i: int| 0 <= i < s.len() implies is_white(#[trigger] s[i]) by {
                    if i < shorter.len() {
                        assert(shorter[i] == s[i]);
                    }
                }
            }
            if is_blank(s) {
                assert forall|i: int| 0 <= i < shorter.len() implies is_white(#[trigger] shorter[i]) by {
                    assert(shorter[i] == s[i]);
                }
            }
        }
    } else if s.len() > 0 {
        assert(!is_white(s[s.len() - 1]));
    }
}

proof fn lemma_trimmed_start_blank(s: Seq<char>)
    ensures
        is_blank(trimmed_start(s)) <==> is_blank(s),
        trimmed_start(s).len() == 0 || !is_white(trimmed_start(s)[0]),
    decreases s.len(),
{
    if s.len() > 0 && is_white(s[0]) {
        let rest = s.drop_first();
        lemma_trimmed_start_blank(rest);
        if is_blank(rest) {
            assert forall|i: int| 0 <= i < s.len() implies is_white(#[trigger] s[i]) by {
                if i > 0 {
                    assert(rest[i - 1] == s[i]);
                }
            }
        }
        if is_blank(s) {
            assert forall|i: int| 0 <= i < rest.len() implies is_white(#[trigger] rest[i]) by {
                assert(rest[i] == s[i + 1]);
            }
        }
    }
}

/// Trimming leaves nothing exactly of the texts that hold nothing but white space.
pub proof fn law_trimmed_empty_iff_blank(s: Seq<char>)
    ensures
        trimmed(s).len() == 0 <==> is_blank(s),
{
    lemma_trimmed_start_blank(s);
    lemma_trimmed_end_empty(trimmed_start(s));
}

proof fn lemma_trimmed_end_outer(s: Seq<char>)
    ensures
        trimmed_end(s).len() > 0 ==> {
            &&& !is_white(trimmed_end(s).last())
            &&& trimmed_end(s)[0] == s[0]
        },
        trimmed_end(s).len() <= s.len(),
    decreases s.len(),
{
    if s.len() > 0 && is_white(s.last()) {
        lemma_trimmed_end_outer(s.drop_last());
    }
}

/// What trimming leaves neither starts nor ends with white space, and trimming
/// it again changes nothing.
pub proof fn law_trimmed_is_stable(s: Seq<char>)
    ensures
        trimmed(s).len() > 0 ==> !is_white(trimmed(s)[0]) && !is_white(trimmed(s).last()),
        trimmed(trimmed(s)) == trimmed(s),
{
    lemma_trimmed_start_blank(s);
    lemma_trimmed_end_outer(trimmed_start(s));
}

proof fn lemma_trimmed_start_skip(s: Seq<char>, n: int)
    requires
        0 <= n <= s.len(),
        forall|i: int| 0 <= i < n ==> is_white(#[trigger] s[i]),
        n < s.len() ==> !is_white(s[n]),
    ensures
        trimmed_start(s) == s.skip(n),
    decreases n,
{
    if n > 0 {
        let rest = s.drop_first();
        assert forall|i: int| 0 <= i < n - 1 implies is_white(#[trigger] rest[i]) by {
            assert(rest[i] == s[i + 1]);
        }
        if n < s.len() {
            assert(rest[n - 1] == s[n]);
        }
        lemma_trimmed_start_skip(rest, n - 1);
        assert(is_white(s[0]));
        assert(rest.skip(n - 1) =~= s.skip(n));
    } else {
        assert(s.skip(0) =~= s);
    }
}

proof fn lemma_trimmed_end_take(s: Seq<char>, n: int)
    requires
        0 <= n <= s.len(),
        forall|i: int| n <= i < s.len() ==> is_white(#[trigger] s[i]),
        n > 0 ==> !is_white(s[n - 1]),
    ensures
        trimmed_end(s) == s.take(n),
    decreases s.len(),
{
    if n < s.len() {
        let shorter = s.drop_last();
        assert(is_white(s[s.len() - 1]));
        assert forall|i: int| n <= i < shorter.len() implies is_white(#[trigger] shorter[i]) by {
            assert(shorter[i] == s[i]);
        }
        lemma_trimmed_end_take(shorter, n);
        assert(shorter.take(n) =~= s.take(n));
    } else {
        assert(s.take(n) =~= s);
    }
}

/// Trimming takes off white space and nothing else: what stands between white
/// space, and neither starts nor ends with any, is left as it is.
pub proof fn law_trimming_leaves_the_middle(before: Seq<char>, middle: Seq<char>, after: Seq<char>)
    requires
        is_blank(before),
        is_blank(after),
        middle.len() > 0,
        !is_white(middle[0]),
        !is_white(middle.last()),
    ensures
        trimmed(before + middle + after) == middle,
{
    let s = before + middle + after;
    let n = before.len() as int;
    assert forall|i: int| 0 <= i < n implies is_white(#[trigger] s[i]) by {
        assert(before[i] == s[i]);
    }
    lemma_trimmed_start_skip(s, n);
    let rest = s.skip(n);
    let m = middle.len() as int;
    assert forall|i: int| m <= i < rest.len() implies is_white(#[trigger] rest[i]) by {
        assert(after[i - m] == rest[i]);
    }
    lemma_trimmed_end_take(rest, m);
    assert(rest.take(m) =~= middle);
}

/// A text with something before and something after it.
pub open spec fn padded(before: Seq<char>, s: Seq<char>, after: Seq<char>) -> Seq<char> {
    before + s + after
}

proof fn lemma_trimmed_start_parts(s: Seq<char>) -> (before: Seq<char>)
    ensures
        s == before + trimmed_start(s),
        is_blank(before),
    decreases s.len(),
{
    if s.len() > 0 && is_white(s[0]) {
        let rest = lemma_trimmed_start_parts(s.drop_first());
        let before = seq![s[0]] + rest;
        assert forall|i: int| 0 <= i < before.len() implies is_white(#[trigger] before[i]) by {
            if i > 0 {
                assert(before[i] == rest[i - 1]);
            }
        }
        assert(s.drop_first() == rest + trimmed_start(s));
        assert(s =~= seq![s[0]] + (rest + trimmed_start(s)));
        assert(s =~= before + trimmed_start(s));
        before
    } else {
        assert(s =~= Seq::<char>::empty() + s);
        Seq::empty()
    }
}

proof fn lemma_trimmed_end_parts(s: Seq<char>) -> (after: Seq<char>)
    ensures
        s == trimmed_end(s) + after,
        is_blank(after),
    decreases s.len(),
{
    if s.len() > 0 && is_white(s.last()) {
        let rest = lemma_trimmed_end_parts(s.drop_last());
        let after = rest.push(s.last());
        assert forall|i: int| 0 <= i < after.len() implies is_white(#[trigger] after[i]) by {
            if i < rest.len() {
                assert(after[i] == rest[i]);
            }
        }
        assert(s.drop_last() == trimmed_end(s) + rest);
        assert(s =~= (trimmed_end(s) + rest).push(s.last()));
        assert(s =~= trimmed_end(s) + after);
        after
    } else {
        assert(s =~= s + Seq::<char>::empty());
        Seq::empty()
    }
}

/// A text is what trimming leaves of it, with white space around.
pub proof fn lemma_trimmed_parts(s: Seq<char>) -> (res: (Seq<char>, Seq<char>))
    ensures
        s == padded(res.0, trimmed(s), res.1),
        is_blank(res.0),
        is_blank(res.1),
{
    let before = lemma_trimmed_start_parts(s);
    let after = lemma_trimmed_end_parts(trimmed_start(s));
    assert(s =~= before + trimmed(s) + after);
    (before, after)
}

proof fn lemma_blank_concat(left: Seq<char>, right: Seq<char>)
    requires
        is_blank(left),
        is_blank(right),
    ensures
        is_blank(left + right),
{
    let all = left + right;
    assert forall|i: int| 0 <= i < all.len() implies is_white(#[trigger] all[i]) by {
        if i < left.len() {
            assert(all[i] == left[i]);
        } else {
            assert(all[i] == right[i - left.len()]);
        }
    }
}

/// White space around a text makes no difference to what trimming leaves of it.
pub proof fn law_trimming_ignores_padding(before: Seq<char>, s: Seq<char>, after: Seq<char>)
    requires
        is_blank(before),
        is_blank(after),
    ensures
        trimmed(padded(before, s, after)) == trimmed(s),
{
    let (left, right) = lemma_trimmed_parts(s);
    lemma_blank_concat(before, left);
    lemma_blank_concat(right, after);
    let middle = trimmed(s);
    let all = padded(before, s, after);
    assert(all =~= (before + left) + middle + (right + after));
    if middle.len() > 0 {
        law_trimmed_is_stable(s);
        law_trimming_leaves_the_middle(before + left, middle, right + after);
    } else {
        lemma_blank_concat(before + left, right + after);
        assert(all =~= (before + left) + (right + after));
        law_trimmed_empty_iff_blank(all);
        assert(trimmed(all) =~= middle);
    }
}

/// A text without the white space around it.
pub fn trim(text: &str) -> (res: &str)
    ensures
        res@ == trimmed(text@),
{
    let chars = chars_of(text);
    let mut start: usize = 0;
    while start < chars.len() && is_white_space(chars[start])
        invariant
            start <= chars.len(),
            chars@ == text@,
            forall|i: int| 0 <= i < start ==> is_white(#[trigger] text@[i]),
        decreases chars.len() - start,
    {
        start = start + 1;
    }
    let mut end: usize = chars.len();
    let ghost body = text@.skip(start as int);
    while end > start && is_white_space(chars[end - 1])
        invariant
            start <= end <= chars.len(),
            chars@ == text@,
            body == text@.skip(start as int),
            forall|i: int| end - start <= i < body.len() ==> is_white(#[trigger] body[i]),
        decreases end,
    {
        end = end - 1;
    }
    proof {
        lemma_trimmed_start_skip(text@, start as int);
        lemma_trimmed_end_take(body, end - start);
        assert(body.take(end - start) =~= text@.subrange(start as int, end as int));
    }
    text.substring_char(start, end)
}

/// Whether a text holds nothing but white space.
pub fn blank(text: &str) -> (res: bool)
    ensures
        res == is_blank(text@),
{
    proof {
        law_trimmed_empty_iff_blank(text@);
    }
    trim(text).is_empty()
}

// ---------------------------------------------------------------------------
// Searching, cutting and joining
// ---------------------------------------------------------------------------

/// Whether the character occurs in the text.
pub fn contains_char(text: &str, wanted: char) -> (res: bool)
    ensures
        res == text@.contains(wanted),
{
    let chars = chars_of(text);
    let mut i: usize = 0;
    while i < chars.len()
        invariant
            i <= chars.len(),
            chars@ == text@,
            forall|k: int| 0 <= k < i ==> #[trigger] text@[k] != wanted,
        decreases chars.len() - i,
    {
        if chars[i] == wanted {
            assert(text@[i as int] == wanted);
            return true;
        }
        i = i + 1;
    }
    false
}

/// The text starts with the given character.
pub open spec fn starts_with(s: Seq<char>, c: char) -> bool {
    s.len() > 0 && s[0] == c
}

/// Whether the text starts with the given character.
pub fn starts_with_char(text: &str, wanted: char) -> (res: bool)
    ensures
        res == starts_with(text@, wanted),
{
    if text.is_empty() {
        false
    } else {
        text.get_char(0) == wanted
    }
}

pub proof fn lemma_prefix(s: Seq<char>, prefix: Seq<char>)
    ensures
        prefix.is_prefix_of(s) ==> s == prefix + s.skip(prefix.len() as int) && forall|i: int|
            0 <= i < prefix.len() ==> s[i] == #[trigger] prefix[i],
        forall|rest: Seq<char>|
            s == #[trigger] (prefix + rest) ==> prefix.is_prefix_of(s) && s.skip(
                prefix.len() as int,
            ) == rest,
{
    if prefix.is_prefix_of(s) {
        assert(s =~= prefix + s.skip(prefix.len() as int));
        assert forall|i: int| 0 <= i < prefix.len() implies s[i] == #[trigger] prefix[i] by {
            assert(s.subrange(0, prefix.len() as int)[i] == s[i]);
        }
    }
    assert forall|rest: Seq<char>| s == #[trigger] (prefix + rest) implies prefix.is_prefix_of(s)
        && s.skip(prefix.len() as int) == rest by {
        assert(prefix =~= s.subrange(0, prefix.len() as int));
        assert(s.skip(prefix.len() as int) =~= rest);
    }
}

pub proof fn lemma_suffix(s: Seq<char>, suffix: Seq<char>)
    ensures
        suffix.is_suffix_of(s) ==> s == s.take(s.len() - suffix.len()) + suffix,
        forall|rest: Seq<char>|
            s == #[trigger] (rest + suffix) ==> suffix.is_suffix_of(s) && s.take(
                s.len() - suffix.len(),
            ) == rest,
{
    if suffix.is_suffix_of(s) {
        assert(s =~= s.take(s.len() - suffix.len()) + suffix);
    }
    assert forall|rest: Seq<char>| s == #[trigger] (rest + suffix) implies suffix.is_suffix_of(s)
        && s.take(s.len() - suffix.len()) == rest by {
        assert(suffix =~= s.subrange(s.len() - suffix.len(), s.len() as int));
        assert(s.take(s.len() - suffix.len()) =~= rest);
    }
}

/// What follows the prefix, if the text starts with it.
pub fn strip_prefix<'a>(text: &'a str, prefix: &str) -> (res: Option<&'a str>)
    ensures
        match res {
            Some(rest) => text@ == prefix@ + rest@,
            None => forall|rest: Seq<char>| text@ != #[trigger] (prefix@ + rest),
        },
{
    let chars = chars_of(text);
    let wanted = chars_of(prefix);
    if wanted.len() > chars.len() {
        return None;
    }
    let mut i: usize = 0;
    while i < wanted.len()
        invariant
            i <= wanted.len() <= chars.len(),
            chars@ == text@,
            wanted@ == prefix@,
            forall|k: int| 0 <= k < i ==> #[trigger] text@[k] == prefix@[k],
        decreases wanted.len() - i,
    {
        if chars[i] != wanted[i] {
            assert forall|rest: Seq<char>| text@ != #[trigger] (prefix@ + rest) by {
                assert((prefix@ + rest)[i as int] == prefix@[i as int]);
            }
            return None;
        }
        i = i + 1;
    }
    let rest = text.substring_char(wanted.len(), chars.len());
    assert(text@ =~= prefix@ + rest@);
    Some(rest)
}

/// What stands before the suffix, if the text ends with it.
pub fn strip_suffix<'a>(text: &'a str, suffix: &str) -> (res: Option<&'a str>)
    ensures
        match res {
            Some(rest) => text@ == rest@ + suffix@,
            None => forall|rest: Seq<char>| text@ != #[trigger] (rest + suffix@),
        },
{
    let chars = chars_of(text);
    let wanted = chars_of(suffix);
    if wanted.len() > chars.len() {
        return None;
    }
    let cut: usize = chars.len() - wanted.len();
    let mut i: usize = 0;
    while i < wanted.len()
        invariant
            i <= wanted.len() <= chars.len(),
            cut == chars.len() - wanted.len(),
            chars@ == text@,
            wanted@ == suffix@,
            forall|k: int| 0 <= k < i ==> text@[cut + k] == #[trigger] suffix@[k],
        decreases wanted.len() - i,
    {
        if chars[cut + i] != wanted[i] {
            assert forall|rest: Seq<char>| text@ != #[trigger] (rest + suffix@) by {
                if text@ == rest + suffix@ {
                    assert(rest.len() == cut);
                    assert((rest + suffix@)[cut + i] == suffix@[i as int]);
                }
            }
            return None;
        }
        i = i + 1;
    }
    let rest = text.substring_char(0, cut);
    assert(text@ =~= rest@ + suffix@);
    Some(rest)
}

/// Where the character first occurs, or the length of the text if it does not.
pub open spec fn first_index(s: Seq<char>, c: char) -> int
    decreases s.len(),
{
    if s.len() == 0 || s[0] == c {
        0
    } else {
        1 + first_index(s.drop_first(), c)
    }
}

/// `first_index` is the least position that holds the character.
pub proof fn lemma_first_index(s: Seq<char>, c: char)
    ensures
        0 <= first_index(s, c) <= s.len(),
        first_index(s, c) < s.len() ==> s[first_index(s, c)] == c,
        forall|k: int| 0 <= k < first_index(s, c) ==> #[trigger] s[k] != c,
        first_index(s, c) < s.len() <==> s.contains(c),
    decreases s.len(),
{
    if s.len() > 0 && s[0] != c {
        let rest = s.drop_first();
        lemma_first_index(rest, c);
        assert forall|k: int| 0 <= k < first_index(s, c) implies #[trigger] s[k] != c by {
            if k > 0 {
                assert(rest[k - 1] == s[k]);
            }
        }
        if s.contains(c) {
            let k = choose|k: int| 0 <= k < s.len() && s[k] == c;
            assert(rest[k - 1] == c);
        }
    }
}

/// The least position that holds the character is its first index.
pub proof fn lemma_first_index_is(s: Seq<char>, c: char, n: int)
    requires
        0 <= n <= s.len(),
        n < s.len() ==> s[n] == c,
        forall|k: int| 0 <= k < n ==> #[trigger] s[k] != c,
    ensures
        first_index(s, c) == n,
{
    lemma_first_index(s, c);
    let found = first_index(s, c);
    if found < n {
        assert(s[found] != c);
    }
}

/// The parts of a text between the occurrences of a separator. There is always
/// at least one.
pub open spec fn pieces(s: Seq<char>, sep: char) -> Seq<Seq<char>>
    decreases s.len(),
{
    if s.contains(sep) && 0 <= first_index(s, sep) < s.len() {
        let at = first_index(s, sep);
        seq![s.take(at)] + pieces(s.skip(at + 1), sep)
    } else {
        seq![s]
    }
}

/// Texts put together in order, with a separator between neighbours.
pub open spec fn joined(list: Seq<Seq<char>>, sep: Seq<char>) -> Seq<char>
    decreases list.len(),
{
    if list.len() == 0 {
        Seq::empty()
    } else if list.len() == 1 {
        list[0]
    } else {
        list[0] + sep + joined(list.drop_first(), sep)
    }
}

/// Joining the pieces of a text gives the text back, and no piece holds the
/// separator.
pub proof fn law_pieces_rejoin(s: Seq<char>, sep: char)
    ensures
        pieces(s, sep).len() > 0,
        joined(pieces(s, sep), seq![sep]) == s,
        forall|i: int| 0 <= i < pieces(s, sep).len() ==> !(#[trigger] pieces(s, sep)[i]).contains(sep),
    decreases s.len(),
{
    lemma_first_index(s, sep);
    if s.contains(sep) {
        let at = first_index(s, sep);
        let rest = s.skip(at + 1);
        law_pieces_rejoin(rest, sep);
        let all = pieces(s, sep);
        assert(all.drop_first() =~= pieces(rest, sep));
        assert(all[0] == s.take(at));
        assert(s =~= s.take(at) + seq![sep] + rest);
        assert(!all[0].contains(sep)) by {
            if all[0].contains(sep) {
                let k = choose|k: int| 0 <= k < at && s.take(at)[k] == sep;
                assert(s[k] == sep);
            }
        }
        assert forall|i: int| 0 <= i < all.len() implies !(#[trigger] all[i]).contains(sep) by {
            if i > 0 {
                assert(all[i] == pieces(rest, sep)[i - 1]);
            }
        }
    } else {
        assert(pieces(s, sep)[0] == s);
    }
}

/// Cutting what was joined gives the joined texts back, if there is at least
/// one and none of them holds the separator.
pub proof fn law_joined_pieces(list: Seq<Seq<char>>, sep: char)
    requires
        list.len() > 0,
        forall|i: int| 0 <= i < list.len() ==> !(#[trigger] list[i]).contains(sep),
    ensures
        pieces(joined(list, seq![sep]), sep) == list,
    decreases list.len(),
{
    let s = joined(list, seq![sep]);
    let head = list[0];
    if list.len() == 1 {
        assert(!head.contains(sep));
        assert(list =~= seq![head]);
    } else {
        let tail = list.drop_first();
        assert forall|i: int| 0 <= i < tail.len() implies !(#[trigger] tail[i]).contains(sep) by {
            assert(tail[i] == list[i + 1]);
        }
        law_joined_pieces(tail, sep);
        let rest = joined(tail, seq![sep]);
        assert(s == head + seq![sep] + rest);
        let at = head.len() as int;
        assert(s[at] == sep);
        assert forall|k: int| 0 <= k < at implies #[trigger] s[k] != sep by {
            assert(s[k] == head[k]);
            assert(!head.contains(sep));
        }
        lemma_first_index_is(s, sep, at);
        assert(s.contains(sep));
        assert(s.take(at) =~= head);
        assert(s.skip(at + 1) =~= rest);
        assert(seq![head] + tail =~= list);
    }
}

/// The texts of a list of string slices.
pub open spec fn str_texts(list: Seq<&str>) -> Seq<Seq<char>> {
    list.map_values(|s: &str| s@)
}

/// Cuts a text at every occurrence of a separator.
pub fn split<'a>(text: &'a str, sep: char) -> (res: Vec<&'a str>)
    ensures
        str_texts(res@) == pieces(text@, sep),
{
    let chars = chars_of(text);
    let mut res: Vec<&'a str> = Vec::new();
    let mut start: usize = 0;
    let mut i: usize = 0;
    assert(text@.skip(0) =~= text@);
    while i < chars.len()
        invariant
            start <= i <= chars.len(),
            chars@ == text@,
            forall|k: int| start <= k < i ==> #[trigger] text@[k] != sep,
            pieces(text@, sep) =~= str_texts(res@) + pieces(text@.skip(start as int), sep),
        decreases chars.len() - i,
    {
        if chars[i] == sep {
            let piece = text.substring_char(start, i);
            let ghost before = res@;
            let ghost rest = text@.skip(start as int);
            res.push(piece);
            proof {
                let at = i - start;
                assert(rest[at] == sep);
                assert forall|k: int| 0 <= k < at implies #[trigger] rest[k] != sep by {
                    assert(rest[k] == text@[start + k]);
                }
                lemma_first_index_is(rest, sep, at);
                assert(rest.contains(sep));
                assert(rest.take(at) =~= piece@);
                assert(rest.skip(at + 1) =~= text@.skip(i + 1));
                assert(str_texts(res@) =~= str_texts(before) + seq![piece@]);
            }
            start = i + 1;
        }
        i = i + 1;
    }
    let piece = text.substring_char(start, chars.len());
    let ghost before = res@;
    let ghost rest = text@.skip(start as int);
    res.push(piece);
    proof {
        assert(piece@ =~= rest);
        assert(!rest.contains(sep)) by {
            if rest.contains(sep) {
                let k = choose|k: int| 0 <= k < rest.len() && rest[k] == sep;
                assert(text@[start + k] == sep);
            }
        }
        assert(str_texts(res@) =~= str_texts(before) + seq![piece@]);
    }
    res
}

/// What stands before and after the first occurrence of the separator.
pub fn split_once<'a>(text: &'a str, sep: char) -> (res: Option<(&'a str, &'a str)>)
    ensures
        match res {
            Some((head, tail)) => text@ == head@ + seq![sep] + tail@ && !head@.contains(sep),
            None => !text@.contains(sep),
        },
{
    let chars = chars_of(text);
    let mut i: usize = 0;
    while i < chars.len()
        invariant
            i <= chars.len(),
            chars@ == text@,
            forall|k: int| 0 <= k < i ==> #[trigger] text@[k] != sep,
        decreases chars.len() - i,
    {
        if chars[i] == sep {
            let head = text.substring_char(0, i);
            let tail = text.substring_char(i + 1, chars.len());
            assert(text@ =~= head@ + seq![sep] + tail@);
            assert forall|k: int| 0 <= k < head@.len() implies #[trigger] head@[k] != sep by {
                assert(head@[k] == text@[k]);
            }
            return Some((head, tail));
        }
        i = i + 1;
    }
    None
}

/// Puts texts together in order, with a separator between neighbours.
pub fn join(list: &Vec<String>, sep: &str) -> (res: String)
    ensures
        res@ == joined(texts(list@), sep@),
{
    let mut res = String::new();
    let mut i: usize = 0;
    let ghost all = texts(list@);
    assert(all.skip(0) =~= all);
    while i < list.len()
        invariant
            i <= list.len(),
            all == texts(list@),
            i == 0 ==> res@ =~= Seq::<char>::empty(),
            0 < i < list.len() ==> joined(all, sep@) == res@ + sep@ + joined(all.skip(i as int), sep@),
            0 < i == list.len() ==> joined(all, sep@) == res@,
        decreases list.len() - i,
    {
        let ghost rest = all.skip(i as int);
        let ghost before = res@;
        if i > 0 {
            res.append(sep);
        }
        res.append(list[i].as_str());
        proof {
            assert(rest[0] == list@[i as int]@);
            assert(rest.drop_first() =~= all.skip(i + 1));
            if i == 0 {
                assert(rest =~= all);
                assert(res@ =~= rest[0]);
            }
            if i + 1 < list.len() {
                assert(joined(rest, sep@) == rest[0] + sep@ + joined(all.skip(i + 1), sep@));
                assert(joined(all, sep@) =~= res@ + sep@ + joined(all.skip(i + 1), sep@));
            } else {
                assert(joined(rest, sep@) == rest[0]);
                assert(joined(all, sep@) =~= res@);
            }
        }
        i = i + 1;
    }
    res
}

/// A text cut to its first `limit` characters.
pub open spec fn truncated(s: Seq<char>, limit: nat) -> Seq<char> {
    if s.len() <= limit {
        s
    } else {
        s.take(limit as int)
    }
}

/// Cuts a text to its first `limit` characters.
pub fn truncate_chars(text: &str, limit: usize) -> (res: &str)
    ensures
        res@ == truncated(text@, limit as nat),
{
    if text.unicode_len() <= limit {
        text
    } else {
        text.substring_char(0, limit)
    }
}

/// A truncated text is the start of the text, holds at most `limit` characters and
/// no fewer than it can, and is the text itself where that is short enough.
pub proof fn law_truncation_bounds(s: Seq<char>, limit: nat)
    ensures
        truncated(s, limit).len() <= limit,
        truncated(s, limit).is_prefix_of(s),
        s.len() <= limit ==> truncated(s, limit) == s,
        s.len() >= limit ==> truncated(s, limit).len() == limit,
{
}

/// The character in lower case, if it is an ASCII letter.
pub open spec fn ascii_lower(c: char) -> char {
    if 'A' <= c <= 'Z' {
        (c as u8 + 32) as char
    } else {
        c
    }
}

/// A text with its ASCII letters in lower case.
pub fn to_ascii_lowercase(text: &str) -> (res: String)
    ensures
        res@ == text@.map_values(|c: char| ascii_lower(c)),
{
    let chars = chars_of(text);
    let mut res = String::new();
    let mut i: usize = 0;
    while i < chars.len()
        invariant
            i <= chars.len(),
            chars@ == text@,
            res@ =~= text@.take(i as int).map_values(|c: char| ascii_lower(c)),
        decreases chars.len() - i,
    {
        let c = chars[i];
        if 'A' <= c && c <= 'Z' {
            res.push((c as u8 + 32) as char);
        } else {
            res.push(c);
        }
        i = i + 1;
    }
    assert(text@.take(i as int) =~= text@);
    res
}

/// A text without the run of a character at its end.
pub open spec fn without_trailing(s: Seq<char>, c: char) -> Seq<char>
    decreases s.len(),
{
    if s.len() > 0 && s.last() == c {
        without_trailing(s.drop_last(), c)
    } else {
        s
    }
}

/// Drops every occurrence of a character at the end of a text.
pub fn trim_end_char(text: &str, c: char) -> (res: &str)
    ensures
        res@ == without_trailing(text@, c),
{
    let chars = chars_of(text);
    let mut end: usize = chars.len();
    assert(text@.take(end as int) =~= text@);
    while end > 0 && chars[end - 1] == c
        invariant
            end <= chars.len(),
            chars@ == text@,
            without_trailing(text@, c) == without_trailing(text@.take(end as int), c),
        decreases end,
    {
        assert(text@.take(end as int).drop_last() =~= text@.take(end - 1));
        end = end - 1;
    }
    assert(text@.take(end as int) =~= text@.subrange(0, end as int));
    text.substring_char(0, end)
}

/// One more text is joined by a separator and the text, after all the others.
pub proof fn law_joining_one_more(list: Seq<Seq<char>>, last: Seq<char>, sep: Seq<char>)
    ensures
        joined(list.push(last), sep) == if list.len() == 0 {
            last
        } else {
            joined(list, sep) + sep + last
        },
    decreases list.len(),
{
    let longer = list.push(last);
    if list.len() == 1 {
        assert(longer.drop_first() =~= seq![last]);
        assert(joined(seq![last], sep) == last);
    } else if list.len() > 1 {
        let rest = list.drop_first();
        law_joining_one_more(rest, last, sep);
        assert(longer.drop_first() =~= rest.push(last));
        assert(joined(longer, sep) =~= joined(list, sep) + sep + last);
    }
}

/// What is cut off at the end is nothing but the character, and all of it.
pub proof fn law_trailing_run_is_cut_off(s: Seq<char>, c: char)
    ensures
        without_trailing(s, c).is_prefix_of(s),
        forall|i: int| without_trailing(s, c).len() <= i < s.len() ==> #[trigger] s[i] == c,
        without_trailing(s, c).len() > 0 ==> without_trailing(s, c).last() != c,
    decreases s.len(),
{
    if s.len() > 0 && s.last() == c {
        let shorter = s.drop_last();
        law_trailing_run_is_cut_off(shorter, c);
        let rest = without_trailing(s, c);
        assert(rest =~= s.subrange(0, rest.len() as int));
        assert forall|i: int| rest.len() <= i < s.len() implies #[trigger] s[i] == c by {
            if i < shorter.len() {
                assert(shorter[i] == s[i]);
            }
        }
    } else {
        assert(s =~= s.subrange(0, s.len() as int));
    }
}

} // verus!
