//! Text operations with exact contracts over sequences of characters.

use vstd::prelude::*;

verus! {

/// The characters with the Unicode property `White_Space`.
pub open spec fn is_space(c: char) -> bool {
    ||| 9 <= c as int <= 13
    ||| c as int == 0x20
    ||| c as int == 0x85
    ||| c as int == 0xA0
    ||| c as int == 0x1680
    ||| 0x2000 <= c as int <= 0x200A
    ||| c as int == 0x2028
    ||| c as int == 0x2029
    ||| c as int == 0x202F
    ||| c as int == 0x205F
    ||| c as int == 0x3000
}

/// `s` without the whitespace at its start.
pub open spec fn trimmed_start(s: Seq<char>) -> Seq<char>
    decreases s.len(),
{
    if s.len() > 0 && is_space(s[0]) {
        trimmed_start(s.drop_first())
    } else {
        s
    }
}

/// `s` without the whitespace at its end.
pub open spec fn trimmed_end(s: Seq<char>) -> Seq<char>
    decreases s.len(),
{
    if s.len() > 0 && is_space(s.last()) {
        trimmed_end(s.drop_last())
    } else {
        s
    }
}

/// `s` without the whitespace at both ends.
pub open spec fn trimmed(s: Seq<char>) -> Seq<char> {
    trimmed_start(trimmed_end(s))
}

/// The rest of `s` behind `prefix`, where `s` starts with it.
pub open spec fn stripped(s: Seq<char>, prefix: Seq<char>) -> Option<Seq<char>> {
    if prefix.is_prefix_of(s) {
        Some(s.skip(prefix.len() as int))
    } else {
        None
    }
}

/// `part` stands in `s` at position `at`.
pub open spec fn occurs_at(s: Seq<char>, part: Seq<char>, at: int) -> bool {
    0 <= at <= s.len() - part.len() && s.subrange(at, at + part.len()) == part
}

/// `part` stands somewhere in `s`.
pub open spec fn has_part(s: Seq<char>, part: Seq<char>) -> bool {
    exists|at: int| occurs_at(s, part, at)
}

/// `at` is the leftmost position of `part` in `s`.
pub open spec fn is_first(s: Seq<char>, part: Seq<char>, at: int) -> bool {
    occurs_at(s, part, at) && forall|j: int| j < at ==> !occurs_at(s, part, j)
}

/// `at` is the rightmost position of `part` in `s`.
pub open spec fn is_last(s: Seq<char>, part: Seq<char>, at: int) -> bool {
    occurs_at(s, part, at) && forall|j: int| j > at ==> !occurs_at(s, part, j)
}

/// What stands before and behind the leftmost `part` in `s`.
pub open spec fn split_first(s: Seq<char>, part: Seq<char>) -> Option<(Seq<char>, Seq<char>)> {
    if has_part(s, part) {
        let at = choose|at: int| is_first(s, part, at);
        Some((s.take(at), s.skip(at + part.len())))
    } else {
        None
    }
}

/// What stands before and behind the rightmost `part` in `s`.
pub open spec fn split_last(s: Seq<char>, part: Seq<char>) -> Option<(Seq<char>, Seq<char>)> {
    if has_part(s, part) {
        let at = choose|at: int| is_last(s, part, at);
        Some((s.take(at), s.skip(at + part.len())))
    } else {
        None
    }
}

/// The number of characters before the first whitespace of `s`.
pub open spec fn word_length(s: Seq<char>) -> nat
    decreases s.len(),
{
    if s.len() == 0 || is_space(s[0]) {
        0
    } else {
        1 + word_length(s.drop_first())
    }
}

/// The runs of characters between whitespace, from left to right.
pub open spec fn words(s: Seq<char>) -> Seq<Seq<char>>
    decreases s.len(),
    via words_decreases
{
    let t = trimmed_start(s);
    if t.len() == 0 {
        seq![]
    } else {
        seq![t.take(word_length(t) as int)] + words(t.skip(word_length(t) as int))
    }
}

#[via_fn]
proof fn words_decreases(s: Seq<char>) {
    let t = trimmed_start(s);
    lemma_trimmed_start_shorter(s);
    if t.len() > 0 {
        assert(word_length(t) >= 1) by {
            lemma_trimmed_start_head(s);
        }
        lemma_word_length(t);
    }
}

pub proof fn lemma_trimmed_start_shorter(s: Seq<char>)
    ensures
        trimmed_start(s).len() <= s.len(),
    decreases s.len(),
{
    if s.len() > 0 && is_space(s[0]) {
        lemma_trimmed_start_shorter(s.drop_first());
    }
}

proof fn lemma_trimmed_start_head(s: Seq<char>)
    ensures
        trimmed_start(s).len() > 0 ==> !is_space(trimmed_start(s)[0]),
    decreases s.len(),
{
    if s.len() > 0 && is_space(s[0]) {
        lemma_trimmed_start_head(s.drop_first());
    }
}

proof fn lemma_word_length(s: Seq<char>)
    ensures
        word_length(s) <= s.len(),
    decreases s.len(),
{
    if s.len() > 0 && !is_space(s[0]) {
        lemma_word_length(s.drop_first());
    }
}

/// `s` holds no whitespace.
pub open spec fn is_word(s: Seq<char>) -> bool {
    forall|i: int| 0 <= i < s.len() ==> !is_space(#[trigger] s[i])
}

proof fn lemma_word_length_of(word: Seq<char>, rest: Seq<char>)
    requires
        is_word(word),
        rest.len() == 0 || is_space(rest[0]),
    ensures
        word_length(word + rest) == word.len(),
    decreases word.len(),
{
    let s = word + rest;
    if word.len() > 0 {
        assert(s[0] == word[0]);
        assert(s.drop_first() =~= word.drop_first() + rest);
        lemma_word_length_of(word.drop_first(), rest);
    } else {
        assert(s =~= rest);
    }
}

/// A word and a space before other words.
pub proof fn lemma_first_word(word: Seq<char>, rest: Seq<char>)
    requires
        word.len() > 0,
        is_word(word),
    ensures
        words(word + seq![' '] + rest) == seq![word] + words(rest),
{
    let s = word + seq![' '] + rest;
    let behind = seq![' '] + rest;
    assert(s =~= word + behind);
    assert(s[0] == word[0]);
    assert(behind[0] == ' ');
    lemma_word_length_of(word, behind);
    assert(s.take(word.len() as int) =~= word);
    assert(s.skip(word.len() as int) =~= behind);
    assert(behind.drop_first() =~= rest);
    assert(trimmed_start(behind) == trimmed_start(rest));
    assert(words(behind) == words(rest));
}

/// A word alone.
pub proof fn lemma_only_word(word: Seq<char>)
    requires
        word.len() > 0,
        is_word(word),
    ensures
        words(word) == seq![word],
{
    reveal_with_fuel(words, 2);
    assert(word =~= word + seq![]);
    lemma_word_length_of(word, seq![]);
    assert(!is_space(word[0]));
    assert(word.take(word.len() as int) =~= word);
    assert(word.skip(word.len() as int) =~= seq![]);
    assert(words(seq![]) =~= seq![]);
}

/// Whether `c` is whitespace.
pub fn whitespace(c: char) -> (res: bool)
    ensures
        res == is_space(c),
{
    let code: u32 = c as u32;
    (9 <= code && code <= 13) || code == 0x20 || code == 0x85 || code == 0xA0 || code == 0x1680 || (
    0x2000 <= code && code <= 0x200A) || code == 0x2028 || code == 0x2029 || code == 0x202F || code
        == 0x205F || code == 0x3000
}

/// The characters of `s`.
pub fn characters(s: &str) -> (res: Vec<char>)
    ensures
        res@ == s@,
{
    let mut res: Vec<char> = Vec::new();
    for c in it: s.chars()
        invariant
            res@ == s@.take(it.index() as int),
            it.seq() == s@,
    {
        res.push(c);
    }
    res
}

/// The view of an optional text.
pub open spec fn text_of(text: Option<&str>) -> Option<Seq<char>> {
    match text {
        Some(t) => Some(t@),
        None => None,
    }
}

/// The view of an optional pair of texts.
pub open spec fn pair_of(pair: Option<(&str, &str)>) -> Option<(Seq<char>, Seq<char>)> {
    match pair {
        Some(p) => Some((p.0@, p.1@)),
        None => None,
    }
}

/// The views of a list of texts.
pub open spec fn texts(list: Seq<String>) -> Seq<Seq<char>> {
    Seq::new(list.len(), |i: int| list[i]@)
}

/// Whether two texts are the same.
pub fn same_text(a: &str, b: &str) -> (res: bool)
    ensures
        res == (a@ == b@),
{
    let left: String = a.to_owned();
    let right: String = b.to_owned();
    left == right
}

/// Whether `part` stands in `chars` at `at`.
fn stands_at(chars: &Vec<char>, part: &Vec<char>, at: usize) -> (res: bool)
    ensures
        res == occurs_at(chars@, part@, at as int),
{
    if at > chars.len() || part.len() > chars.len() - at {
        return false;
    }
    let mut i: usize = 0;
    while i < part.len()
        invariant
            i <= part.len(),
            at + part.len() <= chars.len(),
            forall|k: int| 0 <= k < i ==> chars@[at + k] == part@[k],
        decreases part.len() - i,
    {
        if chars[at + i] != part[i] {
            proof {
                assert(chars@.subrange(at as int, at + part.len())[i as int] != part@[i as int]);
            }
            return false;
        }
        i += 1;
    }
    proof {
        assert(chars@.subrange(at as int, at + part.len()) =~= part@);
    }
    true
}

proof fn lemma_prefix_occurs(s: Seq<char>, prefix: Seq<char>)
    ensures
        prefix.is_prefix_of(s) <==> occurs_at(s, prefix, 0),
{
    if prefix.is_prefix_of(s) {
        assert(s.subrange(0, prefix.len() as int) =~= prefix);
    }
}

/// Whether `s` starts with `prefix`.
pub fn starts_with(s: &str, prefix: &str) -> (res: bool)
    ensures
        res == prefix@.is_prefix_of(s@),
{
    let chars = characters(s);
    let part = characters(prefix);
    proof {
        lemma_prefix_occurs(s@, prefix@);
    }
    stands_at(&chars, &part, 0)
}

/// The rest of `s` behind `prefix`, if `s` starts with it.
pub fn strip_prefix<'a>(s: &'a str, prefix: &str) -> (res: Option<&'a str>)
    ensures
        text_of(res) == stripped(s@, prefix@),
{
    if !starts_with(s, prefix) {
        return None;
    }
    let from = prefix.unicode_len();
    let to = s.unicode_len();
    Some(s.substring_char(from, to))
}

/// The leftmost position of `part` in `chars`.
fn find_first(chars: &Vec<char>, part: &Vec<char>) -> (res: Option<usize>)
    ensures
        match res {
            Some(at) => is_first(chars@, part@, at as int),
            None => !has_part(chars@, part@),
        },
{
    let mut at: usize = 0;
    while at <= chars.len()
        invariant
            at <= chars.len() + 1,
            forall|j: int| j < at ==> !occurs_at(chars@, part@, j),
        decreases chars.len() + 1 - at,
    {
        if stands_at(chars, part, at) {
            return Some(at);
        }
        if at == chars.len() {
            return None;
        }
        at += 1;
    }
    None
}

/// The rightmost position of `part` in `chars`.
fn find_last(chars: &Vec<char>, part: &Vec<char>) -> (res: Option<usize>)
    ensures
        match res {
            Some(at) => is_last(chars@, part@, at as int),
            None => !has_part(chars@, part@),
        },
{
    let mut at: usize = chars.len();
    loop
        invariant
            at <= chars.len(),
            forall|j: int| j > at ==> !occurs_at(chars@, part@, j),
        decreases at,
    {
        if stands_at(chars, part, at) {
            return Some(at);
        }
        if at == 0 {
            return None;
        }
        at -= 1;
    }
}

/// Whether `part` stands somewhere in `s`.
pub fn contains(s: &str, part: &str) -> (res: bool)
    ensures
        res == has_part(s@, part@),
{
    let chars = characters(s);
    let wanted = characters(part);
    match find_first(&chars, &wanted) {
        Some(_) => true,
        None => false,
    }
}

/// What stands before and behind the leftmost `part` in `s`.
pub fn split_once<'a>(s: &'a str, part: &str) -> (res: Option<(&'a str, &'a str)>)
    ensures
        pair_of(res) == split_first(s@, part@),
{
    let chars = characters(s);
    let wanted = characters(part);
    match find_first(&chars, &wanted) {
        Some(at) => {
            proof {
                lemma_split_first(s@, part@, at as int);
                assert(occurs_at(chars@, wanted@, at as int));
            }
            let head = s.substring_char(0, at);
            let total = chars.len();
            let tail = s.substring_char(at + wanted.len(), total);
            Some((head, tail))
        },
        None => None,
    }
}

/// What stands before and behind the rightmost `part` in `s`.
pub fn rsplit_once<'a>(s: &'a str, part: &str) -> (res: Option<(&'a str, &'a str)>)
    ensures
        pair_of(res) == split_last(s@, part@),
{
    let chars = characters(s);
    let wanted = characters(part);
    match find_last(&chars, &wanted) {
        Some(at) => {
            proof {
                lemma_split_last(s@, part@, at as int);
                assert(occurs_at(chars@, wanted@, at as int));
            }
            let head = s.substring_char(0, at);
            let total = chars.len();
            let tail = s.substring_char(at + wanted.len(), total);
            Some((head, tail))
        },
        None => None,
    }
}

/// The split at the leftmost `part` is the one at its first position.
pub proof fn lemma_split_first(s: Seq<char>, part: Seq<char>, at: int)
    requires
        is_first(s, part, at),
    ensures
        split_first(s, part) == Some((s.take(at), s.skip(at + part.len()))),
{
    let other = choose|other: int| is_first(s, part, other);
    assert(occurs_at(s, part, other));
    assert(other == at);
}

/// The split at the rightmost `part` is the one at its last position.
pub proof fn lemma_split_last(s: Seq<char>, part: Seq<char>, at: int)
    requires
        is_last(s, part, at),
    ensures
        split_last(s, part) == Some((s.take(at), s.skip(at + part.len()))),
{
    let other = choose|other: int| is_last(s, part, other);
    assert(occurs_at(s, part, other));
    assert(other == at);
}

/// How many characters of `chars` stand before its trailing whitespace.
fn end_of_text(chars: &Vec<char>) -> (res: usize)
    ensures
        res <= chars.len(),
        chars@.take(res as int) == trimmed_end(chars@),
{
    let mut end: usize = chars.len();
    proof {
        assert(chars@.take(end as int) =~= chars@);
    }
    while end > 0 && whitespace(chars[end - 1])
        invariant
            end <= chars.len(),
            trimmed_end(chars@.take(end as int)) == trimmed_end(chars@),
        decreases end,
    {
        proof {
            assert(chars@.take(end as int).drop_last() =~= chars@.take(end - 1));
        }
        end -= 1;
    }
    proof {
        if end > 0 {
            assert(chars@.take(end as int).last() == chars@[end - 1]);
        }
    }
    end
}

/// How many characters of whitespace stand at the start of the first `end` of `chars`.
fn start_of_text(chars: &Vec<char>, end: usize) -> (res: usize)
    requires
        end <= chars.len(),
    ensures
        res <= end,
        chars@.subrange(res as int, end as int) == trimmed_start(chars@.take(end as int)),
{
    let mut start: usize = 0;
    proof {
        assert(chars@.subrange(0, end as int) =~= chars@.take(end as int));
    }
    while start < end && whitespace(chars[start])
        invariant
            start <= end <= chars.len(),
            trimmed_start(chars@.subrange(start as int, end as int)) == trimmed_start(
                chars@.take(end as int),
            ),
        decreases end - start,
    {
        proof {
            assert(chars@.subrange(start as int, end as int).drop_first() =~= chars@.subrange(
                start + 1,
                end as int,
            ));
        }
        start += 1;
    }
    start
}

/// `s` without the whitespace at its end.
pub fn trim_end<'a>(s: &'a str) -> (res: &'a str)
    ensures
        res@ == trimmed_end(s@),
{
    let chars = characters(s);
    let end = end_of_text(&chars);
    s.substring_char(0, end)
}

/// `s` without the whitespace at both ends.
pub fn trim<'a>(s: &'a str) -> (res: &'a str)
    ensures
        res@ == trimmed(s@),
{
    let chars = characters(s);
    let end = end_of_text(&chars);
    let start = start_of_text(&chars, end);
    s.substring_char(start, end)
}

/// The first of `parts` that starts with `name`, without that start.
pub open spec fn first_stripped(parts: Seq<Seq<char>>, name: Seq<char>) -> Option<Seq<char>>
    decreases parts.len(),
{
    if parts.len() == 0 {
        None
    } else if name.is_prefix_of(parts[0]) {
        stripped(parts[0], name)
    } else {
        first_stripped(parts.drop_first(), name)
    }
}

/// What stands behind `name` in the first word of `line` that starts with it.
pub fn word_after<'a>(line: &'a str, name: &str) -> (res: Option<&'a str>)
    ensures
        text_of(res) == first_stripped(words(line@), name@),
{
    let chars = characters(line);
    let wanted = characters(name);
    let len = chars.len();
    let mut at: usize = 0;
    proof {
        assert(line@.skip(0) =~= line@);
    }
    loop
        invariant
            chars@ == line@,
            wanted@ == name@,
            len == chars.len(),
            at <= len,
            first_stripped(words(line@.skip(at as int)), name@) == first_stripped(
                words(line@),
                name@,
            ),
        decreases len - at,
    {
        let ghost rest = line@.skip(at as int);
        let mut start: usize = at;
        while start < len && whitespace(chars[start])
            invariant
                chars@ == line@,
                len == chars.len(),
                at <= start <= len,
                trimmed_start(line@.skip(start as int)) == trimmed_start(rest),
            decreases len - start,
        {
            proof {
                assert(line@.skip(start as int).drop_first() =~= line@.skip(start + 1));
            }
            start += 1;
        }
        let ghost t = line@.skip(start as int);
        proof {
            assert(trimmed_start(rest) == t);
        }
        if start == len {
            return None;
        }
        let mut end: usize = start;
        while end < len && !whitespace(chars[end])
            invariant
                chars@ == line@,
                len == chars.len(),
                start <= end <= len,
                t == line@.skip(start as int),
                word_length(t) == (end - start) + word_length(line@.skip(end as int)),
            decreases len - end,
        {
            proof {
                assert(line@.skip(end as int).drop_first() =~= line@.skip(end + 1));
            }
            end += 1;
        }
        let word = line.substring_char(start, end);
        proof {
            assert(word_length(line@.skip(end as int)) == 0);
            assert(word@ =~= t.take(end - start));
            assert(t.skip(end - start) =~= line@.skip(end as int));
            assert(words(rest) == seq![word@] + words(line@.skip(end as int)));
            assert(words(rest)[0] == word@);
            assert(words(rest).drop_first() =~= words(line@.skip(end as int)));
            assert(end > start) by {
                assert(!is_space(t[0]));
            }
        }
        if starts_with(word, name) {
            return strip_prefix(word, name);
        }
        at = end;
    }
}

/// A letter of the ASCII alphabet in upper case; any other character as it is.
pub open spec fn ascii_upper(c: char) -> char {
    if 97 <= c as int <= 122 {
        (c as int - 32) as char
    } else {
        c
    }
}

/// Two texts are the same but for the case of ASCII letters.
pub open spec fn same_but_case(a: Seq<char>, b: Seq<char>) -> bool {
    a.len() == b.len() && forall|i: int|
        0 <= i < a.len() ==> ascii_upper(#[trigger] a[i]) == ascii_upper(b[i])
}

/// Whether two characters are the same but for the case of ASCII letters.
fn same_letter(a: char, b: char) -> (res: bool)
    ensures
        res == (ascii_upper(a) == ascii_upper(b)),
{
    let x: u32 = a as u32;
    let y: u32 = b as u32;
    let upper_x: u32 = if 97 <= x && x <= 122 {
        x - 32
    } else {
        x
    };
    let upper_y: u32 = if 97 <= y && y <= 122 {
        y - 32
    } else {
        y
    };
    upper_x == upper_y
}

/// Whether two texts are the same but for the case of ASCII letters.
pub fn same_ignoring_case(a: &str, b: &str) -> (res: bool)
    ensures
        res == same_but_case(a@, b@),
{
    let left = characters(a);
    let right = characters(b);
    if left.len() != right.len() {
        return false;
    }
    let mut i: usize = 0;
    while i < left.len()
        invariant
            left@ == a@,
            right@ == b@,
            i <= left.len(),
            left.len() == right.len(),
            forall|k: int|
                0 <= k < i ==> ascii_upper(#[trigger] left@[k]) == ascii_upper(right@[k]),
        decreases left.len() - i,
    {
        if !same_letter(left[i], right[i]) {
            proof {
                assert(ascii_upper(a@[i as int]) != ascii_upper(b@[i as int]));
            }
            return false;
        }
        i += 1;
    }
    true
}

/// The texts of a list, with `between` between each two.
pub open spec fn joined(list: Seq<Seq<char>>, between: Seq<char>) -> Seq<char>
    decreases list.len(),
{
    if list.len() == 0 {
        seq![]
    } else if list.len() == 1 {
        list[0]
    } else {
        joined(list.drop_last(), between) + between + list.last()
    }
}

/// The texts of a list, with `between` between each two.
pub fn join(list: &Vec<String>, between: &str) -> (res: String)
    ensures
        res@ == joined(texts(list@), between@),
{
    let mut text: String = String::new();
    let mut i: usize = 0;
    while i < list.len()
        invariant
            i <= list.len(),
            text@ == joined(texts(list@).take(i as int), between@),
        decreases list.len() - i,
    {
        let ghost before = texts(list@).take(i as int);
        if i > 0 {
            text.append(between);
        }
        text.append(list[i].as_str());
        i += 1;
        proof {
            let now = texts(list@).take(i as int);
            assert(now.drop_last() =~= before);
            assert(now.last() == list@[i - 1]@);
            assert(text@ =~= joined(now, between@));
        }
    }
    proof {
        assert(texts(list@).take(i as int) =~= texts(list@));
    }
    text
}

/// The first text of a list that starts with `prefix`.
pub open spec fn first_with(list: Seq<Seq<char>>, prefix: Seq<char>) -> Option<Seq<char>>
    decreases list.len(),
{
    if list.len() == 0 {
        None
    } else if prefix.is_prefix_of(list[0]) {
        Some(list[0])
    } else {
        first_with(list.drop_first(), prefix)
    }
}

/// The first text of a list that starts with `prefix`.
pub fn find_prefix<'a>(list: &'a Vec<String>, prefix: &str) -> (res: Option<&'a str>)
    ensures
        text_of(res) == first_with(texts(list@), prefix@),
{
    let mut i: usize = 0;
    proof {
        assert(texts(list@).skip(0) =~= texts(list@));
    }
    while i < list.len()
        invariant
            i <= list.len(),
            first_with(texts(list@).skip(i as int), prefix@) == first_with(texts(list@), prefix@),
        decreases list.len() - i,
    {
        proof {
            assert(texts(list@).skip(i as int).drop_first() =~= texts(list@).skip(i + 1));
        }
        if starts_with(list[i].as_str(), prefix) {
            return Some(list[i].as_str());
        }
        i += 1;
    }
    None
}

/// What stands behind `prefix` in the first text of a list that starts with it.
pub fn find_stripped<'a>(list: &'a Vec<String>, prefix: &str) -> (res: Option<&'a str>)
    ensures
        text_of(res) == first_stripped(texts(list@), prefix@),
{
    let mut i: usize = 0;
    proof {
        assert(texts(list@).skip(0) =~= texts(list@));
    }
    while i < list.len()
        invariant
            i <= list.len(),
            first_stripped(texts(list@).skip(i as int), prefix@) == first_stripped(
                texts(list@),
                prefix@,
            ),
        decreases list.len() - i,
    {
        proof {
            assert(texts(list@).skip(i as int).drop_first() =~= texts(list@).skip(i + 1));
        }
        if let Some(rest) = strip_prefix(list[i].as_str(), prefix) {
            return Some(rest);
        }
        i += 1;
    }
    None
}

/// Some text of a list holds `part`.
pub open spec fn any_with_part(list: Seq<Seq<char>>, part: Seq<char>) -> bool {
    exists|i: int| 0 <= i < list.len() && has_part(#[trigger] list[i], part)
}

/// Whether some text of a list holds `part`.
pub fn any_contains(list: &Vec<String>, part: &str) -> (res: bool)
    ensures
        res == any_with_part(texts(list@), part@),
{
    let mut i: usize = 0;
    while i < list.len()
        invariant
            i <= list.len(),
            forall|j: int| 0 <= j < i ==> !has_part(#[trigger] texts(list@)[j], part@),
        decreases list.len() - i,
    {
        if contains(list[i].as_str(), part) {
            proof {
                assert(has_part(texts(list@)[i as int], part@));
            }
            return true;
        }
        i += 1;
    }
    false
}

/// `s` holds nothing but whitespace.
pub open spec fn is_blank(s: Seq<char>) -> bool {
    forall|i: int| 0 <= i < s.len() ==> is_space(#[trigger] s[i])
}

/// `s` neither starts nor ends with whitespace.
pub open spec fn is_core(s: Seq<char>) -> bool {
    s.len() > 0 ==> !is_space(s[0]) && !is_space(s.last())
}

/// Taking off the whitespace at the end takes off exactly that: what stands before it stays whole.
pub proof fn trimming_the_end_keeps_the_rest(core: Seq<char>, after: Seq<char>)
    requires
        core.len() > 0 ==> !is_space(core.last()),
        is_blank(after),
    ensures
        trimmed_end(core + after) == core,
    decreases after.len(),
{
    let s = core + after;
    if after.len() == 0 {
        assert(s =~= core);
    } else {
        assert(s.last() == after.last());
        assert(s.drop_last() =~= core + after.drop_last());
        trimming_the_end_keeps_the_rest(core, after.drop_last());
    }
}

proof fn lemma_trimming_the_start(before: Seq<char>, core: Seq<char>)
    requires
        core.len() > 0 ==> !is_space(core[0]),
        is_blank(before),
    ensures
        trimmed_start(before + core) == core,
    decreases before.len(),
{
    let s = before + core;
    if before.len() == 0 {
        assert(s =~= core);
    } else {
        assert(s[0] == before[0]);
        assert(s.drop_first() =~= before.drop_first() + core);
        lemma_trimming_the_start(before.drop_first(), core);
    }
}

/// Trimming takes off exactly the whitespace at both ends: a text that neither starts nor ends with
/// whitespace comes out whole, however long it is, and whatever whitespace stands round it.
pub proof fn trimming_keeps_the_core(before: Seq<char>, core: Seq<char>, after: Seq<char>)
    requires
        is_blank(before),
        is_core(core),
        is_blank(after),
    ensures
        trimmed(before + core + after) == core,
{
    if core.len() == 0 {
        let all = before + after;
        assert(before + core + after =~= seq![] + all);
        trimming_the_end_keeps_the_rest(seq![], all);
    } else {
        assert((before + core).last() == core.last());
        trimming_the_end_keeps_the_rest(before + core, after);
        lemma_trimming_the_start(before, core);
    }
}

/// Every text is made of whitespace, what trimming leaves of it, and whitespace.
pub proof fn trimming_leaves_the_core(s: Seq<char>)
    ensures
        is_core(trimmed(s)),
        exists|before: Seq<char>, after: Seq<char>|
            is_blank(before) && is_blank(after) && s == #[trigger] (before + trimmed(s) + after),
        trimmed(s).len() == 0 <==> is_blank(s),
{
    let end = lemma_end_of_core(s);
    let start = lemma_start_of_core(s.take(end));
    let before = s.take(start);
    let core = s.subrange(start, end);
    let after = s.skip(end);
    assert(s.take(end).skip(start) =~= core);
    assert(s.take(end).take(start) =~= before);
    assert(s =~= before + core + after);
    if core.len() > 0 {
        assert(core[0] == s.take(end)[start]);
        assert(core.last() == s.take(end).last());
    }
    trimming_keeps_the_core(before, core, after);
    assert(s == before + trimmed(s) + after);
    if core.len() > 0 {
        assert(s[start] == core[0]);
        assert(!is_blank(s));
    }
}

proof fn lemma_end_of_core(s: Seq<char>) -> (end: int)
    ensures
        0 <= end <= s.len(),
        is_blank(s.skip(end)),
        end > 0 ==> !is_space(s.take(end).last()),
    decreases s.len(),
{
    if s.len() > 0 && is_space(s.last()) {
        let end = lemma_end_of_core(s.drop_last());
        assert(s.drop_last().take(end) =~= s.take(end));
        assert forall|i: int| 0 <= i < s.skip(end).len() implies is_space(
            #[trigger] s.skip(end)[i],
        ) by {
            if i < s.len() - 1 - end {
                assert(s.drop_last().skip(end)[i] == s.skip(end)[i]);
            }
        }
        end
    } else {
        assert(s.take(s.len() as int) =~= s);
        s.len() as int
    }
}

proof fn lemma_start_of_core(s: Seq<char>) -> (start: int)
    ensures
        0 <= start <= s.len(),
        is_blank(s.take(start)),
        start < s.len() ==> !is_space(s[start]),
    decreases s.len(),
{
    if s.len() > 0 && is_space(s[0]) {
        let rest = lemma_start_of_core(s.drop_first());
        assert forall|i: int| 0 <= i < rest + 1 implies is_space(
            #[trigger] s.take(rest + 1)[i],
        ) by {
            if i > 0 {
                assert(s.drop_first().take(rest)[i - 1] == s[i]);
            }
        }
        rest + 1
    } else {
        0
    }
}

/// What stands behind a prefix comes out whole, and nothing else counts as starting with it.
pub proof fn stripping_undoes_the_prefix(s: Seq<char>, prefix: Seq<char>, rest: Seq<char>)
    ensures
        stripped(prefix + rest, prefix) == Some(rest),
        stripped(s, prefix) == Some(rest) ==> s == prefix + rest,
        stripped(s, prefix) is None ==> s != prefix + rest,
{
    assert(prefix.is_prefix_of(prefix + rest));
    assert((prefix + rest).skip(prefix.len() as int) =~= rest);
    if stripped(s, prefix) == Some(rest) {
        assert(s =~= prefix + s.skip(prefix.len() as int));
    }
}

/// A part is found wherever it stands.
pub proof fn a_part_is_found(before: Seq<char>, part: Seq<char>, after: Seq<char>)
    ensures
        has_part(before + part + after, part),
{
    let s = before + part + after;
    let at = before.len() as int;
    assert(s.subrange(at, at + part.len()) =~= part);
    assert(occurs_at(s, part, at));
}

/// A part that is found stands there.
pub proof fn a_found_part_stands_there(s: Seq<char>, part: Seq<char>)
    requires
        has_part(s, part),
    ensures
        exists|before: Seq<char>, after: Seq<char>| s == #[trigger] (before + part + after),
{
    let at = choose|at: int| occurs_at(s, part, at);
    let before = s.take(at);
    let after = s.skip(at + part.len());
    assert(s =~= before + s.subrange(at, at + part.len()) + after);
    assert(s == before + part + after);
}

/// A text is split at its first separator, and nothing of it is lost.
pub proof fn the_first_separator_splits(before: Seq<char>, part: Seq<char>, after: Seq<char>)
    requires
        part.len() > 0,
        !has_part((before + part).drop_last(), part),
    ensures
        split_first(before + part + after, part) == Some((before, after)),
{
    let s = before + part + after;
    let at = before.len() as int;
    let head = (before + part).drop_last();
    assert(s.subrange(at, at + part.len()) =~= part);
    assert forall|j: int| j < at implies !occurs_at(s, part, j) by {
        if occurs_at(s, part, j) {
            assert(head.subrange(j, j + part.len()) =~= s.subrange(j, j + part.len()));
            assert(occurs_at(head, part, j));
        }
    }
    lemma_split_first(s, part, at);
    assert(s.take(at) =~= before);
    assert(s.skip(at + part.len()) =~= after);
}

/// A text is split from behind at its last separator, and nothing of it is lost.
pub proof fn the_last_separator_splits(before: Seq<char>, part: Seq<char>, after: Seq<char>)
    requires
        part.len() > 0,
        !has_part((part + after).drop_first(), part),
    ensures
        split_last(before + part + after, part) == Some((before, after)),
{
    let s = before + part + after;
    let at = before.len() as int;
    let tail = (part + after).drop_first();
    assert(s.subrange(at, at + part.len()) =~= part);
    assert forall|j: int| j > at implies !occurs_at(s, part, j) by {
        if occurs_at(s, part, j) {
            let k = j - at - 1;
            assert(tail.subrange(k, k + part.len()) =~= s.subrange(j, j + part.len()));
            assert(occurs_at(tail, part, k));
        }
    }
    lemma_split_last(s, part, at);
    assert(s.take(at) =~= before);
    assert(s.skip(at + part.len()) =~= after);
}

/// Words are what stands between whitespace: a word before any whitespace is the first one, further
/// whitespace makes no difference, and no word is lost.
pub proof fn words_stand_between_whitespace(word: Seq<char>, space: char, rest: Seq<char>)
    requires
        is_space(space),
        is_word(word),
    ensures
        words(seq![space] + rest) == words(rest),
        word.len() > 0 ==> words(word + seq![space] + rest) == seq![word] + words(rest),
        word.len() > 0 ==> words(word) == seq![word],
        words(seq![]) == Seq::<Seq<char>>::empty(),
{
    let behind = seq![space] + rest;
    assert(behind[0] == space);
    assert(behind.drop_first() =~= rest);
    assert(trimmed_start(behind) == trimmed_start(rest));
    assert(words(behind) == words(rest));
    if word.len() > 0 {
        let s = word + seq![space] + rest;
        assert(s =~= word + behind);
        assert(s[0] == word[0]);
        lemma_word_length_of(word, behind);
        assert(s.take(word.len() as int) =~= word);
        assert(s.skip(word.len() as int) =~= behind);
        lemma_only_word(word);
    }
    assert(words(seq![]) =~= seq![]);
}

/// The first text of a list that starts with a prefix is found behind any others, whatever follows
/// it.
pub proof fn the_first_with_a_prefix_is_found(
    before: Seq<Seq<char>>,
    prefix: Seq<char>,
    rest: Seq<char>,
    after: Seq<Seq<char>>,
)
    requires
        forall|i: int| 0 <= i < before.len() ==> !prefix.is_prefix_of(#[trigger] before[i]),
    ensures
        first_with(before + seq![prefix + rest] + after, prefix) == Some(prefix + rest),
        first_stripped(before + seq![prefix + rest] + after, prefix) == Some(rest),
        first_with(before, prefix) is None,
        first_stripped(before, prefix) is None,
    decreases before.len(),
{
    let list = before + seq![prefix + rest] + after;
    if before.len() == 0 {
        assert(list[0] == prefix + rest);
        assert(prefix.is_prefix_of(prefix + rest));
        stripping_undoes_the_prefix(prefix + rest, prefix, rest);
    } else {
        let tail = before.drop_first();
        assert(list[0] == before[0]);
        assert(!prefix.is_prefix_of(before[0]));
        assert(list.drop_first() =~= tail + seq![prefix + rest] + after);
        assert forall|i: int| 0 <= i < tail.len() implies !prefix.is_prefix_of(
            #[trigger] tail[i],
        ) by {
            assert(tail[i] == before[i + 1]);
        }
        the_first_with_a_prefix_is_found(tail, prefix, rest, after);
    }
}

/// Joining two lists puts one separator between them, and keeps every text.
pub proof fn joining_puts_one_separator_between(
    left: Seq<Seq<char>>,
    right: Seq<Seq<char>>,
    between: Seq<char>,
)
    requires
        left.len() > 0,
        right.len() > 0,
    ensures
        joined(left + right, between) == joined(left, between) + between + joined(right, between),
        left.len() == 1 ==> joined(left, between) == left[0],
    decreases right.len(),
{
    let all = left + right;
    assert(all.drop_last() =~= left + right.drop_last());
    assert(all.last() == right.last());
    if right.len() == 1 {
        assert(left + right.drop_last() =~= left);
    } else {
        joining_puts_one_separator_between(left, right.drop_last(), between);
    }
    assert(joined(all, between) =~= joined(left, between) + between + joined(right, between));
}

/// Texts that are the same but for case have the same length, and differ at most in a letter of the
/// ASCII alphabet that is capital in the one and small in the other.
pub proof fn case_is_all_that_may_differ(a: Seq<char>, b: Seq<char>)
    ensures
        same_but_case(a, b) <==> {
            &&& a.len() == b.len()
            &&& forall|i: int|
                0 <= i < a.len() ==> {
                    ||| #[trigger] a[i] == b[i]
                    ||| 'a' <= a[i] && a[i] <= 'z' && b[i] as int == a[i] as int - 32
                    ||| 'a' <= b[i] && b[i] <= 'z' && a[i] as int == b[i] as int - 32
                }
        },
{
    if a.len() == b.len() {
        assert forall|i: int| 0 <= i < a.len() implies (ascii_upper(#[trigger] a[i]) == ascii_upper(
            b[i],
        )) == {
            ||| a[i] == b[i]
            ||| 'a' <= a[i] && a[i] <= 'z' && b[i] as int == a[i] as int - 32
            ||| 'a' <= b[i] && b[i] <= 'z' && a[i] as int == b[i] as int - 32
        } by {
            lemma_letters(a[i], b[i]);
        }
    }
}

proof fn lemma_letters(x: char, y: char)
    ensures
        (ascii_upper(x) == ascii_upper(y)) == {
            ||| x == y
            ||| 'a' <= x && x <= 'z' && y as int == x as int - 32
            ||| 'a' <= y && y <= 'z' && x as int == y as int - 32
        },
{
}

/// The views of texts hold them whole, each in its place.
pub proof fn views_hold_texts_whole(list: Seq<String>, text: &str, other: &str)
    ensures
        texts(list).len() == list.len(),
        forall|i: int| 0 <= i < list.len() ==> #[trigger] texts(list)[i] == list[i]@,
        text_of(Some(text)) == Some(text@),
        text_of(None) is None,
        pair_of(Some((text, other))) == Some((text@, other@)),
{
}

} // verus!
