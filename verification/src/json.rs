//! The JSON that invites and frames are written in.

use vstd::prelude::*;

use crate::digits::lower_digit;
use crate::error::FaunaError;
use crate::primitives::json_text;
use crate::text::{a_part_is_found, has_part, texts};

verus! {

/// How one character stands inside a JSON string.
pub open spec fn json_escape(c: char) -> Seq<char> {
    if c == '"' || c == '\\' {
        seq!['\\', c]
    } else if c as int == 8 {
        seq!['\\', 'b']
    } else if c as int == 9 {
        seq!['\\', 't']
    } else if c as int == 10 {
        seq!['\\', 'n']
    } else if c as int == 12 {
        seq!['\\', 'f']
    } else if c as int == 13 {
        seq!['\\', 'r']
    } else if (c as int) < 32 {
        seq!['\\', 'u', '0', '0', lower_digit(c as int / 16), lower_digit(c as int % 16)]
    } else {
        seq![c]
    }
}

/// The characters of `s`, each as it stands inside a JSON string.
pub open spec fn json_escaped(s: Seq<char>) -> Seq<char>
    decreases s.len(),
{
    if s.len() == 0 {
        seq![]
    } else {
        json_escape(s[0]) + json_escaped(s.drop_first())
    }
}

/// `s` as a JSON string.
pub open spec fn json_string(s: Seq<char>) -> Seq<char> {
    seq!['"'] + json_escaped(s) + seq!['"']
}

/// The elements `texts` of a JSON array as JSON strings, each behind a comma.
pub open spec fn json_tail(texts: Seq<Seq<char>>) -> Seq<char>
    decreases texts.len(),
{
    if texts.len() == 0 {
        seq![]
    } else {
        seq![','] + json_string(texts[0]) + json_tail(texts.drop_first())
    }
}

/// `texts` as a JSON array of strings.
pub open spec fn json_array(texts: Seq<Seq<char>>) -> Seq<char> {
    if texts.len() == 0 {
        "[]"@
    } else {
        "["@ + json_string(texts[0]) + json_tail(texts.drop_first()) + "]"@
    }
}

/// Appends `label` and `text` as a JSON string.
pub(crate) fn push_string(json: &mut String, label: &str, text: &str) -> (res: Result<
    (),
    FaunaError,
>)
    ensures
        res is Ok,
        final(json)@ == old(json)@ + label@ + json_string(text@),
{
    let value: String = match json_text(text) {
        Ok(value) => value,
        Err(e) => {
            return Err(FaunaError::from(e));
        },
    };
    json.append(label);
    json.append(value.as_str());
    Ok(())
}

/// Appends `label` and `list` as a JSON array of strings.
pub(crate) fn push_array(json: &mut String, label: &str, list: &Vec<String>) -> (res: Result<
    (),
    FaunaError,
>)
    ensures
        res is Ok,
        final(json)@ == old(json)@ + label@ + json_array(texts(list@)),
{
    proof {
        reveal_strlit("[]");
        reveal_strlit("[");
        reveal_strlit("]");
        reveal_strlit(",");
        reveal_strlit("");
    }
    json.append(label);
    let ghost start = json@;
    json.append("[");
    let mut i: usize = 0;
    proof {
        assert(texts(list@).take(0) =~= seq![]);
        assert(json@ =~= start + array_start(texts(list@), 0));
    }
    while i < list.len()
        invariant
            i <= list.len(),
            json@ == start + array_start(texts(list@), i as int),
            ","@ == seq![','],
            ""@ == Seq::<char>::empty(),
        decreases list.len() - i,
    {
        let comma: &str = if i == 0 {
            ""
        } else {
            ","
        };
        push_string(json, comma, list[i].as_str())?;
        proof {
            lemma_array_start(texts(list@), i as int);
            assert(json@ =~= start + array_start(texts(list@), i + 1));
        }
        i += 1;
    }
    json.append("]");
    proof {
        assert(texts(list@).take(i as int) =~= texts(list@));
        assert(json@ =~= start + json_array(texts(list@)));
    }
    Ok(())
}

/// A JSON array of strings up to and without what follows its first `n` elements.
spec fn array_start(list: Seq<Seq<char>>, n: int) -> Seq<char> {
    if n == 0 {
        "["@
    } else {
        "["@ + json_string(list[0]) + json_tail(list.take(n).drop_first())
    }
}

proof fn lemma_tail_push(list: Seq<Seq<char>>, last: Seq<char>)
    ensures
        json_tail(list.push(last)) == json_tail(list) + seq![','] + json_string(last),
    decreases list.len(),
{
    reveal_with_fuel(json_tail, 2);
    if list.len() == 0 {
        assert(list.push(last).drop_first() =~= seq![]);
        assert(json_tail(list.push(last)) =~= json_tail(list) + seq![','] + json_string(last));
    } else {
        lemma_tail_push(list.drop_first(), last);
        assert(list.push(last).drop_first() =~= list.drop_first().push(last));
        assert(json_tail(list.push(last)) =~= json_tail(list) + seq![','] + json_string(last));
    }
}

proof fn lemma_array_start(list: Seq<Seq<char>>, n: int)
    requires
        0 <= n < list.len(),
    ensures
        n == 0 ==> array_start(list, 1) == array_start(list, 0) + json_string(list[0]),
        n > 0 ==> array_start(list, n + 1) == array_start(list, n) + seq![','] + json_string(
            list[n],
        ),
{
    if n == 0 {
        assert(list.take(1).drop_first() =~= seq![]);
        assert(array_start(list, 1) =~= array_start(list, 0) + json_string(list[0]));
    } else {
        lemma_tail_push(list.take(n).drop_first(), list[n]);
        assert(list.take(n + 1).drop_first() =~= list.take(n).drop_first().push(list[n]));
        assert(array_start(list, n + 1) =~= array_start(list, n) + seq![','] + json_string(
            list[n],
        ));
    }
}

/// No character of `s` is a control character, so `s` is a part of one line.
pub open spec fn is_printable(s: Seq<char>) -> bool {
    forall|i: int| 0 <= i < s.len() ==> (#[trigger] s[i]) as int >= 32
}

/// Texts without control characters make a text without control characters.
pub(crate) proof fn lemma_printable_together(a: Seq<char>, b: Seq<char>)
    requires
        is_printable(a),
        is_printable(b),
    ensures
        is_printable(a + b),
{
}

proof fn lemma_escape_printable(c: char)
    ensures
        is_printable(json_escape(c)),
{
}

proof fn lemma_escaped_printable(s: Seq<char>)
    ensures
        is_printable(json_escaped(s)),
    decreases s.len(),
{
    if s.len() > 0 {
        lemma_escaped_printable(s.drop_first());
        lemma_escape_printable(s[0]);
        lemma_printable_together(json_escape(s[0]), json_escaped(s.drop_first()));
    }
}

/// A JSON string holds no control characters, whatever its text holds.
pub proof fn json_string_is_printable(s: Seq<char>)
    ensures
        is_printable(json_string(s)),
{
    lemma_escaped_printable(s);
    lemma_printable_together(seq!['"'], json_escaped(s));
    lemma_printable_together(seq!['"'] + json_escaped(s), seq!['"']);
}

/// The escapes of two characters tell them apart, whatever follows.
proof fn lemma_escape_prefix(c: char, x: Seq<char>, d: char, y: Seq<char>)
    requires
        json_escape(c) + x == json_escape(d) + y,
    ensures
        c == d,
        x == y,
{
    let left = json_escape(c) + x;
    let right = json_escape(d) + y;
    assert(left[0] == right[0]);
    assert(left[0] == json_escape(c)[0]);
    assert(right[0] == json_escape(d)[0]);
    if json_escape(c).len() > 1 && json_escape(d).len() > 1 {
        assert(left[1] == json_escape(c)[1]);
        assert(right[1] == json_escape(d)[1]);
        if json_escape(c).len() == 6 && json_escape(d).len() == 6 {
            assert(left[4] == json_escape(c)[4]);
            assert(right[4] == json_escape(d)[4]);
            assert(left[5] == json_escape(c)[5]);
            assert(right[5] == json_escape(d)[5]);
        }
    }
    assert(c == d);
    assert(x =~= left.skip(json_escape(c).len() as int));
    assert(y =~= right.skip(json_escape(d).len() as int));
}

proof fn lemma_escaped_prefix(a: Seq<char>, x: Seq<char>, b: Seq<char>, y: Seq<char>)
    requires
        json_escaped(a) + seq!['"'] + x == json_escaped(b) + seq!['"'] + y,
    ensures
        a == b,
        x == y,
    decreases a.len(),
{
    let left = json_escaped(a) + seq!['"'] + x;
    let right = json_escaped(b) + seq!['"'] + y;
    assert(left[0] == right[0]);
    if a.len() == 0 {
        assert(left[0] == '"');
        if b.len() > 0 {
            assert(right[0] == json_escape(b[0])[0]);
        }
        assert(a =~= b);
        assert(x =~= left.skip(1));
        assert(y =~= right.skip(1));
    } else if b.len() == 0 {
        assert(right[0] == '"');
        assert(left[0] == json_escape(a[0])[0]);
    } else {
        let rest_a = json_escaped(a.drop_first()) + seq!['"'] + x;
        let rest_b = json_escaped(b.drop_first()) + seq!['"'] + y;
        assert(left =~= json_escape(a[0]) + rest_a);
        assert(right =~= json_escape(b[0]) + rest_b);
        lemma_escape_prefix(a[0], rest_a, b[0], rest_b);
        lemma_escaped_prefix(a.drop_first(), x, b.drop_first(), y);
        assert(a =~= seq![a[0]] + a.drop_first());
        assert(b =~= seq![b[0]] + b.drop_first());
    }
}

/// A JSON string at the start of a text can be read in one way only: two texts that start with the
/// JSON strings of `a` and `b` are the same only where `a` and `b` are, and what follows them.
pub proof fn json_string_reads_one_way(a: Seq<char>, x: Seq<char>, b: Seq<char>, y: Seq<char>)
    requires
        json_string(a) + x == json_string(b) + y,
    ensures
        a == b,
        x == y,
{
    let left = json_string(a) + x;
    let right = json_string(b) + y;
    assert(left.skip(1) =~= json_escaped(a) + seq!['"'] + x);
    assert(right.skip(1) =~= json_escaped(b) + seq!['"'] + y);
    lemma_escaped_prefix(a, x, b, y);
}

proof fn lemma_tail_prefix(a: Seq<Seq<char>>, x: Seq<char>, b: Seq<Seq<char>>, y: Seq<char>)
    requires
        json_tail(a) + seq![']'] + x == json_tail(b) + seq![']'] + y,
    ensures
        a == b,
        x == y,
    decreases a.len(),
{
    let left = json_tail(a) + seq![']'] + x;
    let right = json_tail(b) + seq![']'] + y;
    assert(left[0] == right[0]);
    if a.len() == 0 {
        assert(left[0] == ']');
        if b.len() > 0 {
            assert(right[0] == ',');
        }
        assert(a =~= b);
        assert(x =~= left.skip(1));
        assert(y =~= right.skip(1));
    } else if b.len() == 0 {
        assert(right[0] == ']');
        assert(left[0] == ',');
    } else {
        let rest_a = json_tail(a.drop_first()) + seq![']'] + x;
        let rest_b = json_tail(b.drop_first()) + seq![']'] + y;
        assert(left.skip(1) =~= json_string(a[0]) + rest_a);
        assert(right.skip(1) =~= json_string(b[0]) + rest_b);
        json_string_reads_one_way(a[0], rest_a, b[0], rest_b);
        lemma_tail_prefix(a.drop_first(), x, b.drop_first(), y);
        assert(a =~= seq![a[0]] + a.drop_first());
        assert(b =~= seq![b[0]] + b.drop_first());
    }
}

/// A JSON array of strings at the start of a text can be read in one way only.
pub proof fn json_array_reads_one_way(
    a: Seq<Seq<char>>,
    x: Seq<char>,
    b: Seq<Seq<char>>,
    y: Seq<char>,
)
    requires
        json_array(a) + x == json_array(b) + y,
    ensures
        a == b,
        x == y,
{
    reveal_strlit("[]");
    reveal_strlit("[");
    reveal_strlit("]");
    let left = json_array(a) + x;
    let right = json_array(b) + y;
    assert(left[1] == right[1]);
    if a.len() == 0 {
        assert(left[1] == ']');
        if b.len() > 0 {
            assert(right[1] == '"');
        }
        assert(a =~= b);
        assert(x =~= left.skip(2));
        assert(y =~= right.skip(2));
    } else if b.len() == 0 {
        assert(right[1] == ']');
        assert(left[1] == '"');
    } else {
        let rest_a = json_tail(a.drop_first()) + seq![']'] + x;
        let rest_b = json_tail(b.drop_first()) + seq![']'] + y;
        assert(left.skip(1) =~= json_string(a[0]) + rest_a);
        assert(right.skip(1) =~= json_string(b[0]) + rest_b);
        json_string_reads_one_way(a[0], rest_a, b[0], rest_b);
        lemma_tail_prefix(a.drop_first(), x, b.drop_first(), y);
        assert(a =~= seq![a[0]] + a.drop_first());
        assert(b =~= seq![b[0]] + b.drop_first());
    }
}

pub(crate) proof fn lemma_same_rest(start: Seq<char>, x: Seq<char>, y: Seq<char>)
    requires
        start + x == start + y,
    ensures
        x == y,
{
    assert(x =~= (start + x).skip(start.len() as int));
    assert(y =~= (start + y).skip(start.len() as int));
}

pub(crate) proof fn lemma_regroup(x: Seq<char>, y: Seq<char>, z: Seq<char>)
    ensures
        x + y + z == x + (y + z),
{
    assert(x + y + z =~= x + (y + z));
}

/// A JSON array of strings grows by a comma and one string behind the others.
pub proof fn an_array_grows_by_one_string(list: Seq<Seq<char>>, last: Seq<char>)
    ensures
        json_array(seq![last]) == seq!['['] + json_string(last) + seq![']'],
        list.len() > 0 ==> json_array(list.push(last)) == json_array(list).drop_last() + seq![
            ',',
        ] + json_string(last) + seq![']'],
        json_array(seq![]) == seq!['[', ']'],
{
    reveal_strlit("[]");
    reveal_strlit("[");
    reveal_strlit("]");
    reveal_with_fuel(json_tail, 2);
    assert("[]"@ =~= seq!['[', ']']);
    assert(seq![last].drop_first() =~= seq![]);
    assert(json_array(seq![last]) =~= seq!['['] + json_string(last) + seq![']']);
    if list.len() > 0 {
        lemma_tail_push(list.drop_first(), last);
        assert(list.push(last).drop_first() =~= list.drop_first().push(last));
        assert(list.push(last)[0] == list[0]);
        assert(json_array(list).drop_last() =~= "["@ + json_string(list[0]) + json_tail(
            list.drop_first(),
        ));
        assert(json_array(list.push(last)) =~= json_array(list).drop_last() + seq![',']
            + json_string(last) + seq![']']);
    }
}

/// A label and its value stand in a text that is made of them and others.
pub(crate) proof fn lemma_labelled(
    before: Seq<char>,
    label: Seq<char>,
    value: Seq<char>,
    rest: Seq<char>,
)
    ensures
        has_part((before + label) + (value + rest), label + value),
{
    a_part_is_found(before, label + value, rest);
    assert((before + label) + (value + rest) =~= before + (label + value) + rest);
}

} // verus!
