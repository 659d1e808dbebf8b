//! JSON text: how strings and objects are written, and what they read back as.
use vstd::prelude::*;

verus! {

/// The lower-case hexadecimal digit of a number below 16.
pub open spec fn hex_digit(n: int) -> char {
    if n < 10 {
        (48 + n) as char
    } else {
        (87 + n) as char
    }
}

/// How a character is written in a JSON string.
pub open spec fn escaped(c: char) -> Seq<char> {
    match c {
        '"' => seq!['\\', '"'],
        '\\' => seq!['\\', '\\'],
        '\u{8}' => seq!['\\', 'b'],
        '\u{9}' => seq!['\\', 't'],
        '\u{a}' => seq!['\\', 'n'],
        '\u{c}' => seq!['\\', 'f'],
        '\u{d}' => seq!['\\', 'r'],
        _ => if 32 > c as int {
            seq!['\\', 'u', '0', '0', hex_digit(c as int / 16), hex_digit(c as int % 16)]
        } else {
            seq![c]
        },
    }
}

/// The JSON string for a text.
pub open spec fn json_string(text: Seq<char>) -> Seq<char> {
    seq!['"'] + text.map_values(|c: char| escaped(c)).flatten() + seq!['"']
}

/// What an escape of two characters stands for, by the second.
pub open spec fn short_escape(c: char) -> Option<char> {
    match c {
        '"' => Some('"'),
        '\\' => Some('\\'),
        '/' => Some('/'),
        'b' => Some('\u{8}'),
        'f' => Some('\u{c}'),
        'n' => Some('\u{a}'),
        'r' => Some('\u{d}'),
        't' => Some('\u{9}'),
        _ => None,
    }
}

/// The value of a hexadecimal digit.
pub open spec fn hex_value(c: char) -> Option<int> {
    if '0' <= c <= '9' {
        Some(c as int - 48)
    } else if 'a' <= c <= 'f' {
        Some(c as int - 87)
    } else if 'A' <= c <= 'F' {
        Some(c as int - 55)
    } else {
        None
    }
}

/// The number that the four hexadecimal digits at the start of `t` stand for.
pub open spec fn hex_number(t: Seq<char>) -> Option<int> {
    match (hex_value(t[0]), hex_value(t[1]), hex_value(t[2]), hex_value(t[3])) {
        (Some(a), Some(b), Some(c), Some(d)) => Some(a * 4096 + b * 256 + c * 16 + d),
        _ => None,
    }
}

/// The character that stands at the start of `t` inside a JSON string, and how many characters
/// it is written with. An escaped surrogate is no character by itself, and is not read.
pub open spec fn read_char(t: Seq<char>) -> Option<(char, int)> {
    if t.len() == 0 || 32 > t[0] as int {
        None
    } else if t[0] != '\\' {
        Some((t[0], 1))
    } else if t.len() >= 2 && short_escape(t[1]) is Some {
        Some((short_escape(t[1])->0, 2))
    } else if t.len() >= 6 && t[1] == 'u' {
        match hex_number(t.skip(2)) {
            Some(n) => if n < 0xd800 || 0xe000 <= n {
                Some((n as char, 6))
            } else {
                None
            },
            None => None,
        }
    } else {
        None
    }
}

/// The text of a JSON string that goes on with `t` behind its opening quote, and what follows
/// its closing quote.
pub open spec fn read_chars(t: Seq<char>) -> Option<(Seq<char>, Seq<char>)>
    decreases t.len(),
{
    if t.len() == 0 {
        None
    } else if t[0] == '"' {
        Some((Seq::empty(), t.skip(1)))
    } else {
        match read_char(t) {
            None => None,
            Some((c, n)) => match read_chars(t.skip(n)) {
                None => None,
                Some((text, rest)) => Some((seq![c] + text, rest)),
            },
        }
    }
}

/// The text of the JSON string at the start of `t`, and what follows it.
pub open spec fn read_string(t: Seq<char>) -> Option<(Seq<char>, Seq<char>)> {
    if t.len() > 0 && t[0] == '"' {
        read_chars(t.skip(1))
    } else {
        None
    }
}

/// The text that a JSON string stands for.
pub open spec fn string_of(json: Seq<char>) -> Option<Seq<char>> {
    match read_string(json) {
        Some((text, rest)) => if rest.len() == 0 {
            Some(text)
        } else {
            None
        },
        None => None,
    }
}

/// Whether a place in JSON text lies inside a string, and behind a backslash there.
pub struct Quoting {
    pub inside: bool,
    pub slashed: bool,
}

/// Outside strings.
pub open spec fn unquoted() -> Quoting {
    Quoting { inside: false, slashed: false }
}

/// The place after one more character.
pub open spec fn quoting_after(q: Quoting, c: char) -> Quoting {
    if !q.inside {
        Quoting { inside: c == '"', slashed: false }
    } else if q.slashed {
        Quoting { inside: true, slashed: false }
    } else {
        Quoting { inside: c != '"', slashed: c == '\\' }
    }
}

/// The place after a whole text.
pub open spec fn quoting_after_all(q: Quoting, text: Seq<char>) -> Quoting
    decreases text.len(),
{
    if text.len() == 0 {
        q
    } else {
        quoting_after_all(quoting_after(q, text[0]), text.skip(1))
    }
}

/// The characters that JSON text may be spaced with.
pub open spec fn is_blank(c: char) -> bool {
    c == ' ' || c == '\n' || c == '\r' || c == '\t'
}

/// JSON text without the blanks outside its strings.
pub open spec fn without_blanks(text: Seq<char>, q: Quoting) -> Seq<char>
    decreases text.len(),
{
    if text.len() == 0 {
        Seq::empty()
    } else {
        let rest = without_blanks(text.skip(1), quoting_after(q, text[0]));
        if !q.inside && is_blank(text[0]) {
            rest
        } else {
            seq![text[0]] + rest
        }
    }
}

/// How deep in brackets a place is, one character on.
pub open spec fn depth_after(depth: int, q: Quoting, c: char) -> int {
    if q.inside {
        depth
    } else if c == '{' || c == '[' {
        depth + 1
    } else if c == '}' || c == ']' {
        depth - 1
    } else {
        depth
    }
}

/// Whether a value ends before this character.
pub open spec fn ends_value(depth: int, q: Quoting, c: char) -> bool {
    depth == 0 && !q.inside && (c == ',' || c == '}' || c == ']')
}

/// How many characters at the start of `t` belong to a value that is this far.
pub open spec fn value_len(t: Seq<char>, depth: int, q: Quoting) -> nat
    decreases t.len(),
{
    if t.len() == 0 || ends_value(depth, q, t[0]) {
        0
    } else {
        1 + value_len(t.skip(1), depth_after(depth, q, t[0]), quoting_after(q, t[0]))
    }
}

/// Whether a value that is this far goes on with exactly `t`: its strings and its brackets end
/// with it, and it does not end before.
pub open spec fn closes(t: Seq<char>, depth: int, q: Quoting) -> bool
    decreases t.len(),
{
    if t.len() == 0 {
        depth == 0 && q == unquoted()
    } else {
        !ends_value(depth, q, t[0]) && closes(
            t.skip(1),
            depth_after(depth, q, t[0]),
            quoting_after(q, t[0]),
        )
    }
}

/// Whether a text has no line break.
pub open spec fn one_line(text: Seq<char>) -> bool {
    forall|i: int| 0 <= i < text.len() ==> #[trigger] text[i] != '\n' && text[i] != '\r'
}

/// Whether `value` has the shape of a compact JSON value: it stands for itself among others, on
/// one line and without blanks outside its strings.
pub open spec fn is_value(value: Seq<char>) -> bool {
    &&& value.len() > 0
    &&& closes(value, 0, unquoted())
    &&& without_blanks(value, unquoted()) == value
    &&& one_line(value)
}

proof fn lemma_rest_is_shorter(t: Seq<char>)
    ensures
        read_chars(t) matches Some((_, rest)) ==> rest.len() < t.len(),
    decreases t.len(),
{
    if t.len() > 0 && t[0] != '"' {
        if let Some((_, n)) = read_char(t) {
            lemma_rest_is_shorter(t.skip(n));
        }
    }
}

proof fn lemma_value_len(t: Seq<char>, depth: int, q: Quoting)
    ensures
        value_len(t, depth, q) <= t.len(),
    decreases t.len(),
{
    if t.len() > 0 {
        lemma_value_len(t.skip(1), depth_after(depth, q, t[0]), quoting_after(q, t[0]));
    }
}

#[via_fn]
proof fn read_members_decreases(t: Seq<char>) {
    lemma_rest_is_shorter(t.skip(1));
    if let Some((_, rest)) = read_string(t) {
        lemma_value_len(rest.skip(1), 0, unquoted());
    }
}

/// The members that go on with `t` behind an opening brace or a comma, up to a closing brace
/// that is the last character. Of two members with one key the later counts.
pub open spec fn read_members(t: Seq<char>) -> Option<Map<Seq<char>, Seq<char>>>
    decreases t.len(),
    via read_members_decreases
{
    match read_string(t) {
        None => None,
        Some((key, rest)) => {
            let after = rest.skip(1);
            let n = value_len(after, 0, unquoted()) as int;
            let tail = after.skip(n);
            if rest.len() == 0 || rest[0] != ':' || n == 0 {
                None
            } else if tail == seq!['}'] {
                Some(map![key => after.take(n)])
            } else if tail.len() > 0 && tail[0] == ',' {
                match read_members(tail.skip(1)) {
                    None => None,
                    Some(members) => Some(map![key => after.take(n)].union_prefer_right(members)),
                }
            } else {
                None
            }
        },
    }
}

/// The members of the object that JSON text stands for: each key with the compact text of its
/// value.
pub open spec fn read_object(text: Seq<char>) -> Option<Map<Seq<char>, Seq<char>>> {
    let t = without_blanks(text, unquoted());
    if t == seq!['{', '}'] {
        Some(Map::empty())
    } else if t.len() > 0 && t[0] == '{' {
        read_members(t.skip(1))
    } else {
        None
    }
}

/// Whether `a` comes before `b` in the order of their characters' numbers.
pub open spec fn comes_before(a: Seq<char>, b: Seq<char>) -> bool
    decreases a.len(),
{
    if b.len() == 0 {
        false
    } else if a.len() == 0 {
        true
    } else if a[0] == b[0] {
        comes_before(a.skip(1), b.skip(1))
    } else {
        a[0] < b[0]
    }
}

/// Whether `keys` are the keys of `members`, each once and in order.
pub open spec fn in_key_order(keys: Seq<Seq<char>>, members: Map<Seq<char>, Seq<char>>) -> bool {
    &&& forall|i: int, j: int|
        0 <= i < j < keys.len() ==> comes_before(#[trigger] keys[i], #[trigger] keys[j])
    &&& keys.to_set() == members.dom()
}

/// The compact JSON text of one member of an object.
pub open spec fn member_text(key: Seq<char>, value: Seq<char>) -> Seq<char> {
    json_string(key) + seq![':'] + value
}

/// The compact JSON texts of members, separated by commas.
pub open spec fn member_texts(keys: Seq<Seq<char>>, members: Map<Seq<char>, Seq<char>>) -> Seq<char>
    decreases keys.len(),
{
    if keys.len() == 0 {
        Seq::empty()
    } else if keys.len() == 1 {
        member_text(keys[0], members[keys[0]])
    } else {
        member_text(keys[0], members[keys[0]]) + seq![','] + member_texts(keys.skip(1), members)
    }
}

/// Whether every member's value has the shape of a compact JSON value.
pub open spec fn has_values(members: Map<Seq<char>, Seq<char>>) -> bool {
    forall|key: Seq<char>| #[trigger] members.contains_key(key) ==> is_value(members[key])
}

/// Whether `text` is the compact JSON text of an object with these members.
pub open spec fn is_compact_object(text: Seq<char>, members: Map<Seq<char>, Seq<char>>) -> bool {
    &&& has_values(members)
    &&& exists|keys: Seq<Seq<char>>| #[trigger]
        in_key_order(keys, members) && text == seq!['{'] + member_texts(keys, members) + seq!['}']
}

/// Whether `part` stands somewhere in `text`.
pub open spec fn holds_text(text: Seq<char>, part: Seq<char>) -> bool {
    exists|before: Seq<char>, after: Seq<char>| text == #[trigger] (before + part + after)
}

proof fn lemma_escaped_reads_back(c: char, rest: Seq<char>)
    ensures
        escaped(c).len() > 0,
        escaped(c)[0] != '"',
        read_char(escaped(c) + rest) == Some((c, escaped(c).len() as int)),
        (escaped(c) + rest).skip(escaped(c).len() as int) == rest,
{
    let t = escaped(c) + rest;
    let n = c as int;
    assert(forall|i: int| 0 <= i < escaped(c).len() ==> t[i] == escaped(c)[i]);
    assert(t.skip(escaped(c).len() as int) =~= rest);
    if escaped(c).len() == 6 {
        let hex = t.skip(2);
        assert(hex[0] == '0' && hex[1] == '0');
        assert(hex[2] == hex_digit(n / 16) && hex[3] == hex_digit(n % 16));
        assert(hex_value(hex_digit(n / 16)) == Some(n / 16));
        assert(hex_value(hex_digit(n % 16)) == Some(n % 16));
    }
}

spec fn inner(text: Seq<char>) -> Seq<char> {
    text.map_values(|c: char| escaped(c)).flatten()
}

proof fn lemma_inner(text: Seq<char>)
    requires
        text.len() > 0,
    ensures
        inner(text) == escaped(text[0]) + inner(text.skip(1)),
{
    let all = text.map_values(|c: char| escaped(c));
    assert(all.drop_first() =~= text.skip(1).map_values(|c: char| escaped(c)));
}

proof fn lemma_chars_read_back(text: Seq<char>, rest: Seq<char>)
    ensures
        read_chars(inner(text) + seq!['"'] + rest) == Some((text, rest)),
    decreases text.len(),
{
    let t = inner(text) + seq!['"'] + rest;
    if text.len() == 0 {
        assert(inner(text) =~= Seq::<char>::empty());
        assert(t.skip(1) =~= rest);
        assert(text =~= Seq::<char>::empty());
    } else {
        lemma_inner(text);
        let after = inner(text.skip(1)) + seq!['"'] + rest;
        assert(t =~= escaped(text[0]) + after);
        lemma_escaped_reads_back(text[0], after);
        lemma_chars_read_back(text.skip(1), rest);
        assert(t[0] == escaped(text[0])[0]);
        assert(seq![text[0]] + text.skip(1) =~= text);
    }
}

proof fn lemma_string_reads_back(text: Seq<char>, rest: Seq<char>)
    ensures
        read_string(json_string(text) + rest) == Some((text, rest)),
{
    let t = json_string(text) + rest;
    assert(t.skip(1) =~= inner(text) + seq!['"'] + rest);
    lemma_chars_read_back(text, rest);
}

/// A text reads back from the JSON string that it is written as.
pub proof fn json_string_reads_back(text: Seq<char>)
    ensures
        string_of(json_string(text)) == Some(text),
{
    lemma_string_reads_back(text, Seq::empty());
    assert(json_string(text) + Seq::<char>::empty() =~= json_string(text));
}

proof fn lemma_value_ends(value: Seq<char>, rest: Seq<char>, depth: int, q: Quoting)
    requires
        closes(value, depth, q),
        rest.len() > 0,
        rest[0] == ',' || rest[0] == '}',
    ensures
        value_len(value + rest, depth, q) == value.len(),
    decreases value.len(),
{
    let t = value + rest;
    if value.len() == 0 {
        assert(t =~= rest);
    } else {
        assert(t.skip(1) =~= value.skip(1) + rest);
        lemma_value_ends(
            value.skip(1),
            rest,
            depth_after(depth, q, value[0]),
            quoting_after(q, value[0]),
        );
    }
}

proof fn lemma_members_read_back(keys: Seq<Seq<char>>, members: Map<Seq<char>, Seq<char>>)
    requires
        keys.len() > 0,
        forall|i: int| 0 <= i < keys.len() ==> is_value(members[#[trigger] keys[i]]),
    ensures
        ({
            let read = read_members(member_texts(keys, members) + seq!['}']);
            &&& read is Some
            &&& read->0.dom() == keys.to_set()
            &&& forall|key: Seq<char>| #[trigger]
                read->0.contains_key(key) ==> read->0[key] == members[key]
        }),
    decreases keys.len(),
{
    let key = keys[0];
    let value = members[key];
    let t = member_texts(keys, members) + seq!['}'];
    let more = keys.skip(1);
    let tail = if keys.len() == 1 {
        seq!['}']
    } else {
        seq![','] + member_texts(more, members) + seq!['}']
    };
    let rest = seq![':'] + value + tail;
    assert(t =~= json_string(key) + rest);
    lemma_string_reads_back(key, rest);
    let after = rest.skip(1);
    assert(after =~= value + tail);
    lemma_value_ends(value, tail, 0, unquoted());
    assert(after.skip(value.len() as int) =~= tail);
    assert(after.take(value.len() as int) =~= value);
    if keys.len() == 1 {
        assert(keys =~= seq![key]);
        assert(map![key => value].dom() =~= keys.to_set());
    } else {
        assert(tail[0] == ',');
        assert(tail != seq!['}']);
        assert(tail.skip(1) =~= member_texts(more, members) + seq!['}']);
        assert forall|i: int| 0 <= i < more.len() implies is_value(
            members[#[trigger] more[i]],
        ) by {
            assert(more[i] == keys[i + 1]);
        }
        lemma_members_read_back(more, members);
        let read = read_members(tail.skip(1))->0;
        let both = map![key => value].union_prefer_right(read);
        assert(read_members(t) == Some(both));
        assert forall|k: Seq<char>| both.dom().contains(k) <==> keys.to_set().contains(k) by {
            if keys.contains(k) && k != key {
                let i = choose|i: int| 0 <= i < keys.len() && keys[i] == k;
                assert(more[i - 1] == k);
            }
            if more.contains(k) {
                let i = choose|i: int| 0 <= i < more.len() && more[i] == k;
                assert(keys[i + 1] == k);
            }
            assert(keys.contains(keys[0]));
        }
        assert(both.dom() =~= keys.to_set());
    }
}

/// Whether `text` begins and ends outside strings, has no blanks there, and is on one line.
spec fn is_dense(text: Seq<char>) -> bool {
    &&& quoting_after_all(unquoted(), text) == unquoted()
    &&& without_blanks(text, unquoted()) == text
    &&& one_line(text)
}

proof fn lemma_blanks_of_parts(a: Seq<char>, b: Seq<char>, q: Quoting)
    ensures
        quoting_after_all(q, a + b) == quoting_after_all(quoting_after_all(q, a), b),
        without_blanks(a + b, q) == without_blanks(a, q) + without_blanks(
            b,
            quoting_after_all(q, a),
        ),
    decreases a.len(),
{
    if a.len() == 0 {
        assert(a + b =~= b);
        assert(without_blanks(a, q) + without_blanks(b, q) =~= without_blanks(b, q));
    } else {
        assert((a + b).skip(1) =~= a.skip(1) + b);
        lemma_blanks_of_parts(a.skip(1), b, quoting_after(q, a[0]));
        let rest = without_blanks(b, quoting_after_all(q, a));
        assert(seq![a[0]] + (without_blanks(a.skip(1), quoting_after(q, a[0])) + rest) =~= seq![
            a[0],
        ] + without_blanks(a.skip(1), quoting_after(q, a[0])) + rest);
    }
}

proof fn lemma_dense_parts(a: Seq<char>, b: Seq<char>)
    requires
        is_dense(a),
        is_dense(b),
    ensures
        is_dense(a + b),
{
    lemma_blanks_of_parts(a, b, unquoted());
}

proof fn lemma_dense_char(c: char)
    requires
        c == '{' || c == '}' || c == ':' || c == ',',
    ensures
        is_dense(seq![c]),
{
    reveal_with_fuel(quoting_after_all, 2);
    reveal_with_fuel(without_blanks, 2);
    assert(seq![c].skip(1) =~= Seq::<char>::empty());
    assert(without_blanks(seq![c], unquoted()) =~= seq![c]);
}

proof fn lemma_closes_unquoted(value: Seq<char>, depth: int, q: Quoting)
    requires
        closes(value, depth, q),
    ensures
        quoting_after_all(q, value) == unquoted(),
    decreases value.len(),
{
    if value.len() > 0 {
        lemma_closes_unquoted(
            value.skip(1),
            depth_after(depth, q, value[0]),
            quoting_after(q, value[0]),
        );
    }
}

/// Inside a string, and not behind a backslash.
spec fn quoted() -> Quoting {
    Quoting { inside: true, slashed: false }
}

proof fn lemma_escaped_is_dense(c: char)
    ensures
        quoting_after_all(quoted(), escaped(c)) == quoted(),
        without_blanks(escaped(c), quoted()) == escaped(c),
        one_line(escaped(c)),
{
    let t = escaped(c);
    reveal_with_fuel(quoting_after_all, 8);
    reveal_with_fuel(without_blanks, 8);
    if t.len() == 1 {
        assert(t.skip(1) =~= Seq::<char>::empty());
        assert(without_blanks(t, quoted()) =~= t);
    } else if t.len() == 2 {
        assert(t.skip(1) =~= seq![t[1]]);
        assert(t.skip(1).skip(1) =~= Seq::<char>::empty());
        assert(without_blanks(t, quoted()) =~= t);
    } else {
        assert(t.len() == 6);
        let t1 = t.skip(1);
        let t2 = t1.skip(1);
        let t3 = t2.skip(1);
        let t4 = t3.skip(1);
        let t5 = t4.skip(1);
        assert(t5.skip(1) =~= Seq::<char>::empty());
        assert(t1[0] == t[1] && t2[0] == t[2] && t3[0] == t[3] && t4[0] == t[4] && t5[0] == t[5]);
        assert(without_blanks(t, quoted()) =~= t);
    }
}

proof fn lemma_inner_is_dense(text: Seq<char>)
    ensures
        quoting_after_all(quoted(), inner(text)) == quoted(),
        without_blanks(inner(text), quoted()) == inner(text),
        one_line(inner(text)),
    decreases text.len(),
{
    if text.len() == 0 {
        assert(inner(text) =~= Seq::<char>::empty());
    } else {
        lemma_inner(text);
        lemma_escaped_is_dense(text[0]);
        lemma_inner_is_dense(text.skip(1));
        lemma_blanks_of_parts(escaped(text[0]), inner(text.skip(1)), quoted());
    }
}

proof fn lemma_string_is_dense(text: Seq<char>)
    ensures
        is_dense(json_string(text)),
{
    reveal_with_fuel(quoting_after_all, 2);
    reveal_with_fuel(without_blanks, 2);
    let quote = seq!['"'];
    assert(quote.skip(1) =~= Seq::<char>::empty());
    assert(without_blanks(quote, unquoted()) =~= quote);
    assert(without_blanks(quote, quoted()) =~= quote);
    lemma_inner_is_dense(text);
    lemma_blanks_of_parts(quote, inner(text), unquoted());
    lemma_blanks_of_parts(quote + inner(text), quote, unquoted());
}

proof fn lemma_members_are_dense(keys: Seq<Seq<char>>, members: Map<Seq<char>, Seq<char>>)
    requires
        forall|i: int| 0 <= i < keys.len() ==> is_value(members[#[trigger] keys[i]]),
    ensures
        is_dense(member_texts(keys, members)),
    decreases keys.len(),
{
    if keys.len() > 0 {
        let value = members[keys[0]];
        lemma_string_is_dense(keys[0]);
        lemma_dense_char(':');
        lemma_closes_unquoted(value, 0, unquoted());
        lemma_dense_parts(json_string(keys[0]), seq![':']);
        lemma_dense_parts(json_string(keys[0]) + seq![':'], value);
        if keys.len() > 1 {
            let more = keys.skip(1);
            assert forall|i: int| 0 <= i < more.len() implies is_value(
                members[#[trigger] more[i]],
            ) by {
                assert(more[i] == keys[i + 1]);
            }
            lemma_members_are_dense(more, members);
            lemma_dense_char(',');
            let first = member_text(keys[0], value);
            lemma_dense_parts(first, seq![',']);
            lemma_dense_parts(first + seq![','], member_texts(more, members));
        }
    } else {
        assert(member_texts(keys, members) =~= Seq::<char>::empty());
    }
}

proof fn lemma_object_is_dense(keys: Seq<Seq<char>>, members: Map<Seq<char>, Seq<char>>)
    requires
        has_values(members),
        in_key_order(keys, members),
    ensures
        forall|i: int| 0 <= i < keys.len() ==> is_value(members[#[trigger] keys[i]]),
        is_dense(seq!['{'] + member_texts(keys, members) + seq!['}']),
{
    assert forall|i: int| 0 <= i < keys.len() implies is_value(members[#[trigger] keys[i]]) by {
        assert(keys.to_set().contains(keys[i]));
        assert(members.contains_key(keys[i]));
    }
    lemma_members_are_dense(keys, members);
    lemma_dense_char('{');
    lemma_dense_char('}');
    lemma_dense_parts(seq!['{'], member_texts(keys, members));
    lemma_dense_parts(seq!['{'] + member_texts(keys, members), seq!['}']);
}

/// The compact JSON text of an object is on one line, in braces, and has no blanks outside its
/// strings.
pub proof fn compact_object_is_one_line(text: Seq<char>, members: Map<Seq<char>, Seq<char>>)
    requires
        is_compact_object(text, members),
    ensures
        one_line(text),
        text.len() >= 2,
        text[0] == '{',
        text.last() == '}',
        without_blanks(text, unquoted()) == text,
{
    let keys = choose|keys: Seq<Seq<char>>| #[trigger]
        in_key_order(keys, members) && text == seq!['{'] + member_texts(keys, members) + seq!['}'];
    lemma_object_is_dense(keys, members);
}

/// An object's members read back from its compact JSON text, and from any text that differs from
/// it in blanks outside strings alone.
pub proof fn object_reads_back(text: Seq<char>, members: Map<Seq<char>, Seq<char>>)
    requires
        is_compact_object(without_blanks(text, unquoted()), members),
    ensures
        read_object(text) == Some(members),
{
    let t = without_blanks(text, unquoted());
    let keys = choose|keys: Seq<Seq<char>>| #[trigger]
        in_key_order(keys, members) && t == seq!['{'] + member_texts(keys, members) + seq!['}'];
    lemma_object_is_dense(keys, members);
    if keys.len() == 0 {
        assert(t =~= seq!['{', '}']);
        assert forall|key: Seq<char>| !members.dom().contains(key) by {
            assert(!keys.to_set().contains(key));
        }
        assert(members =~= Map::empty());
    } else {
        assert(t.skip(1) =~= member_texts(keys, members) + seq!['}']);
        assert(t[1] == '"') by {
            assert(member_texts(keys, members)[0] == '"');
        }
        lemma_members_read_back(keys, members);
        assert(read_members(t.skip(1))->0 =~= members);
    }
}

proof fn lemma_order_is_strict(a: Seq<char>, b: Seq<char>)
    ensures
        comes_before(a, b) ==> !comes_before(b, a),
        !comes_before(a, a),
    decreases a.len(),
{
    if a.len() > 0 {
        lemma_order_is_strict(a.skip(1), a.skip(1));
        if b.len() > 0 {
            lemma_order_is_strict(a.skip(1), b.skip(1));
        }
    }
}

spec fn ordered(keys: Seq<Seq<char>>) -> bool {
    forall|i: int, j: int|
        0 <= i < j < keys.len() ==> comes_before(#[trigger] keys[i], #[trigger] keys[j])
}

proof fn lemma_last_is_greatest(a: Seq<Seq<char>>, b: Seq<Seq<char>>)
    requires
        ordered(a),
        ordered(b),
        a.len() > 0,
        b.len() > 0,
        b.contains(a.last()),
        a.contains(b.last()),
    ensures
        a.last() == b.last(),
{
    let i = choose|i: int| 0 <= i < a.len() && a[i] == b.last();
    let j = choose|j: int| 0 <= j < b.len() && b[j] == a.last();
    if a.last() != b.last() {
        assert(comes_before(a[i], a[a.len() - 1]));
        assert(comes_before(b[j], b[b.len() - 1]));
        lemma_order_is_strict(a.last(), b.last());
    }
}

proof fn lemma_order_is_unique(a: Seq<Seq<char>>, b: Seq<Seq<char>>)
    requires
        ordered(a),
        ordered(b),
        forall|k: Seq<char>| a.contains(k) <==> b.contains(k),
    ensures
        a == b,
    decreases a.len(),
{
    if a.len() == 0 {
        if b.len() > 0 {
            assert(b.contains(b[0]));
        }
        assert(a =~= b);
    } else {
        assert(a.contains(a.last()));
        assert(b.len() > 0);
        assert(b.contains(b.last()));
        lemma_last_is_greatest(a, b);
        let a1 = a.drop_last();
        let b1 = b.drop_last();
        assert forall|k: Seq<char>| a1.contains(k) <==> b1.contains(k) by {
            lemma_order_is_strict(k, k);
            if a1.contains(k) {
                let i = choose|i: int| 0 <= i < a1.len() && a1[i] == k;
                assert(comes_before(a[i], a[a.len() - 1]));
                assert(a.contains(a[i]));
                let j = choose|j: int| 0 <= j < b.len() && b[j] == k;
                assert(b1[j] == k);
            }
            if b1.contains(k) {
                let j = choose|j: int| 0 <= j < b1.len() && b1[j] == k;
                assert(comes_before(b[j], b[b.len() - 1]));
                assert(b.contains(b[j]));
                let i = choose|i: int| 0 <= i < a.len() && a[i] == k;
                assert(a1[i] == k);
            }
        }
        lemma_order_is_unique(a1, b1);
        assert(a =~= a1.push(a.last()));
        assert(b =~= b1.push(b.last()));
    }
}

/// An object has one compact JSON text.
pub proof fn compact_object_is_unique(
    one: Seq<char>,
    other: Seq<char>,
    members: Map<Seq<char>, Seq<char>>,
)
    requires
        is_compact_object(one, members),
        is_compact_object(other, members),
    ensures
        one == other,
{
    let a = choose|keys: Seq<Seq<char>>| #[trigger]
        in_key_order(keys, members) && one == seq!['{'] + member_texts(keys, members) + seq!['}'];
    let b = choose|keys: Seq<Seq<char>>| #[trigger]
        in_key_order(keys, members) && other == seq!['{'] + member_texts(keys, members) + seq!['}'];
    assert forall|k: Seq<char>| a.contains(k) <==> b.contains(k) by {
        assert(a.contains(k) <==> a.to_set().contains(k));
        assert(b.contains(k) <==> b.to_set().contains(k));
    }
    lemma_order_is_unique(a, b);
}

proof fn lemma_member_stands_in_text(
    keys: Seq<Seq<char>>,
    members: Map<Seq<char>, Seq<char>>,
    i: int,
)
    requires
        0 <= i < keys.len(),
    ensures
        holds_text(member_texts(keys, members), member_text(keys[i], members[keys[i]])),
    decreases keys.len(),
{
    let part = member_text(keys[i], members[keys[i]]);
    let text = member_texts(keys, members);
    let none = Seq::<char>::empty();
    if keys.len() == 1 {
        assert(text =~= none + part + none);
    } else if i == 0 {
        let after = seq![','] + member_texts(keys.skip(1), members);
        assert(text =~= none + part + after);
    } else {
        lemma_member_stands_in_text(keys.skip(1), members, i - 1);
        let rest = member_texts(keys.skip(1), members);
        let (before, after) = choose|before: Seq<char>, after: Seq<char>|
            rest == #[trigger] (before + part + after);
        let head = member_text(keys[0], members[keys[0]]) + seq![','] + before;
        assert(text =~= head + part + after);
    }
}

/// Every member of an object stands in its compact JSON text.
pub proof fn compact_object_holds_each_member(
    text: Seq<char>,
    members: Map<Seq<char>, Seq<char>>,
    key: Seq<char>,
)
    requires
        is_compact_object(text, members),
        members.contains_key(key),
    ensures
        holds_text(text, member_text(key, members[key])),
{
    let keys = choose|keys: Seq<Seq<char>>| #[trigger]
        in_key_order(keys, members) && text == seq!['{'] + member_texts(keys, members) + seq!['}'];
    assert(keys.to_set().contains(key));
    let i = choose|i: int| 0 <= i < keys.len() && keys[i] == key;
    lemma_member_stands_in_text(keys, members, i);
    let part = member_text(key, members[key]);
    let (before, after) = choose|before: Seq<char>, after: Seq<char>|
        member_texts(keys, members) == #[trigger] (before + part + after);
    assert(text =~= (seq!['{'] + before) + part + (after + seq!['}']));
}

} // verus!
