//! JSON texts: strings, as `serde_json` writes them, the lists made of them, and what the texts say.
use vstd::prelude::*;

use crate::text::{join, join_with, texts};

verus! {

/// The error of `serde_json`, carried without looking inside.
#[verifier::external_type_specification]
#[verifier::external_body]
pub struct ExSerdeJsonError(serde_json::Error);

/// The character of the hexadecimal digit `d`, in lower case.
pub open spec fn hex_digit(d: nat) -> char {
    if d < 10 {
        ('0' as nat + d) as char
    } else {
        ('a' as nat + (d - 10) as nat) as char
    }
}

/// How `c` is written inside a JSON string: quotation mark, backslash and control characters are
/// escaped, everything else stands for itself.
pub open spec fn escaped(c: char) -> Seq<char> {
    if c == '"' {
        seq!['\\', '"']
    } else if c == '\\' {
        seq!['\\', '\\']
    } else if c == '\u{8}' {
        seq!['\\', 'b']
    } else if c == '\u{9}' {
        seq!['\\', 't']
    } else if c == '\u{a}' {
        seq!['\\', 'n']
    } else if c == '\u{c}' {
        seq!['\\', 'f']
    } else if c == '\u{d}' {
        seq!['\\', 'r']
    } else if (c as nat) < 0x20 {
        seq!['\\', 'u', '0', '0', hex_digit(c as nat / 16), hex_digit(c as nat % 16)]
    } else {
        seq![c]
    }
}

/// The characters of `s`, each as it is written inside a JSON string.
pub open spec fn escaped_text(s: Seq<char>) -> Seq<char>
    decreases s.len(),
{
    if s.len() == 0 {
        seq![]
    } else {
        escaped(s[0]) + escaped_text(s.drop_first())
    }
}

/// `s` as a JSON string.
pub open spec fn json_string(s: Seq<char>) -> Seq<char> {
    seq!['"'] + escaped_text(s) + seq!['"']
}

/// Each of `list` as a JSON string.
pub open spec fn json_strings(list: Seq<Seq<char>>) -> Seq<Seq<char>> {
    list.map_values(|s: Seq<char>| json_string(s))
}

/// The texts of `items` between brackets, with a comma between each two.
pub open spec fn json_array(items: Seq<Seq<char>>) -> Seq<char> {
    seq!['['] + join_with(items, seq![',']) + seq![']']
}

/// `list` as a JSON list of strings.
pub open spec fn json_list(list: Seq<Seq<char>>) -> Seq<char> {
    json_array(json_strings(list))
}

/// Calls `serde_json::to_string` on a string slice. It writes the characters between two
/// quotation marks, escaped as `escaped` says, and cannot fail: only a `Serialize` that decides
/// to fail, a map or a failing writer gives an error, and here there is none of them.
#[verifier::external_body]
fn serialize_str(text: &str) -> (json: Result<String, serde_json::Error>)
    ensures
        json is Ok,
        json->Ok_0@ == json_string(text@),
{
    serde_json::to_string(text)
}

/// `text` as a JSON string.
pub fn string_to_json(text: &str) -> (json: String)
    ensures
        json@ == json_string(text@),
{
    serialize_str(text).unwrap()
}

/// `list` as a JSON list of strings.
pub fn list_to_json(list: &[String]) -> (json: String)
    ensures
        json@ == json_list(texts(list@)),
        json@ == seq!['['] + join_with(
            Seq::new(list@.len(), |i: int| json_string(list@[i]@)),
            seq![','],
        ) + seq![']'],
{
    let mut items: Vec<String> = Vec::new();
    let mut i: usize = 0;
    while i < list.len()
        invariant
            i <= list@.len(),
            items@.len() == i,
            forall|k: int| 0 <= k < i ==> items@[k]@ == json_string(list@[k]@),
        decreases list@.len() - i,
    {
        items.push(string_to_json(list[i].as_str()));
        i += 1;
    }
    assert(texts(items@) =~= json_strings(texts(list@)));
    assert(texts(items@) =~= Seq::new(list@.len(), |i: int| json_string(list@[i]@)));
    array_of(&items)
}

/// The texts of `items` between brackets, with a comma between each two.
pub fn array_of(items: &Vec<String>) -> (json: String)
    ensures
        json@ == json_array(texts(items@)),
        json@ == seq!['['] + join_with(texts(items@), seq![',']) + seq![']'],
{
    let joined = join(items, ",");
    let mut json = String::new();
    json.append("[");
    json.append(joined.as_str());
    json.append("]");
    proof {
        reveal_strlit("[");
        reveal_strlit("]");
        reveal_strlit(",");
        assert(","@ =~= seq![',']);
        assert(json@ =~= json_array(texts(items@)));
    }
    json
}

// ---------------------------------------------------------------------------
// What the texts keep

/// No control character stands in `s`.
pub open spec fn printable(s: Seq<char>) -> bool {
    forall|i: int| 0 <= i < s.len() ==> #[trigger] s[i] as nat >= 0x20
}

/// A JSON string holds no control character, whatever the text holds.
pub proof fn json_string_is_printable(s: Seq<char>)
    ensures
        printable(json_string(s)),
{
    lemma_escaped_text_is_printable(s);
}

proof fn lemma_escaped_text_is_printable(s: Seq<char>)
    ensures
        printable(escaped_text(s)),
    decreases s.len(),
{
    if s.len() > 0 {
        lemma_escaped_text_is_printable(s.drop_first());
        let rest = escaped_text(s.drop_first());
        let first = escaped(s[0]);
        assert forall|i: int| 0 <= i < escaped_text(s).len() implies #[trigger] escaped_text(s)[i] as nat
            >= 0x20 by {
            if i < first.len() {
                assert(escaped_text(s)[i] == first[i]);
            } else {
                assert(escaped_text(s)[i] == rest[i - first.len()]);
            }
        }
    }
}

/// A JSON list of strings holds no control character, whatever the texts hold.
pub proof fn json_list_is_printable(list: Seq<Seq<char>>)
    ensures
        printable(json_list(list)),
{
    assert forall|i: int| 0 <= i < json_strings(list).len() implies printable(
        #[trigger] json_strings(list)[i],
    ) by {
        json_string_is_printable(list[i]);
    }
    lemma_join_is_printable(json_strings(list), seq![',']);
}

proof fn lemma_join_is_printable(parts: Seq<Seq<char>>, sep: Seq<char>)
    requires
        forall|i: int| 0 <= i < parts.len() ==> printable(#[trigger] parts[i]),
        printable(sep),
    ensures
        printable(join_with(parts, sep)),
    decreases parts.len(),
{
    if parts.len() > 1 {
        let rest = parts.drop_first();
        assert forall|i: int| 0 <= i < rest.len() implies printable(#[trigger] rest[i]) by {
            assert(rest[i] == parts[i + 1]);
        }
        lemma_join_is_printable(rest, sep);
    }
}

/// A JSON string ends where its text ends: what stands before another text can be told from it.
pub proof fn json_string_is_self_delimiting(
    a: Seq<char>,
    x: Seq<char>,
    b: Seq<char>,
    y: Seq<char>,
)
    requires
        json_string(a) + x == json_string(b) + y,
    ensures
        a == b,
        x == y,
{
    let left = escaped_text(a) + seq!['"'] + x;
    let right = escaped_text(b) + seq!['"'] + y;
    assert((json_string(a) + x).skip(1) =~= left);
    assert((json_string(b) + y).skip(1) =~= right);
    lemma_escaped_text_is_self_delimiting(a, x, b, y);
}

proof fn lemma_escaped_text_is_self_delimiting(
    a: Seq<char>,
    x: Seq<char>,
    b: Seq<char>,
    y: Seq<char>,
)
    requires
        escaped_text(a) + seq!['"'] + x == escaped_text(b) + seq!['"'] + y,
    ensures
        a == b,
        x == y,
    decreases a.len(),
{
    let left = escaped_text(a) + seq!['"'] + x;
    let right = escaped_text(b) + seq!['"'] + y;
    assert(left[0] == right[0]);
    if a.len() == 0 {
        assert(left[0] == '"');
        if b.len() > 0 {
            assert(right[0] == escaped(b[0])[0]);
        }
        assert(x =~= left.skip(1));
        assert(y =~= right.skip(1));
        assert(a =~= b);
    } else if b.len() == 0 {
        assert(right[0] == '"');
        assert(left[0] == escaped(a[0])[0]);
    } else {
        let m = escaped(a[0]);
        let n = escaped(b[0]);
        let left_rest = escaped_text(a.drop_first()) + seq!['"'] + x;
        let right_rest = escaped_text(b.drop_first()) + seq!['"'] + y;
        assert(left =~= m + left_rest);
        assert(right =~= n + right_rest);
        lemma_escaped_is_self_delimiting(a[0], left_rest, b[0], right_rest);
        lemma_escaped_text_is_self_delimiting(a.drop_first(), x, b.drop_first(), y);
        assert(a =~= seq![a[0]] + a.drop_first());
        assert(b =~= seq![b[0]] + b.drop_first());
    }
}

proof fn lemma_escaped_is_self_delimiting(a: char, x: Seq<char>, b: char, y: Seq<char>)
    requires
        escaped(a) + x == escaped(b) + y,
    ensures
        a == b,
        x == y,
{
    let left = escaped(a) + x;
    let right = escaped(b) + y;
    assert(left[0] == escaped(a)[0]);
    assert(right[0] == escaped(b)[0]);
    if left[0] == '\\' {
        assert(left[1] == escaped(a)[1]);
        assert(right[1] == escaped(b)[1]);
        if left[1] == 'u' {
            assert(left[4] == escaped(a)[4] && left[5] == escaped(a)[5]);
            assert(right[4] == escaped(b)[4] && right[5] == escaped(b)[5]);
        }
    }
    assert(a == b);
    assert(x =~= left.skip(escaped(a).len() as int));
    assert(y =~= right.skip(escaped(b).len() as int));
}

/// A JSON list of strings ends where the list ends, and two lists have the same text only if they
/// are the same list.
pub proof fn json_list_is_self_delimiting(
    a: Seq<Seq<char>>,
    x: Seq<char>,
    b: Seq<Seq<char>>,
    y: Seq<char>,
)
    requires
        json_list(a) + x == json_list(b) + y,
    ensures
        a == b,
        x == y,
{
    let left = join_with(json_strings(a), seq![',']) + seq![']'] + x;
    let right = join_with(json_strings(b), seq![',']) + seq![']'] + y;
    assert((json_list(a) + x).skip(1) =~= left);
    assert((json_list(b) + y).skip(1) =~= right);
    lemma_items_are_self_delimiting(a, x, b, y);
}

/// The text of the items and what follows them, with the first item taken apart.
proof fn lemma_items_unfold(a: Seq<Seq<char>>, x: Seq<char>)
    requires
        a.len() > 0,
    ensures
        join_with(json_strings(a), seq![',']) + seq![']'] + x == json_string(a[0]) + if a.len()
            == 1 {
            seq![']'] + x
        } else {
            seq![','] + (join_with(json_strings(a.drop_first()), seq![',']) + seq![']'] + x)
        },
{
    assert(json_strings(a).drop_first() =~= json_strings(a.drop_first()));
    assert(json_strings(a)[0] == json_string(a[0]));
    let whole = join_with(json_strings(a), seq![',']) + seq![']'] + x;
    if a.len() == 1 {
        assert(whole =~= json_string(a[0]) + (seq![']'] + x));
    } else {
        let rest = join_with(json_strings(a.drop_first()), seq![',']) + seq![']'] + x;
        assert(whole =~= json_string(a[0]) + (seq![','] + rest));
    }
}

proof fn lemma_items_are_self_delimiting(
    a: Seq<Seq<char>>,
    x: Seq<char>,
    b: Seq<Seq<char>>,
    y: Seq<char>,
)
    requires
        join_with(json_strings(a), seq![',']) + seq![']'] + x == join_with(
            json_strings(b),
            seq![','],
        ) + seq![']'] + y,
    ensures
        a == b,
        x == y,
    decreases a.len(),
{
    let left = join_with(json_strings(a), seq![',']) + seq![']'] + x;
    let right = join_with(json_strings(b), seq![',']) + seq![']'] + y;
    if a.len() > 0 {
        lemma_items_unfold(a, x);
        assert(left[0] == '"');
    } else {
        assert(left[0] == ']');
    }
    if b.len() > 0 {
        lemma_items_unfold(b, y);
        assert(right[0] == '"');
    } else {
        assert(right[0] == ']');
    }
    if a.len() == 0 {
        assert(x =~= left.skip(1));
        assert(y =~= right.skip(1));
        assert(a =~= b);
    } else {
        let left_rest = join_with(json_strings(a.drop_first()), seq![',']) + seq![']'] + x;
        let right_rest = join_with(json_strings(b.drop_first()), seq![',']) + seq![']'] + y;
        let p = if a.len() == 1 {
            seq![']'] + x
        } else {
            seq![','] + left_rest
        };
        let q = if b.len() == 1 {
            seq![']'] + y
        } else {
            seq![','] + right_rest
        };
        json_string_is_self_delimiting(a[0], p, b[0], q);
        assert(p[0] == q[0]);
        if a.len() == 1 {
            assert(x =~= p.skip(1));
            assert(y =~= q.skip(1));
            assert(a =~= b);
        } else {
            assert(left_rest =~= p.skip(1));
            assert(right_rest =~= q.skip(1));
            lemma_items_are_self_delimiting(a.drop_first(), x, b.drop_first(), y);
            assert(a =~= seq![a[0]] + a.drop_first());
            assert(b =~= seq![b[0]] + b.drop_first());
        }
    }
}

// ---------------------------------------------------------------------------
// What the texts say

/// What a JSON text says, as far as texts are written here: strings, lists and objects.
pub enum Json {
    Text(Seq<char>),
    List(Seq<Json>),
    Object(Seq<(Seq<char>, Json)>),
}

/// The value of the hexadecimal digit `c`, in either case.
pub open spec fn hex_value(c: char) -> Option<nat> {
    if '0' <= c <= '9' {
        Some((c as nat - '0' as nat) as nat)
    } else if 'a' <= c <= 'f' {
        Some((c as nat - 'a' as nat + 10) as nat)
    } else if 'A' <= c <= 'F' {
        Some((c as nat - 'A' as nat + 10) as nat)
    } else {
        None
    }
}

/// The character that an escape sequence stands for, whose backslash has been read, and what
/// follows it. Halves of surrogate pairs are not read.
pub open spec fn read_escape(s: Seq<char>) -> Option<(char, Seq<char>)> {
    if s.len() == 0 {
        None
    } else if s[0] == '"' || s[0] == '\\' || s[0] == '/' {
        Some((s[0], s.skip(1)))
    } else if s[0] == 'b' {
        Some(('\u{8}', s.skip(1)))
    } else if s[0] == 't' {
        Some(('\u{9}', s.skip(1)))
    } else if s[0] == 'n' {
        Some(('\u{a}', s.skip(1)))
    } else if s[0] == 'f' {
        Some(('\u{c}', s.skip(1)))
    } else if s[0] == 'r' {
        Some(('\u{d}', s.skip(1)))
    } else if s[0] == 'u' && s.len() >= 5 {
        match (hex_value(s[1]), hex_value(s[2]), hex_value(s[3]), hex_value(s[4])) {
            (Some(a), Some(b), Some(c), Some(d)) => {
                let code = 4096 * a + 256 * b + 16 * c + d;
                if 0xD800 <= code <= 0xDFFF {
                    None
                } else {
                    Some((code as char, s.skip(5)))
                }
            },
            _ => None,
        }
    } else {
        None
    }
}

/// The text of a JSON string, whose opening quotation mark has been read, and what follows it.
pub open spec fn read_text(s: Seq<char>) -> Option<(Seq<char>, Seq<char>)>
    decreases s.len(),
{
    if s.len() == 0 {
        None
    } else if s[0] == '"' {
        Some((seq![], s.skip(1)))
    } else if s[0] == '\\' {
        match read_escape(s.skip(1)) {
            Some((c, after)) => if after.len() < s.len() {
                match read_text(after) {
                    Some((text, rest)) => Some((seq![c] + text, rest)),
                    None => None,
                }
            } else {
                None
            },
            None => None,
        }
    } else if (s[0] as nat) < 0x20 {
        None
    } else {
        match read_text(s.skip(1)) {
            Some((text, rest)) => Some((seq![s[0]] + text, rest)),
            None => None,
        }
    }
}

/// The JSON value that `s` begins with, and what follows it. White space is not skipped, and
/// numbers, `true`, `false` and `null` are not read.
pub open spec fn read_value(s: Seq<char>) -> Option<(Json, Seq<char>)>
    decreases s.len(), 0nat,
{
    if s.len() == 0 {
        None
    } else if s[0] == '"' {
        match read_text(s.skip(1)) {
            Some((text, rest)) => Some((Json::Text(text), rest)),
            None => None,
        }
    } else if s[0] == '[' {
        if s.len() > 1 && s[1] == ']' {
            Some((Json::List(seq![]), s.skip(2)))
        } else {
            match read_items(s.skip(1)) {
                Some((items, rest)) => Some((Json::List(items), rest)),
                None => None,
            }
        }
    } else if s[0] == '{' {
        if s.len() > 1 && s[1] == '}' {
            Some((Json::Object(seq![]), s.skip(2)))
        } else {
            match read_members(s.skip(1)) {
                Some((members, rest)) => Some((Json::Object(members), rest)),
                None => None,
            }
        }
    } else {
        None
    }
}

/// The items of a JSON list up to its closing bracket, and what follows it.
pub open spec fn read_items(s: Seq<char>) -> Option<(Seq<Json>, Seq<char>)>
    decreases s.len(), 1nat,
{
    match read_value(s) {
        Some((value, after)) => if after.len() > 0 && after[0] == ']' {
            Some((seq![value], after.skip(1)))
        } else if 0 < after.len() <= s.len() && after[0] == ',' {
            match read_items(after.skip(1)) {
                Some((more, rest)) => Some((seq![value] + more, rest)),
                None => None,
            }
        } else {
            None
        },
        None => None,
    }
}

/// The members of a JSON object up to its closing brace, and what follows it.
pub open spec fn read_members(s: Seq<char>) -> Option<(Seq<(Seq<char>, Json)>, Seq<char>)>
    decreases s.len(), 1nat,
{
    if s.len() == 0 || s[0] != '"' {
        None
    } else {
        match read_text(s.skip(1)) {
            Some((key, colon)) => if 0 < colon.len() <= s.len() && colon[0] == ':' {
                match read_value(colon.skip(1)) {
                    Some((value, after)) => if after.len() > 0 && after[0] == '}' {
                        Some((seq![(key, value)], after.skip(1)))
                    } else if 0 < after.len() <= s.len() && after[0] == ',' {
                        match read_members(after.skip(1)) {
                            Some((more, rest)) => Some((seq![(key, value)] + more, rest)),
                            None => None,
                        }
                    } else {
                        None
                    },
                    None => None,
                }
            } else {
                None
            },
            None => None,
        }
    }
}

/// What the JSON text `s` says, where it is one value and nothing more.
pub open spec fn parsed(s: Seq<char>) -> Option<Json> {
    match read_value(s) {
        Some((value, rest)) => if rest.len() == 0 {
            Some(value)
        } else {
            None
        },
        None => None,
    }
}

/// `text` says `value`, whatever follows it.
pub open spec fn says(text: Seq<char>, value: Json) -> bool {
    forall|rest: Seq<char>| #[trigger] read_value(text + rest) == Some((value, rest))
}

/// The member of an object with the name `key`, whose value is written `value`.
pub open spec fn json_member(key: Seq<char>, value: Seq<char>) -> Seq<char> {
    json_string(key) + seq![':'] + value
}

/// The object with the members `members`, each a name and how its value is written.
pub open spec fn json_object(members: Seq<(Seq<char>, Seq<char>)>) -> Seq<char> {
    seq!['{'] + join_with(
        members.map_values(|member: (Seq<char>, Seq<char>)| json_member(member.0, member.1)),
        seq![','],
    ) + seq!['}']
}

/// A text that says something is parsed as that.
pub proof fn what_is_said_is_parsed(text: Seq<char>, value: Json)
    requires
        says(text, value),
    ensures
        parsed(text) == Some(value),
{
    assert(text + Seq::<char>::empty() =~= text);
}

/// An escaped character is read as the character.
proof fn lemma_escape_is_read(c: char, rest: Seq<char>)
    requires
        escaped(c)[0] == '\\',
    ensures
        read_escape((escaped(c) + rest).skip(1)) == Some((c, rest)),
{
    let s = (escaped(c) + rest).skip(1);
    assert(s[0] == escaped(c)[1]);
    if escaped(c).len() == 2 {
        assert(s.skip(1) =~= rest);
    } else {
        assert(s[1] == '0' && s[2] == '0');
        assert(s[3] == hex_digit(c as nat / 16));
        assert(s[4] == hex_digit(c as nat % 16));
        assert(hex_value(s[3]) == Some(c as nat / 16));
        assert(hex_value(s[4]) == Some(c as nat % 16));
        assert(s.skip(5) =~= rest);
    }
}

/// An escaped text is read as the text.
proof fn lemma_text_is_read(a: Seq<char>, rest: Seq<char>)
    ensures
        read_text(escaped_text(a) + seq!['"'] + rest) == Some((a, rest)),
    decreases a.len(),
{
    let s = escaped_text(a) + seq!['"'] + rest;
    if a.len() == 0 {
        assert(s[0] == '"');
        assert(s.skip(1) =~= rest);
        assert(a =~= seq![]);
    } else {
        let shorter = a.drop_first();
        let after = escaped_text(shorter) + seq!['"'] + rest;
        lemma_text_is_read(shorter, rest);
        assert(s =~= escaped(a[0]) + after);
        assert(s[0] == escaped(a[0])[0]);
        assert(a =~= seq![a[0]] + shorter);
        if escaped(a[0]).len() > 1 {
            lemma_escape_is_read(a[0], after);
        } else {
            assert(s.skip(1) =~= after);
        }
    }
}

/// A JSON string says the text that it was made of.
pub proof fn strings_say_their_text(a: Seq<char>)
    ensures
        says(json_string(a), Json::Text(a)),
{
    assert forall|rest: Seq<char>| #[trigger] read_value(json_string(a) + rest) == Some(
        (Json::Text(a), rest),
    ) by {
        lemma_text_is_read(a, rest);
        assert((json_string(a) + rest).skip(1) =~= escaped_text(a) + seq!['"'] + rest);
    }
}

/// A text that says something begins as values do.
proof fn lemma_says_begins(text: Seq<char>, value: Json)
    requires
        says(text, value),
    ensures
        text.len() > 0,
        text[0] == '"' || text[0] == '[' || text[0] == '{',
{
    assert(text + Seq::<char>::empty() =~= text);
    assert(read_value(text + Seq::<char>::empty()) is Some);
}

proof fn lemma_items_are_read(items: Seq<Seq<char>>, values: Seq<Json>, rest: Seq<char>)
    requires
        items.len() > 0,
        items.len() == values.len(),
        forall|i: int| 0 <= i < items.len() ==> says(#[trigger] items[i], values[i]),
    ensures
        read_items(join_with(items, seq![',']) + seq![']'] + rest) == Some((values, rest)),
    decreases items.len(),
{
    let s = join_with(items, seq![',']) + seq![']'] + rest;
    assert(says(items[0], values[0]));
    if items.len() == 1 {
        let after = seq![']'] + rest;
        assert(s =~= items[0] + after);
        assert(read_value(items[0] + after) == Some((values[0], after)));
        assert(after.skip(1) =~= rest);
        assert(values =~= seq![values[0]]);
    } else {
        let fewer = items.drop_first();
        let less = values.drop_first();
        assert forall|i: int| 0 <= i < fewer.len() implies says(#[trigger] fewer[i], less[i]) by {
            assert(says(items[i + 1], values[i + 1]));
        }
        lemma_items_are_read(fewer, less, rest);
        let next = join_with(fewer, seq![',']) + seq![']'] + rest;
        let after = seq![','] + next;
        assert(s =~= items[0] + after);
        assert(read_value(items[0] + after) == Some((values[0], after)));
        assert(after.skip(1) =~= next);
        assert(values =~= seq![values[0]] + less);
    }
}

/// A JSON list says what its items say.
pub proof fn arrays_say_their_items(items: Seq<Seq<char>>, values: Seq<Json>)
    requires
        items.len() == values.len(),
        forall|i: int| 0 <= i < items.len() ==> says(#[trigger] items[i], values[i]),
    ensures
        says(json_array(items), Json::List(values)),
{
    assert forall|rest: Seq<char>| #[trigger] read_value(json_array(items) + rest) == Some(
        (Json::List(values), rest),
    ) by {
        let s = json_array(items) + rest;
        if items.len() == 0 {
            assert(s[0] == '[' && s[1] == ']');
            assert(s.skip(2) =~= rest);
            assert(values =~= seq![]);
        } else {
            lemma_items_are_read(items, values, rest);
            assert(s.skip(1) =~= join_with(items, seq![',']) + seq![']'] + rest);
            lemma_says_begins(items[0], values[0]);
            assert(s[1] == items[0][0]);
        }
    }
}

/// A JSON list of strings says the texts that it was made of.
pub proof fn lists_say_their_texts(list: Seq<Seq<char>>)
    ensures
        says(json_list(list), Json::List(list.map_values(|text: Seq<char>| Json::Text(text)))),
{
    let values = list.map_values(|text: Seq<char>| Json::Text(text));
    assert forall|i: int| 0 <= i < list.len() implies says(
        #[trigger] json_strings(list)[i],
        values[i],
    ) by {
        strings_say_their_text(list[i]);
    }
    arrays_say_their_items(json_strings(list), values);
}

/// How the members of an object are written.
spec fn member_texts(members: Seq<(Seq<char>, Seq<char>)>) -> Seq<Seq<char>> {
    members.map_values(|member: (Seq<char>, Seq<char>)| json_member(member.0, member.1))
}

proof fn lemma_members_are_read(
    members: Seq<(Seq<char>, Seq<char>)>,
    values: Seq<(Seq<char>, Json)>,
    rest: Seq<char>,
)
    requires
        members.len() > 0,
        members.len() == values.len(),
        forall|i: int|
            0 <= i < members.len() ==> (#[trigger] members[i]).0 == values[i].0 && says(
                members[i].1,
                values[i].1,
            ),
    ensures
        read_members(join_with(member_texts(members), seq![',']) + seq!['}'] + rest) == Some(
            (values, rest),
        ),
    decreases members.len(),
{
    let texts = member_texts(members);
    let (key, text) = members[0];
    let value = values[0].1;
    assert(says(text, value));
    assert(texts[0] == json_member(key, text));
    let s = join_with(texts, seq![',']) + seq!['}'] + rest;
    if members.len() == 1 {
        let after = seq!['}'] + rest;
        lemma_member_begins(s, key, text, after);
        assert(read_value(text + after) == Some((value, after)));
        assert(after.skip(1) =~= rest);
        assert(values =~= seq![(key, value)]);
    } else {
        let fewer = members.drop_first();
        let less = values.drop_first();
        assert forall|i: int| 0 <= i < fewer.len() implies (#[trigger] fewer[i]).0 == less[i].0
            && says(fewer[i].1, less[i].1) by {
            assert(members[i + 1].0 == values[i + 1].0);
        }
        lemma_members_are_read(fewer, less, rest);
        assert(texts.drop_first() =~= member_texts(fewer));
        let next = join_with(member_texts(fewer), seq![',']) + seq!['}'] + rest;
        let after = seq![','] + next;
        lemma_member_begins(s, key, text, after);
        assert(read_value(text + after) == Some((value, after)));
        assert(after.skip(1) =~= next);
        assert(values =~= seq![(key, value)] + less);
    }
}

/// Reading a member: first its name, then a colon, then its value.
proof fn lemma_member_begins(s: Seq<char>, key: Seq<char>, text: Seq<char>, after: Seq<char>)
    requires
        s =~= json_member(key, text) + after,
    ensures
        s.len() > 0,
        s[0] == '"',
        read_text(s.skip(1)) == Some((key, seq![':'] + (text + after))),
        (seq![':'] + (text + after)).skip(1) == text + after,
        (seq![':'] + (text + after)).len() <= s.len(),
{
    let colon = seq![':'] + (text + after);
    lemma_text_is_read(key, colon);
    assert(s.skip(1) =~= escaped_text(key) + seq!['"'] + colon);
    assert(colon.skip(1) =~= text + after);
}

/// A JSON object says what its members say.
pub proof fn objects_say_their_members(
    members: Seq<(Seq<char>, Seq<char>)>,
    values: Seq<(Seq<char>, Json)>,
)
    requires
        members.len() == values.len(),
        forall|i: int|
            0 <= i < members.len() ==> (#[trigger] members[i]).0 == values[i].0 && says(
                members[i].1,
                values[i].1,
            ),
    ensures
        says(json_object(members), Json::Object(values)),
{
    assert forall|rest: Seq<char>| #[trigger] read_value(json_object(members) + rest) == Some(
        (Json::Object(values), rest),
    ) by {
        let s = json_object(members) + rest;
        let texts = member_texts(members);
        if members.len() == 0 {
            assert(s[0] == '{' && s[1] == '}');
            assert(s.skip(2) =~= rest);
            assert(values =~= seq![]);
        } else {
            lemma_members_are_read(members, values, rest);
            assert(s.skip(1) =~= join_with(texts, seq![',']) + seq!['}'] + rest);
            assert(texts[0] == json_member(members[0].0, members[0].1));
            assert(s[1] == '"');
        }
    }
}

/// A text without quotation marks, backslashes and control characters stands for itself between
/// the quotation marks.
pub proof fn plain_texts_are_only_quoted(s: Seq<char>)
    requires
        forall|i: int|
            0 <= i < s.len() ==> #[trigger] s[i] != '"' && s[i] != '\\' && s[i] as nat >= 0x20,
    ensures
        json_string(s) == seq!['"'] + s + seq!['"'],
{
    lemma_plain_text(s);
}

proof fn lemma_plain_text(s: Seq<char>)
    requires
        forall|i: int|
            0 <= i < s.len() ==> #[trigger] s[i] != '"' && s[i] != '\\' && s[i] as nat >= 0x20,
    ensures
        escaped_text(s) == s,
    decreases s.len(),
{
    if s.len() > 0 {
        let rest = s.drop_first();
        assert forall|i: int| 0 <= i < rest.len() implies #[trigger] rest[i] != '"' && rest[i]
            != '\\' && rest[i] as nat >= 0x20 by {
            assert(rest[i] == s[i + 1]);
        }
        lemma_plain_text(rest);
        assert(s[0] != '"' && s[0] != '\\');
        assert(escaped(s[0]) == seq![s[0]]);
        assert(s =~= seq![s[0]] + rest);
    }
}

/// A text comes back from its JSON string, and a list of texts from its JSON list: as many as there
/// are, and each in its place.
pub proof fn texts_come_back_from_json(text: Seq<char>, list: Seq<Seq<char>>, i: int)
    ensures
        parsed(json_string(text)) == Some(Json::Text(text)),
        parsed(json_list(list)) is Some,
        parsed(json_list(list))->Some_0 is List,
        parsed(json_list(list))->Some_0->List_0.len() == list.len(),
        0 <= i < list.len() ==> parsed(json_list(list))->Some_0->List_0[i] == Json::Text(list[i]),
{
    strings_say_their_text(text);
    what_is_said_is_parsed(json_string(text), Json::Text(text));
    lists_say_their_texts(list);
    what_is_said_is_parsed(
        json_list(list),
        Json::List(list.map_values(|text: Seq<char>| Json::Text(text))),
    );
}

} // verus!
