//! Pieces of text: fields, lines, trimming and decimal numbers, on sequences of characters.
use vstd::prelude::*;

verus! {

/// `String::push` adds one character at the end of the string and leaves the rest as it was.
pub assume_specification[ String::push ](s: &mut String, ch: char)
    ensures
        final(s)@ == old(s)@.push(ch),
;

/// The characters of each string of a list.
pub open spec fn texts(list: Seq<String>) -> Seq<Seq<char>> {
    list.map_values(|s: String| s@)
}

/// The characters of `text`, one after the other.
pub fn chars_of(text: &str) -> (chars: Vec<char>)
    ensures
        chars@ == text@,
{
    let mut chars: Vec<char> = Vec::new();
    for c in it: text.chars()
        invariant
            it.seq() == text@,
            chars@ == text@.take(it.index() as int),
    {
        chars.push(c);
    }
    assert(text@.take(text@.len() as int) =~= text@);
    chars
}

/// The string made of the characters from `from` up to, but without, `to`.
pub fn string_of(chars: &Vec<char>, from: usize, to: usize) -> (text: String)
    requires
        from <= to <= chars@.len(),
    ensures
        text@ == chars@.subrange(from as int, to as int),
{
    let mut text = String::new();
    let mut i: usize = from;
    while i < to
        invariant
            from <= i <= to <= chars@.len(),
            text@ == chars@.subrange(from as int, i as int),
        decreases to - i,
    {
        text.push(chars[i]);
        i += 1;
        assert(text@ =~= chars@.subrange(from as int, i as int));
    }
    text
}

/// Copies a list of strings, text by text.
pub fn copy_texts(list: &[String]) -> (copy: Vec<String>)
    ensures
        texts(copy@) == texts(list@),
        copy@.len() == list@.len(),
        forall|i: int| 0 <= i < list@.len() ==> (#[trigger] copy@[i])@ == list@[i]@,
{
    let mut copy: Vec<String> = Vec::new();
    let mut i: usize = 0;
    while i < list.len()
        invariant
            i <= list@.len(),
            copy@.len() == i,
            forall|k: int| 0 <= k < i ==> copy@[k]@ == list@[k]@,
        decreases list@.len() - i,
    {
        copy.push(list[i].clone());
        i += 1;
    }
    assert(texts(copy@) =~= texts(list@));
    copy
}

// ---------------------------------------------------------------------------
// Fields

/// The index of the first `x` in `s`, or the length of `s` where there is none.
pub open spec fn position<T>(s: Seq<T>, x: T) -> nat
    decreases s.len(),
{
    if s.len() == 0 || s[0] == x {
        0
    } else {
        1 + position(s.drop_first(), x)
    }
}

/// `position` is the one index before which `x` does not occur and where it does or `s` ends.
pub(crate) proof fn lemma_position_is<T>(s: Seq<T>, x: T, i: int)
    requires
        0 <= i <= s.len(),
        forall|k: int| 0 <= k < i ==> s[k] != x,
        i < s.len() ==> s[i] == x,
    ensures
        position(s, x) == i,
    decreases s.len(),
{
    if i > 0 {
        let rest = s.drop_first();
        assert forall|k: int| 0 <= k < i - 1 implies rest[k] != x by {
            assert(rest[k] == s[k + 1]);
        }
        lemma_position_is(rest, x, i - 1);
    }
}

/// The fields of `s` between the occurrences of `sep`: one more than there are separators.
pub open spec fn split_at_each(s: Seq<char>, sep: char) -> Seq<Seq<char>>
    decreases s.len(),
{
    let i = position(s, sep) as int;
    if i >= s.len() {
        seq![s]
    } else {
        seq![s.take(i)] + split_at_each(s.skip(i + 1), sep)
    }
}

/// What `position` is.
pub(crate) proof fn lemma_position<T>(s: Seq<T>, x: T)
    ensures
        position(s, x) <= s.len(),
        position(s, x) < s.len() ==> s[position(s, x) as int] == x,
        forall|k: int| 0 <= k < position(s, x) ==> s[k] != x,
    decreases s.len(),
{
    if s.len() > 0 && s[0] != x {
        let rest = s.drop_first();
        lemma_position(rest, x);
        assert forall|k: int| 0 <= k < position(s, x) implies s[k] != x by {
            if k > 0 {
                assert(s[k] == rest[k - 1]);
            }
        }
    }
}

/// Splitting loses nothing: the fields, joined by the separator, make the text again.
pub proof fn split_fields_make_the_text(s: Seq<char>, sep: char)
    ensures
        join_with(split_at_each(s, sep), seq![sep]) == s,
    decreases s.len(),
{
    lemma_position(s, sep);
    let i = position(s, sep) as int;
    if i < s.len() {
        let rest = s.skip(i + 1);
        split_fields_make_the_text(rest, sep);
        let fields = split_at_each(s, sep);
        assert(fields.drop_first() =~= split_at_each(rest, sep));
        assert(s =~= s.take(i) + seq![sep] + rest);
    }
}

/// No field holds the separator, nor anything that the text does not hold.
pub proof fn fields_hold_no_separator(s: Seq<char>, sep: char, i: int)
    requires
        0 <= i < split_at_each(s, sep).len(),
    ensures
        !split_at_each(s, sep)[i].contains(sep),
        forall|c: char| #[trigger] split_at_each(s, sep)[i].contains(c) ==> s.contains(c),
    decreases s.len(),
{
    lemma_position(s, sep);
    let at = position(s, sep) as int;
    let field = split_at_each(s, sep)[i];
    if at < s.len() {
        if i == 0 {
            assert(field == s.take(at));
            assert forall|c: char| #[trigger] field.contains(c) implies s.contains(c) by {
                let k = choose|k: int| 0 <= k < field.len() && field[k] == c;
                assert(s[k] == c);
            }
        } else {
            let rest = s.skip(at + 1);
            fields_hold_no_separator(rest, sep, i - 1);
            assert(field == split_at_each(rest, sep)[i - 1]);
            assert forall|c: char| #[trigger] field.contains(c) implies s.contains(c) by {
                assert(rest.contains(c));
                let k = choose|k: int| 0 <= k < rest.len() && rest[k] == c;
                assert(s[at + 1 + k] == c);
            }
        }
    }
}

/// No line holds a line feed.
pub proof fn lines_hold_no_line_feed(s: Seq<char>, i: int)
    requires
        0 <= i < lines_of(s).len(),
    ensures
        !lines_of(s)[i].contains('\n'),
    decreases s.len(),
{
    lemma_position(s, '\n');
    let at = position(s, '\n') as int;
    if at < s.len() {
        if i == 0 {
            let line = s.take(at);
            assert(lines_of(s)[0] == without_return(line));
            if without_return(line).contains('\n') {
                let k = choose|k: int|
                    0 <= k < without_return(line).len() && without_return(line)[k] == '\n';
                assert(s[k] == '\n');
            }
        } else {
            let rest = s.skip(at + 1);
            lines_hold_no_line_feed(rest, i - 1);
            assert(lines_of(s)[i] == lines_of(rest)[i - 1]);
        }
    }
}

/// The lines of `s`. Each ends at a line feed or at the end of the text; a carriage return right
/// before the line feed is no part of the line, and nothing after the last line feed is no line.
pub open spec fn lines_of(s: Seq<char>) -> Seq<Seq<char>>
    decreases s.len(),
{
    let i = position(s, '\n') as int;
    if s.len() == 0 {
        seq![]
    } else if i >= s.len() {
        seq![s]
    } else {
        seq![without_return(s.take(i))] + lines_of(s.skip(i + 1))
    }
}

/// `line` without the carriage return that it may end in.
pub open spec fn without_return(line: Seq<char>) -> Seq<char> {
    if line.len() > 0 && line.last() == '\r' {
        line.drop_last()
    } else {
        line
    }
}

/// The index of the first `x` at `from` or later, or the number of characters.
fn find_from(chars: &Vec<char>, from: usize, x: char) -> (i: usize)
    requires
        from <= chars@.len(),
    ensures
        from <= i <= chars@.len(),
        i - from == position(chars@.skip(from as int), x),
{
    let mut i: usize = from;
    while i < chars.len() && chars[i] != x
        invariant
            from <= i <= chars@.len(),
            forall|k: int| from <= k < i ==> chars@[k] != x,
        decreases chars@.len() - i,
    {
        i += 1;
    }
    proof {
        lemma_position_is(chars@.skip(from as int), x, i - from);
    }
    i
}

/// Splits `text` at each `sep`.
pub fn split(text: &str, sep: char) -> (fields: Vec<String>)
    ensures
        fields@.len() == split_at_each(text@, sep).len(),
        texts(fields@) == split_at_each(text@, sep),
{
    let chars = chars_of(text);
    let mut fields: Vec<String> = Vec::new();
    let mut start: usize = 0;
    assert(chars@.skip(0) =~= chars@);
    let mut end: usize = find_from(&chars, start, sep);
    while end < chars.len()
        invariant
            start <= end <= chars@.len(),
            end - start == position(chars@.skip(start as int), sep),
            split_at_each(chars@, sep) == texts(fields@) + split_at_each(
                chars@.skip(start as int),
                sep,
            ),
        decreases chars@.len() - end,
    {
        let field = string_of(&chars, start, end);
        let ghost before = fields@;
        let ghost rest = chars@.skip(start as int);
        fields.push(field);
        proof {
            assert(rest.take(end - start) =~= chars@.subrange(start as int, end as int));
            assert(rest.skip(end - start + 1) =~= chars@.skip(end + 1));
            assert(texts(fields@) =~= texts(before) + seq![rest.take(end - start)]);
        }
        start = end + 1;
        end = find_from(&chars, start, sep);
    }
    let ghost before = fields@;
    let field = string_of(&chars, start, end);
    fields.push(field);
    proof {
        assert(chars@.subrange(start as int, end as int) =~= chars@.skip(start as int));
        assert(texts(fields@) =~= texts(before) + seq![chars@.skip(start as int)]);
    }
    fields
}

/// The lines of `text`.
pub fn lines(text: &str) -> (lines: Vec<String>)
    ensures
        lines@.len() == lines_of(text@).len(),
        texts(lines@) == lines_of(text@),
{
    let chars = chars_of(text);
    let mut lines: Vec<String> = Vec::new();
    let mut start: usize = 0;
    assert(chars@.skip(0) =~= chars@);
    let mut end: usize = find_from(&chars, start, '\n');
    while end < chars.len()
        invariant
            start <= end <= chars@.len(),
            end - start == position(chars@.skip(start as int), '\n'),
            lines_of(chars@) == texts(lines@) + lines_of(chars@.skip(start as int)),
        decreases chars@.len() - end,
    {
        let stop: usize = if start < end && chars[end - 1] == '\r' {
            end - 1
        } else {
            end
        };
        let line = string_of(&chars, start, stop);
        let ghost before = lines@;
        let ghost rest = chars@.skip(start as int);
        lines.push(line);
        proof {
            assert(rest.take(end - start) =~= chars@.subrange(start as int, end as int));
            assert(without_return(rest.take(end - start)) =~= line@);
            assert(rest.skip(end - start + 1) =~= chars@.skip(end + 1));
            assert(texts(lines@) =~= texts(before) + seq![line@]);
        }
        start = end + 1;
        end = find_from(&chars, start, '\n');
    }
    if start < end {
        let ghost before = lines@;
        let line = string_of(&chars, start, end);
        lines.push(line);
        proof {
            assert(line@ =~= chars@.skip(start as int));
            assert(texts(lines@) =~= texts(before) + seq![line@]);
        }
    } else {
        assert(texts(lines@) =~= texts(lines@) + lines_of(chars@.skip(start as int)));
    }
    lines
}

// ---------------------------------------------------------------------------
// Search

/// `needle` stands in `s` at index `i`.
pub open spec fn occurs_at(s: Seq<char>, needle: Seq<char>, i: int) -> bool {
    0 <= i <= s.len() - needle.len() && s.subrange(i, i + needle.len()) == needle
}

/// `needle` stands somewhere in `s`.
pub open spec fn occurs(s: Seq<char>, needle: Seq<char>) -> bool {
    exists|i: int| occurs_at(s, needle, i)
}

/// The first of `list` in which `needle` occurs.
pub open spec fn first_with(list: Seq<Seq<char>>, needle: Seq<char>) -> Option<Seq<char>>
    decreases list.len(),
{
    if list.len() == 0 {
        None
    } else if occurs(list[0], needle) {
        Some(list[0])
    } else {
        first_with(list.drop_first(), needle)
    }
}

/// Whether `needle` stands in `chars` at index `i`.
fn stands_at(chars: &Vec<char>, needle: &Vec<char>, i: usize) -> (found: bool)
    requires
        i + needle@.len() <= chars@.len(),
    ensures
        found == occurs_at(chars@, needle@, i as int),
{
    let len: usize = chars.len();
    let mut k: usize = 0;
    while k < needle.len()
        invariant
            k <= needle@.len(),
            i + needle@.len() <= chars@.len() == len,
            forall|j: int| 0 <= j < k ==> chars@[i + j] == needle@[j],
        decreases needle@.len() - k,
    {
        if chars[i + k] != needle[k] {
            assert(chars@.subrange(i as int, i + needle@.len())[k as int] != needle@[k as int]);
            return false;
        }
        k += 1;
    }
    assert(chars@.subrange(i as int, i + needle@.len()) =~= needle@);
    true
}

/// Whether `needle` occurs in `text`.
pub fn contains(text: &str, needle: &str) -> (found: bool)
    ensures
        found == occurs(text@, needle@),
{
    let chars = chars_of(text);
    let wanted = chars_of(needle);
    if chars.len() < wanted.len() {
        return false;
    }
    let last: usize = chars.len() - wanted.len();
    let mut i: usize = 0;
    while i < last
        invariant
            i <= last,
            last + wanted@.len() == chars@.len(),
            chars@ == text@,
            wanted@ == needle@,
            forall|k: int| 0 <= k < i ==> !occurs_at(chars@, wanted@, k),
        decreases last - i,
    {
        if stands_at(&chars, &wanted, i) {
            return true;
        }
        i += 1;
    }
    stands_at(&chars, &wanted, last)
}

// ---------------------------------------------------------------------------
// Joining

/// The texts of `parts` with `sep` between each two that follow each other.
pub open spec fn join_with(parts: Seq<Seq<char>>, sep: Seq<char>) -> Seq<char>
    decreases parts.len(),
{
    if parts.len() == 0 {
        seq![]
    } else if parts.len() == 1 {
        parts[0]
    } else {
        parts[0] + sep + join_with(parts.drop_first(), sep)
    }
}

/// Joining one part more adds the separator and that part.
proof fn lemma_join_one_more(parts: Seq<Seq<char>>, sep: Seq<char>, part: Seq<char>)
    requires
        parts.len() > 0,
    ensures
        join_with(parts.push(part), sep) == join_with(parts, sep) + sep + part,
    decreases parts.len(),
{
    let longer = parts.push(part);
    assert(longer.drop_first() =~= parts.drop_first().push(part));
    if parts.len() == 1 {
        assert(longer.drop_first() =~= seq![part]);
        assert(join_with(seq![part], sep) == part);
    } else {
        lemma_join_one_more(parts.drop_first(), sep, part);
    }
    assert(join_with(longer, sep) =~= join_with(parts, sep) + sep + part);
}

/// Joins `parts`, with `sep` between each two that follow each other.
pub fn join(parts: &Vec<String>, sep: &str) -> (text: String)
    ensures
        text@ == join_with(texts(parts@), sep@),
{
    let mut text = String::new();
    let mut i: usize = 0;
    while i < parts.len()
        invariant
            i <= parts@.len(),
            text@ == join_with(texts(parts@).take(i as int), sep@),
        decreases parts@.len() - i,
    {
        let ghost done = texts(parts@).take(i as int);
        assert(texts(parts@).take(i + 1) =~= done.push(parts@[i as int]@));
        if i > 0 {
            text.append(sep);
            proof {
                lemma_join_one_more(done, sep@, parts@[i as int]@);
            }
        }
        text.append(parts[i].as_str());
        i += 1;
        assert(text@ =~= join_with(texts(parts@).take(i as int), sep@));
    }
    assert(texts(parts@).take(parts@.len() as int) =~= texts(parts@));
    text
}

// ---------------------------------------------------------------------------
// Trimming

/// The characters with the Unicode property White_Space.
pub open spec fn white_space(c: char) -> bool {
    ||| '\u{9}' <= c <= '\u{d}'
    ||| c == ' '
    ||| c == '\u{85}'
    ||| c == '\u{a0}'
    ||| c == '\u{1680}'
    ||| '\u{2000}' <= c <= '\u{200a}'
    ||| c == '\u{2028}'
    ||| c == '\u{2029}'
    ||| c == '\u{202f}'
    ||| c == '\u{205f}'
    ||| c == '\u{3000}'
}

/// `t` is `s` without the white space at both ends: what is cut off is white space, and what is
/// left neither begins nor ends with any.
pub open spec fn is_trimmed(s: Seq<char>, t: Seq<char>) -> bool {
    exists|a: int, b: int| #[trigger] trims_to(s, a, b) && t == s.subrange(a, b)
}

/// From `a` up to `b` is what trimming leaves of `s`.
pub open spec fn trims_to(s: Seq<char>, a: int, b: int) -> bool {
    &&& 0 <= a <= b <= s.len()
    &&& forall|k: int| 0 <= k < a || b <= k < s.len() ==> white_space(#[trigger] s[k])
    &&& a < b ==> !white_space(s[a]) && !white_space(s[b - 1])
}

/// Trimming leaves one text only.
pub proof fn trimming_is_unique(s: Seq<char>, t: Seq<char>, u: Seq<char>)
    requires
        is_trimmed(s, t),
        is_trimmed(s, u),
    ensures
        t == u,
{
    let (a, b) = choose|a: int, b: int| #[trigger] trims_to(s, a, b) && t == s.subrange(a, b);
    let (c, d) = choose|c: int, d: int| #[trigger] trims_to(s, c, d) && u == s.subrange(c, d);
    if a < b {
        assert(c <= a && b <= d);
    } else if c < d {
        assert(white_space(s[c]));
    }
    assert(t =~= u);
}

/// `s` without the white space at both ends.
pub open spec fn trimmed_of(s: Seq<char>) -> Seq<char> {
    choose|t: Seq<char>| is_trimmed(s, t)
}

/// Whether `c` is white space.
pub fn is_white_space(c: char) -> (is: bool)
    ensures
        is == white_space(c),
{
    ('\u{9}' <= c && c <= '\u{d}') || c == ' ' || c == '\u{85}' || c == '\u{a0}' || c == '\u{1680}'
        || ('\u{2000}' <= c && c <= '\u{200a}') || c == '\u{2028}' || c == '\u{2029}' || c
        == '\u{202f}' || c == '\u{205f}' || c == '\u{3000}'
}

/// `text` without the white space at both ends.
pub fn trim(text: &str) -> (trimmed: String)
    ensures
        is_trimmed(text@, trimmed@),
        trimmed@ == trimmed_of(text@),
{
    let chars = chars_of(text);
    let mut a: usize = 0;
    while a < chars.len() && is_white_space(chars[a])
        invariant
            a <= chars@.len(),
            forall|k: int| 0 <= k < a ==> white_space(#[trigger] chars@[k]),
        decreases chars@.len() - a,
    {
        a += 1;
    }
    let mut b: usize = chars.len();
    while a < b && is_white_space(chars[b - 1])
        invariant
            a <= b <= chars@.len(),
            a < chars@.len() ==> !white_space(chars@[a as int]),
            forall|k: int| b <= k < chars@.len() ==> white_space(#[trigger] chars@[k]),
        decreases b,
    {
        b -= 1;
    }
    let trimmed = string_of(&chars, a, b);
    proof {
        assert(trims_to(chars@, a as int, b as int));
        assert(is_trimmed(text@, trimmed@));
        trimming_is_unique(text@, trimmed@, trimmed_of(text@));
    }
    trimmed
}

// ---------------------------------------------------------------------------
// Numbers

/// The character of the decimal digit `d`.
pub open spec fn digit(d: nat) -> char {
    ('0' as nat + d) as char
}

/// `n` in decimal, without leading zeros.
pub open spec fn decimal_of(n: nat) -> Seq<char>
    decreases n,
{
    if n < 10 {
        seq![digit(n)]
    } else {
        decimal_of(n / 10).push(digit(n % 10))
    }
}

/// `n` in decimal, without leading zeros.
pub fn decimal(n: usize) -> (text: String)
    ensures
        text@ == decimal_of(n as nat),
    decreases n,
{
    let d: u8 = (n % 10) as u8;
    let mut text = if n < 10 {
        String::new()
    } else {
        decimal(n / 10)
    };
    text.push((48 + d) as char);
    assert(text@ =~= decimal_of(n as nat));
    text
}

// ---------------------------------------------------------------------------
// What the pieces are

/// A list of strings has a text for each string, in its place.
pub proof fn texts_are_one_for_one(list: Seq<String>)
    ensures
        texts(list).len() == list.len(),
        forall|i: int| 0 <= i < list.len() ==> #[trigger] texts(list)[i] == list[i]@,
{
}

/// A text without the separator is one field, and a field in front of a separator is split off as
/// it is.
pub proof fn fields_are_split_off(field: Seq<char>, sep: char, rest: Seq<char>)
    requires
        !field.contains(sep),
    ensures
        split_at_each(field, sep) == seq![field],
        split_at_each(field + seq![sep] + rest, sep) == seq![field] + split_at_each(rest, sep),
{
    let whole = field + seq![sep] + rest;
    assert forall|k: int| 0 <= k < field.len() implies field[k] != sep && whole[k] != sep by {
        assert(field.contains(field[k]));
    }
    lemma_position_is(field, sep, field.len() as int);
    lemma_position_is(whole, sep, field.len() as int);
    assert(whole.take(field.len() as int) =~= field);
    assert(whole.skip(field.len() as int + 1) =~= rest);
}

/// Fields come back: joined by a separator that none of them holds, and split at it again, they
/// are the same fields.
pub proof fn joined_fields_are_split_again(fields: Seq<Seq<char>>, sep: char)
    requires
        fields.len() > 0,
        forall|i: int| 0 <= i < fields.len() ==> !(#[trigger] fields[i]).contains(sep),
    ensures
        split_at_each(join_with(fields, seq![sep]), sep) == fields,
    decreases fields.len(),
{
    if fields.len() == 1 {
        fields_are_split_off(fields[0], sep, seq![]);
        assert(fields =~= seq![fields[0]]);
    } else {
        let fewer = fields.drop_first();
        assert forall|i: int| 0 <= i < fewer.len() implies !(#[trigger] fewer[i]).contains(sep) by {
            assert(fewer[i] == fields[i + 1]);
        }
        joined_fields_are_split_again(fewer, sep);
        fields_are_split_off(fields[0], sep, join_with(fewer, seq![sep]));
        assert(fields =~= seq![fields[0]] + fewer);
    }
}

/// Nothing joined is nothing, and one part joined is that part.
pub proof fn few_parts_are_joined(part: Seq<char>, sep: Seq<char>)
    ensures
        join_with(Seq::<Seq<char>>::empty(), sep) == Seq::<char>::empty(),
        join_with(seq![part], sep) == part,
{
}

/// Two lists joined as one are what each is joined to, with the separator between them.
pub proof fn joined_lists_are_joined(a: Seq<Seq<char>>, b: Seq<Seq<char>>, sep: Seq<char>)
    requires
        a.len() > 0,
        b.len() > 0,
    ensures
        join_with(a + b, sep) == join_with(a, sep) + sep + join_with(b, sep),
    decreases a.len(),
{
    let both = a + b;
    assert(both.drop_first() =~= a.drop_first() + b);
    if a.len() == 1 {
        assert(both.drop_first() =~= b);
    } else {
        joined_lists_are_joined(a.drop_first(), b, sep);
    }
    assert(join_with(both, sep) =~= join_with(a, sep) + sep + join_with(b, sep));
}

/// A text without a line feed is one line, unless it is empty; then it is none.
pub proof fn texts_without_line_feed_are_lines(line: Seq<char>)
    requires
        !line.contains('\n'),
    ensures
        line.len() == 0 ==> lines_of(line) == Seq::<Seq<char>>::empty(),
        line.len() > 0 ==> lines_of(line) == seq![line],
{
    assert forall|k: int| 0 <= k < line.len() implies line[k] != '\n' by {
        assert(line.contains(line[k]));
    }
    lemma_position_is(line, '\n', line.len() as int);
}

/// A line comes back as it is, whether it ends in a line feed alone or in a carriage return and a
/// line feed, and the lines behind it follow.
pub proof fn lines_are_read_off(line: Seq<char>, rest: Seq<char>)
    requires
        !line.contains('\n'),
    ensures
        lines_of(line + seq!['\r', '\n'] + rest) == seq![line] + lines_of(rest),
        line.len() == 0 || line.last() != '\r' ==> lines_of(line + seq!['\n'] + rest) == seq![line]
            + lines_of(rest),
{
    assert forall|k: int| 0 <= k < line.len() implies line[k] != '\n' by {
        assert(line.contains(line[k]));
    }
    let n = line.len() as int;
    let both = line + seq!['\r', '\n'] + rest;
    assert forall|k: int| 0 <= k < n + 1 implies both[k] != '\n' by {
        if k < n {
            assert(both[k] == line[k]);
        } else {
            assert(both[k] == '\r');
        }
    }
    assert(both[n + 1] == '\n');
    lemma_position_is(both, '\n', n + 1);
    assert(both.take(n + 1) =~= line.push('\r'));
    assert(line.push('\r').drop_last() =~= line);
    assert(both.skip(n + 2) =~= rest);
    let one = line + seq!['\n'] + rest;
    lemma_position_is(one, '\n', n);
    assert(one.take(n) =~= line);
    assert(one.skip(n + 1) =~= rest);
}

/// A text occurs in another just where that other is the text with something, or nothing, before
/// and behind it.
pub proof fn occurring_is_standing_between(s: Seq<char>, needle: Seq<char>)
    ensures
        occurs(s, needle) <==> exists|before: Seq<char>, behind: Seq<char>|
            s == #[trigger] (before + needle + behind),
{
    if occurs(s, needle) {
        let i = choose|i: int| occurs_at(s, needle, i);
        let (before, behind) = (s.take(i), s.skip(i + needle.len()));
        assert(s =~= before + s.subrange(i, i + needle.len()) + behind);
        assert(s == before + needle + behind);
    }
    if exists|before: Seq<char>, behind: Seq<char>| s == #[trigger] (before + needle + behind) {
        let (before, behind) = choose|before: Seq<char>, behind: Seq<char>|
            s == #[trigger] (before + needle + behind);
        let i = before.len() as int;
        assert(s.subrange(i, i + needle.len()) =~= needle);
        assert(occurs_at(s, needle, i));
    }
}

/// The first hit is the one before which there is none, and there is no hit just where no text of
/// the list has one.
pub proof fn the_first_hit_is_taken(list: Seq<Seq<char>>, needle: Seq<char>, i: int)
    requires
        0 <= i <= list.len(),
        forall|k: int| 0 <= k < i ==> !occurs(#[trigger] list[k], needle),
    ensures
        i < list.len() && occurs(list[i], needle) ==> first_with(list, needle) == Some(list[i]),
        i == list.len() ==> first_with(list, needle) is None,
    decreases list.len(),
{
    if i > 0 {
        let rest = list.drop_first();
        assert(!occurs(list[0], needle));
        assert forall|k: int| 0 <= k < i - 1 implies !occurs(#[trigger] rest[k], needle) by {
            assert(rest[k] == list[k + 1]);
        }
        the_first_hit_is_taken(rest, needle, i - 1);
    }
}

/// White space is just what has one of the code points that Unicode gives that property to.
pub proof fn white_space_is_by_code_point(c: char)
    ensures
        white_space(c) <==> seq![
            0x9u32,
            0xau32,
            0xbu32,
            0xcu32,
            0xdu32,
            0x20u32,
            0x85u32,
            0xa0u32,
            0x1680u32,
            0x2000u32,
            0x2001u32,
            0x2002u32,
            0x2003u32,
            0x2004u32,
            0x2005u32,
            0x2006u32,
            0x2007u32,
            0x2008u32,
            0x2009u32,
            0x200au32,
            0x2028u32,
            0x2029u32,
            0x202fu32,
            0x205fu32,
            0x3000u32,
        ].contains(c as u32),
{
    let all = seq![
        0x9u32,
        0xau32,
        0xbu32,
        0xcu32,
        0xdu32,
        0x20u32,
        0x85u32,
        0xa0u32,
        0x1680u32,
        0x2000u32,
        0x2001u32,
        0x2002u32,
        0x2003u32,
        0x2004u32,
        0x2005u32,
        0x2006u32,
        0x2007u32,
        0x2008u32,
        0x2009u32,
        0x200au32,
        0x2028u32,
        0x2029u32,
        0x202fu32,
        0x205fu32,
        0x3000u32,
    ];
    let code = c as u32;
    if white_space(c) {
        let i: int = if 0x9 <= code <= 0xd {
            code - 0x9
        } else if code == 0x20 {
            5
        } else if code == 0x85 {
            6
        } else if code == 0xa0 {
            7
        } else if code == 0x1680 {
            8
        } else if 0x2000 <= code <= 0x200a {
            9 + (code - 0x2000)
        } else if code == 0x2028 {
            20
        } else if code == 0x2029 {
            21
        } else if code == 0x202f {
            22
        } else if code == 0x205f {
            23
        } else {
            24
        };
        assert(all[i] == code);
    }
}

/// Trimming takes off just the white space around a text that neither begins nor ends with any.
pub proof fn white_space_around_is_trimmed(
    before: Seq<char>,
    core: Seq<char>,
    behind: Seq<char>,
)
    requires
        forall|k: int| 0 <= k < before.len() ==> white_space(#[trigger] before[k]),
        forall|k: int| 0 <= k < behind.len() ==> white_space(#[trigger] behind[k]),
        core.len() > 0 ==> !white_space(core[0]) && !white_space(core.last()),
    ensures
        trimmed_of(before + core + behind) == core,
{
    let s = before + core + behind;
    let (a, b) = (before.len() as int, (before.len() + core.len()) as int);
    assert forall|k: int| 0 <= k < a || b <= k < s.len() implies white_space(#[trigger] s[k]) by {
        if k < a {
            assert(s[k] == before[k]);
        } else {
            assert(s[k] == behind[k - b]);
        }
    }
    assert(trims_to(s, a, b));
    assert(s.subrange(a, b) =~= core);
    assert(is_trimmed(s, core));
    trimming_is_unique(s, core, trimmed_of(s));
}

/// The number that a row of decimal digits stands for.
pub open spec fn number_of(digits: Seq<char>) -> nat
    decreases digits.len(),
{
    if digits.len() == 0 {
        0
    } else {
        10 * number_of(digits.drop_last()) + (digits.last() as nat - '0' as nat) as nat
    }
}

/// A number comes back from its decimal digits, of which the first is no zero unless it is the
/// only one.
pub proof fn decimals_are_read_back(n: nat)
    ensures
        number_of(decimal_of(n)) == n,
        decimal_of(n).len() > 0,
        decimal_of(n).len() > 1 ==> decimal_of(n)[0] != '0',
        forall|i: int| 0 <= i < decimal_of(n).len() ==> '0' <= #[trigger] decimal_of(n)[i] <= '9',
    decreases n,
{
    let digits = decimal_of(n);
    if n < 10 {
        assert(digits.drop_last() =~= Seq::<char>::empty());
        assert(number_of(digits.drop_last()) == 0);
        assert(digits.last() == digit(n));
    } else {
        decimals_are_read_back(n / 10);
        assert(digits.drop_last() =~= decimal_of(n / 10));
        assert(digits.last() == digit(n % 10));
        if decimal_of(n / 10).len() == 1 {
            assert(number_of(decimal_of(n / 10).drop_last()) == 0) by {
                assert(decimal_of(n / 10).drop_last() =~= Seq::<char>::empty());
            }
        }
        assert(digits[0] == decimal_of(n / 10)[0]);
        assert forall|i: int| 0 <= i < digits.len() implies '0' <= #[trigger] digits[i] <= '9' by {
            if i < digits.len() - 1 {
                assert(digits[i] == decimal_of(n / 10)[i]);
            }
        }
    }
}

} // verus!
