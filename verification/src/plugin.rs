//! Plugins, and what their source says of them.
use vstd::prelude::*;
use vstd::utf8::*;

use crate::path::{name_bytes, stem_text, stem_text_of, FilePath};
use crate::text::{
    contains, first_with, lemma_position, lemma_position_is, lines, lines_of, occurs, occurs_at, position, split,
    split_at_each, texts, without_return,
};

verus! {

/// A plugin: where it is, and the name and the author that its source declares.
#[derive(Debug)]
pub struct Plugin {
    pub path: FilePath,
    pub name: String,
    pub author: String,
}

/// The name and the author on an `[Info("name", "author", ...)]` line: what stands between its
/// first two and after its third quotation mark.
pub open spec fn info_of_line(line: Seq<char>) -> Option<(Seq<char>, Seq<char>)> {
    let fields = split_at_each(line, '"');
    if fields.len() > 3 {
        Some((fields[1], fields[3]))
    } else {
        None
    }
}

/// The name and the author that a source declares, on the first line that holds `[Info(`.
pub open spec fn declared_info(contents: Seq<char>) -> Option<(Seq<char>, Seq<char>)> {
    match first_with(lines_of(contents), "[Info("@) {
        Some(line) => info_of_line(line),
        None => None,
    }
}

/// The name and the author of the plugin in the file `name` with the source `contents`. Without a
/// usable declaration the plugin is named after its file, and its author is unknown.
pub open spec fn plugin_info(name: Option<Seq<u8>>, contents: Seq<char>) -> (Seq<char>, Seq<char>) {
    match declared_info(contents) {
        Some(info) => info,
        None => (
            match stem_text_of(name) {
                Some(stem) => stem,
                None => "unknown"@,
            },
            "Unknown"@,
        ),
    }
}

/// The first line that holds `[Info(`.
fn info_line(contents: &str) -> (line: Option<String>)
    ensures
        match line {
            Some(text) => first_with(lines_of(contents@), "[Info("@) == Some(text@),
            None => first_with(lines_of(contents@), "[Info("@) is None,
        },
{
    let all = lines(contents);
    let ghost views = texts(all@);
    let mut i: usize = 0;
    assert(views.skip(0) =~= views);
    while i < all.len()
        invariant
            i <= all@.len(),
            views == texts(all@),
            views == lines_of(contents@),
            first_with(views, "[Info("@) == first_with(views.skip(i as int), "[Info("@),
        decreases all@.len() - i,
    {
        assert(views.skip(i as int)[0] == all@[i as int]@);
        if contains(all[i].as_str(), "[Info(") {
            return Some(all[i].clone());
        }
        assert(views.skip(i as int).drop_first() =~= views.skip(i + 1));
        i += 1;
    }
    None
}

/// The name and the author that the source `contents` declares.
fn read_info(contents: &str) -> (info: Option<(String, String)>)
    ensures
        match info {
            Some((name, author)) => declared_info(contents@) == Some((name@, author@)),
            None => declared_info(contents@) is None,
        },
{
    match info_line(contents) {
        None => None,
        Some(line) => {
            let fields = split(line.as_str(), '"');
            let ghost views = texts(fields@);
            if fields.len() > 3 {
                assert(views[1] == fields@[1]@ && views[3] == fields@[3]@);
                Some((fields[1].clone(), fields[3].clone()))
            } else {
                None
            }
        },
    }
}

impl Plugin {
    /// The plugin at `path`, whose source is `contents`.
    pub fn from_path(path: FilePath, contents: &str) -> (plugin: Plugin)
        ensures
            plugin.path == path,
            (plugin.name@, plugin.author@) == plugin_info(name_bytes(path.name), contents@),
            declared_info(contents@) matches Some(info) ==> plugin.name@ == info.0 && plugin.author@
                == info.1,
            declared_info(contents@) is None ==> plugin.author@ == "Unknown"@,
    {
        match read_info(contents) {
            Some((name, author)) => Plugin { path, name, author },
            None => {
                let name = match stem_text(&path.name) {
                    Some(stem) => stem,
                    None => "unknown".to_owned(),
                };
                Plugin { path, name, author: "Unknown".to_owned() }
            },
        }
    }
}

// ---------------------------------------------------------------------------
// What is written is read

/// A line that declares `name` and `author`, with `lead` in front of the declaration.
pub open spec fn info_declaration(
    lead: Seq<char>,
    name: Seq<char>,
    between: Seq<char>,
    author: Seq<char>,
    rest: Seq<char>,
) -> Seq<char> {
    lead + "[Info("@ + seq!['"'] + name + seq!['"'] + between + seq!['"'] + author + seq!['"']
        + rest
}

/// Taking a field off the front leaves the fields of the rest.
proof fn lemma_split_first(field: Seq<char>, sep: char, rest: Seq<char>)
    requires
        !field.contains(sep),
    ensures
        split_at_each(field + seq![sep] + rest, sep) == seq![field] + split_at_each(rest, sep),
{
    let whole = field + seq![sep] + rest;
    assert forall|k: int| 0 <= k < field.len() implies whole[k] != sep by {
        assert(field.contains(field[k]));
    }
    lemma_position_is(whole, sep, field.len() as int);
    assert(whole.take(field.len() as int) =~= field);
    assert(whole.skip(field.len() as int + 1) =~= rest);
}

/// A declaration names the plugin and its author, whatever stands around it on the line.
pub proof fn declaration_is_read_from_its_line(
    lead: Seq<char>,
    name: Seq<char>,
    between: Seq<char>,
    author: Seq<char>,
    rest: Seq<char>,
)
    requires
        !lead.contains('"'),
        !name.contains('"'),
        !between.contains('"'),
        !author.contains('"'),
    ensures
        info_of_line(info_declaration(lead, name, between, author, rest)) == Some((name, author)),
        occurs(info_declaration(lead, name, between, author, rest), "[Info("@),
{
    reveal_strlit("[Info(");
    let q = seq!['"'];
    let line = info_declaration(lead, name, between, author, rest);
    let opening = lead + "[Info("@;
    let tail3 = rest;
    let tail2 = author + q + tail3;
    let tail1 = between + q + tail2;
    let tail0 = name + q + tail1;
    assert(line =~= opening + q + tail0);
    assert(!opening.contains('"')) by {
        assert forall|k: int| 0 <= k < opening.len() implies opening[k] != '"' by {
            if k < lead.len() {
                assert(lead.contains(lead[k]));
            } else {
                assert(opening[k] == "[Info("@[k - lead.len()]);
            }
        }
    }
    lemma_split_first(opening, '"', tail0);
    lemma_split_first(name, '"', tail1);
    lemma_split_first(between, '"', tail2);
    lemma_split_first(author, '"', tail3);
    assert(split_at_each(line, '"') =~= seq![opening, name, between, author] + split_at_each(
        tail3,
        '"',
    ));
    assert(occurs_at(line, "[Info("@, lead.len() as int)) by {
        assert(line.subrange(lead.len() as int, lead.len() as int + 6) =~= "[Info("@);
    }
}

/// Complete lines in front of a text stay the lines that they are.
proof fn lemma_lines_of_both(head: Seq<char>, rest: Seq<char>)
    requires
        head.len() > 0 ==> head.last() == '\n',
    ensures
        lines_of(head + rest) == lines_of(head) + lines_of(rest),
    decreases head.len(),
{
    let whole = head + rest;
    if head.len() == 0 {
        assert(whole =~= rest);
        assert(lines_of(head) + lines_of(rest) =~= lines_of(rest));
    } else {
        lemma_position(head, '\n');
        let i = position(head, '\n') as int;
        assert(i < head.len());
        assert forall|k: int| 0 <= k < i implies whole[k] != '\n' by {
            assert(whole[k] == head[k]);
        }
        lemma_position_is(whole, '\n', i);
        assert(whole.take(i) =~= head.take(i));
        assert(whole.skip(i + 1) =~= head.skip(i + 1) + rest);
        let shorter = head.skip(i + 1);
        if shorter.len() > 0 {
            assert(shorter.last() == head.last());
        }
        lemma_lines_of_both(shorter, rest);
        assert(lines_of(whole) =~= lines_of(head) + lines_of(rest));
    }
}

/// The first hit in a list is the first hit in its first part, if there is one.
proof fn lemma_first_with_both(a: Seq<Seq<char>>, b: Seq<Seq<char>>, needle: Seq<char>)
    ensures
        first_with(a + b, needle) == match first_with(a, needle) {
            Some(hit) => Some(hit),
            None => first_with(b, needle),
        },
    decreases a.len(),
{
    if a.len() == 0 {
        assert(a + b =~= b);
    } else {
        assert((a + b)[0] == a[0]);
        assert((a + b).drop_first() =~= a.drop_first() + b);
        lemma_first_with_both(a.drop_first(), b, needle);
    }
}

/// The first declaration in a source is the one that counts: a plugin whose source declares
/// `name` and `author` on a line of its own, with no `[Info(` on any line before it, gets that
/// name and that author, whatever follows the line and whatever its file is called.
pub proof fn declared_plugin_is_read_back(
    file: Option<Seq<u8>>,
    head: Seq<char>,
    lead: Seq<char>,
    name: Seq<char>,
    between: Seq<char>,
    author: Seq<char>,
    rest: Seq<char>,
    tail: Seq<char>,
)
    requires
        head.len() > 0 ==> head.last() == '\n',
        first_with(lines_of(head), "[Info("@) is None,
        !lead.contains('"'),
        !name.contains('"'),
        !between.contains('"'),
        !author.contains('"'),
        !info_declaration(lead, name, between, author, rest).contains('\n'),
        tail.len() > 0 ==> tail[0] == '\n',
    ensures
        plugin_info(file, head + info_declaration(lead, name, between, author, rest) + tail) == (
            name,
            author,
        ),
{
    let line = info_declaration(lead, name, between, author, rest);
    let below = line + tail;
    assert(head + line + tail =~= head + below);
    lemma_lines_of_both(head, below);
    assert forall|k: int| 0 <= k < line.len() implies below[k] != '\n' by {
        assert(line.contains(line[k]));
    }
    lemma_position_is(below, '\n', line.len() as int);
    assert(below.take(line.len() as int) =~= line);
    let first = lines_of(below)[0];
    lemma_first_with_both(lines_of(head), lines_of(below), "[Info("@);
    if tail.len() == 0 {
        assert(below =~= line);
        declaration_is_read_from_its_line(lead, name, between, author, rest);
    } else {
        assert(first == without_return(line));
        if line.last() == '\r' {
            if rest.len() > 0 {
                assert(first =~= info_declaration(lead, name, between, author, rest.drop_last()));
            }
            declaration_is_read_from_its_line(lead, name, between, author, rest.drop_last());
        } else {
            declaration_is_read_from_its_line(lead, name, between, author, rest);
        }
    }
}

/// The first hit is one of the list.
proof fn lemma_first_with_is_listed(list: Seq<Seq<char>>, needle: Seq<char>)
    requires
        first_with(list, needle) is Some,
    ensures
        exists|i: int| 0 <= i < list.len() && #[trigger] list[i] == first_with(list, needle)->0,
    decreases list.len(),
{
    if occurs(list[0], needle) {
        assert(list[0] == first_with(list, needle)->0);
    } else {
        let rest = list.drop_first();
        lemma_first_with_is_listed(rest, needle);
        let i = choose|i: int|
            0 <= i < rest.len() && #[trigger] rest[i] == first_with(rest, needle)->0;
        assert(list[i + 1] == rest[i]);
    }
}

/// A declared name and author are short texts: neither holds a quotation mark or a line feed.
pub proof fn declared_info_is_on_one_line(contents: Seq<char>)
    requires
        declared_info(contents) is Some,
    ensures
        ({
            let (name, author) = declared_info(contents)->0;
            &&& !name.contains('"') && !name.contains('\n')
            &&& !author.contains('"') && !author.contains('\n')
        }),
{
    let list = lines_of(contents);
    let line = first_with(list, "[Info("@)->0;
    lemma_first_with_is_listed(list, "[Info("@);
    let i = choose|i: int| 0 <= i < list.len() && #[trigger] list[i] == line;
    crate::text::lines_hold_no_line_feed(contents, i);
    crate::text::fields_hold_no_separator(line, '"', 1);
    crate::text::fields_hold_no_separator(line, '"', 3);
}

// ---------------------------------------------------------------------------
// What counts, and what does not

/// On a line with three quotation marks or more, the name is what stands between the first two and
/// the author is what follows the third, up to the next one or to the end of the line.
pub proof fn name_and_author_stand_in_quotes(
    lead: Seq<char>,
    name: Seq<char>,
    between: Seq<char>,
    author: Seq<char>,
    rest: Seq<char>,
)
    requires
        !lead.contains('"'),
        !name.contains('"'),
        !between.contains('"'),
        !author.contains('"'),
        rest.len() > 0 ==> rest[0] == '"',
    ensures
        info_of_line(
            lead + seq!['"'] + name + seq!['"'] + between + seq!['"'] + author + rest,
        ) == Some((name, author)),
{
    let q = seq!['"'];
    let tail2 = author + rest;
    let tail1 = between + q + tail2;
    let tail0 = name + q + tail1;
    let line = lead + q + name + q + between + q + author + rest;
    assert(line =~= lead + q + tail0);
    crate::text::fields_are_split_off(lead, '"', tail0);
    crate::text::fields_are_split_off(name, '"', tail1);
    crate::text::fields_are_split_off(between, '"', tail2);
    if rest.len() == 0 {
        assert(tail2 =~= author);
        crate::text::fields_are_split_off(author, '"', rest);
    } else {
        let behind = rest.drop_first();
        assert(tail2 =~= author + q + behind);
        crate::text::fields_are_split_off(author, '"', behind);
    }
    let fields = split_at_each(line, '"');
    assert(fields =~= seq![lead, name, between] + split_at_each(tail2, '"'));
    assert(split_at_each(tail2, '"')[0] == author);
    assert(fields[1] == name && fields[3] == author);
}

/// A line with fewer than three quotation marks declares nothing.
pub proof fn too_few_quotes_declare_nothing(a: Seq<char>, b: Seq<char>, c: Seq<char>)
    requires
        !a.contains('"'),
        !b.contains('"'),
        !c.contains('"'),
    ensures
        info_of_line(a) is None,
        info_of_line(a + seq!['"'] + b) is None,
        info_of_line(a + seq!['"'] + b + seq!['"'] + c) is None,
{
    let q = seq!['"'];
    crate::text::fields_are_split_off(c, '"', c);
    crate::text::fields_are_split_off(b, '"', c);
    crate::text::fields_are_split_off(a, '"', b);
    crate::text::fields_are_split_off(a, '"', b + q + c);
    assert(a + q + b + q + c =~= a + q + (b + q + c));
}

/// The first line that holds `[Info(` decides what a source declares, and no line that comes before
/// or behind it does; where no line holds it, nothing is declared.
pub proof fn the_first_marked_line_decides(contents: Seq<char>, i: int)
    requires
        0 <= i <= lines_of(contents).len(),
        forall|k: int| 0 <= k < i ==> !occurs(#[trigger] lines_of(contents)[k], "[Info("@),
    ensures
        i < lines_of(contents).len() && occurs(lines_of(contents)[i], "[Info("@) ==> declared_info(
            contents,
        ) == info_of_line(lines_of(contents)[i]),
        i == lines_of(contents).len() ==> declared_info(contents) is None,
{
    crate::text::the_first_hit_is_taken(lines_of(contents), "[Info("@, i);
}

/// What occurs in a line occurs in the text.
proof fn lemma_lines_are_parts(s: Seq<char>, i: int, needle: Seq<char>)
    requires
        0 <= i < lines_of(s).len(),
        occurs(lines_of(s)[i], needle),
    ensures
        occurs(s, needle),
    decreases s.len(),
{
    lemma_position(s, '\n');
    let at = position(s, '\n') as int;
    if at < s.len() {
        if i == 0 {
            let line = lines_of(s)[0];
            let k = choose|k: int| occurs_at(line, needle, k);
            assert(occurs_at(line, needle, k));
            assert(s.subrange(k, k + needle.len()) =~= line.subrange(k, k + needle.len()));
            assert(occurs_at(s, needle, k));
        } else {
            let rest = s.skip(at + 1);
            assert(lines_of(s)[i] == lines_of(rest)[i - 1]);
            lemma_lines_are_parts(rest, i - 1, needle);
            let k = choose|k: int| occurs_at(rest, needle, k);
            assert(occurs_at(rest, needle, k));
            assert(s.subrange(at + 1 + k, at + 1 + k + needle.len()) =~= rest.subrange(
                k,
                k + needle.len(),
            ));
            assert(occurs_at(s, needle, at + 1 + k));
        }
    } else {
        assert(lines_of(s) =~= seq![s]);
    }
}

/// A source in which `[Info(` does not occur declares nothing.
pub proof fn unmarked_sources_declare_nothing(contents: Seq<char>)
    requires
        !occurs(contents, "[Info("@),
    ensures
        declared_info(contents) is None,
{
    let list = lines_of(contents);
    assert forall|k: int| 0 <= k < list.len() implies !occurs(#[trigger] list[k], "[Info("@) by {
        if occurs(list[k], "[Info("@) {
            lemma_lines_are_parts(contents, k, "[Info("@);
        }
    }
    the_first_marked_line_decides(contents, list.len() as int);
}

/// A plugin has the name and the author that its source declares, whatever its file is called.
pub proof fn declarations_outweigh_file_names(file: Option<Seq<u8>>, contents: Seq<char>)
    requires
        declared_info(contents) is Some,
    ensures
        Some(plugin_info(file, contents)) == declared_info(contents),
{
}

/// A plugin whose source declares nothing is named after its file, without the extension; where the
/// file has no name, or none that is text, it is called `unknown`. Its author is `Unknown`.
pub proof fn undeclared_plugins_are_named_after_their_files(
    stem: Seq<u8>,
    extension: Seq<u8>,
    contents: Seq<char>,
)
    requires
        declared_info(contents) is None,
        stem.len() > 0,
        !extension.contains(46u8),
        stem + seq![46u8] + extension != seq![46u8, 46u8],
    ensures
        valid_utf8(stem) ==> plugin_info(Some(stem + seq![46u8] + extension), contents) == (
            decode_utf8(stem),
            "Unknown"@,
        ),
        !valid_utf8(stem) ==> plugin_info(Some(stem + seq![46u8] + extension), contents) == (
            "unknown"@,
            "Unknown"@,
        ),
        plugin_info(None, contents) == ("unknown"@, "Unknown"@),
{
    crate::path::stems_stand_before_the_extension(stem, extension);
}

/// A plugin whose source declares nothing, in a file without an extension, is called what the file
/// is called.
pub proof fn undeclared_plugins_may_have_bare_names(name: Seq<u8>, contents: Seq<char>)
    requires
        declared_info(contents) is None,
        name == seq![46u8, 46u8] || forall|i: int| 0 < i < name.len() ==> name[i] != 46,
    ensures
        valid_utf8(name) ==> plugin_info(Some(name), contents) == (decode_utf8(name), "Unknown"@),
        !valid_utf8(name) ==> plugin_info(Some(name), contents) == ("unknown"@, "Unknown"@),
{
    crate::path::stems_may_be_whole_names(name);
}

} // verus!
