//! The syntax of one line of a configuration file.

use crate::text::{
    chars_of, find_char, first_occurrence, lemma_first_occurrence_is_first,
    lemma_trim_spaces_bounds, lemma_trim_spaces_trimmed, trim_spaces,
    trimmed_bounds,
};
use vstd::prelude::*;

verus! {

/// What one line of a configuration file says.
#[derive(Debug, PartialEq, Eq)]
pub enum Line {
    /// Nothing but spaces.
    Blank,
    /// A line that begins with `#`.
    Comment,
    /// `[name]` or `[profile name]`: the lines that follow belong to `name`.
    Header(String),
    /// `key = value`.
    Property { key: String, value: String },
    /// Any other line. It has no effect.
    Other,
}

/// A [`Line`] over sequences of characters.
pub enum LineSyntax {
    Blank,
    Comment,
    Header(Seq<char>),
    Property { key: Seq<char>, value: Seq<char> },
    Other,
}

impl View for Line {
    type V = LineSyntax;

    open spec fn view(&self) -> LineSyntax {
        match self {
            Line::Blank => LineSyntax::Blank,
            Line::Comment => LineSyntax::Comment,
            Line::Header(name) => LineSyntax::Header(name@),
            Line::Property { key, value } => LineSyntax::Property { key: key@, value: value@ },
            Line::Other => LineSyntax::Other,
        }
    }
}

/// The word `profile` and one space, which may stand before the name in a
/// header.
pub open spec fn profile_prefix() -> Seq<char> {
    seq!['p', 'r', 'o', 'f', 'i', 'l', 'e', ' ']
}

/// The profile that a trimmed line names, where the line is a header: an
/// opening bracket, one or more characters other than `]`, a closing
/// bracket, and nothing else. The word `profile` and a space at the front
/// are left out of the name unless nothing would remain.
pub open spec fn header_name(line: Seq<char>) -> Option<Seq<char>> {
    if line.len() >= 3 && line.first() == '[' && line.last() == ']' {
        let body = line.subrange(1, line.len() - 1);
        if body.contains(']') {
            None
        } else if body.len() > 8 && body.take(8) == profile_prefix() {
            Some(body.skip(8))
        } else {
            Some(body)
        }
    } else {
        None
    }
}

/// The key and the value of a trimmed line, where it holds a `=` with
/// something other than spaces on both sides of the first one.
pub open spec fn key_value(line: Seq<char>) -> Option<(Seq<char>, Seq<char>)> {
    match first_occurrence(line, '=') {
        Some(at) => {
            let key = trim_spaces(line.take(at));
            let value = trim_spaces(line.skip(at + 1));
            if key.len() > 0 && value.len() > 0 {
                Some((key, value))
            } else {
                None
            }
        },
        None => None,
    }
}

/// What the line `raw` says.
pub open spec fn line_syntax(raw: Seq<char>) -> LineSyntax {
    let line = trim_spaces(raw);
    if line.len() == 0 {
        LineSyntax::Blank
    } else if line.first() == '#' {
        LineSyntax::Comment
    } else {
        match header_name(line) {
            Some(name) => LineSyntax::Header(name),
            None => match key_value(line) {
                Some((key, value)) => LineSyntax::Property { key, value },
                None => LineSyntax::Other,
            },
        }
    }
}

/// A header has one of two shapes, `[name]` and `[profile name]`, and its
/// name is not empty and holds no `]`.
pub proof fn lemma_header_shape(line: Seq<char>, name: Seq<char>)
    requires
        header_name(line) == Some(name),
    ensures
        name.len() > 0,
        !name.contains(']'),
        line == seq!['['] + name + seq![']'] || line == seq!['['] + profile_prefix() + name
            + seq![']'],
{
    let body = line.subrange(1, line.len() - 1);
    assert forall|i: int| 0 <= i < name.len() implies name[i] != ']' by {
        if body.len() > 8 && body.take(8) == profile_prefix() {
            assert(name[i] == body[i + 8]);
        } else {
            assert(name[i] == body[i]);
        }
    }
    if body.len() > 8 && body.take(8) == profile_prefix() {
        assert(line =~= seq!['['] + body.take(8) + name + seq![']']);
    } else {
        assert(line =~= seq!['['] + name + seq![']']);
    }
}

/// `[profile name]` names `name`, whatever `name` is, so long as it is not
/// empty and holds no `]`.
pub proof fn lemma_profile_header(name: Seq<char>)
    requires
        name.len() > 0,
        !name.contains(']'),
    ensures
        header_name(seq!['['] + profile_prefix() + name + seq![']']) == Some(name),
{
    let line = seq!['['] + profile_prefix() + name + seq![']'];
    let body = line.subrange(1, line.len() - 1);
    assert(body =~= profile_prefix() + name);
    assert(body.take(8) =~= profile_prefix());
    assert(body.skip(8) =~= name);
    assert forall|i: int| 0 <= i < body.len() implies body[i] != ']' by {
        if i >= 8 {
            assert(body[i] == name[i - 8]);
            assert(name.contains(name[i - 8]));
        }
    }
}

/// `[name]` names `name`, unless `name` begins with the word `profile` and
/// a space and goes on after them.
pub proof fn lemma_plain_header(name: Seq<char>)
    requires
        name.len() > 0,
        !name.contains(']'),
        !(name.len() > 8 && name.take(8) == profile_prefix()),
    ensures
        header_name(seq!['['] + name + seq![']']) == Some(name),
{
    let line = seq!['['] + name + seq![']'];
    let body = line.subrange(1, line.len() - 1);
    assert(body =~= name);
}

/// The key and the value of a property are not empty and have no space at
/// either end, and the key holds no `=`.
pub proof fn lemma_property_parts(line: Seq<char>, key: Seq<char>, value: Seq<char>)
    requires
        key_value(line) == Some((key, value)),
    ensures
        key.len() > 0,
        value.len() > 0,
        key.first() != ' ' && key.last() != ' ',
        value.first() != ' ' && value.last() != ' ',
        !key.contains('='),
{
    let at = first_occurrence(line, '=')->Some_0;
    lemma_first_occurrence_is_first(line, '=');
    lemma_trim_spaces_trimmed(line.take(at));
    lemma_trim_spaces_trimmed(line.skip(at + 1));
    let (from, to) = lemma_trim_spaces_bounds(line.take(at));
    assert forall|i: int| 0 <= i < key.len() implies key[i] != '=' by {
        assert(key[i] == line[from + i]);
    }
}

/// Whether `chars[from..to]` is longer than the prefix and begins with it.
fn has_profile_prefix(chars: &Vec<char>, from: usize, to: usize) -> (yes: bool)
    requires
        from <= to <= chars@.len(),
    ensures
        yes == {
            let body = chars@.subrange(from as int, to as int);
            body.len() > 8 && body.take(8) == profile_prefix()
        },
{
    let ghost body = chars@.subrange(from as int, to as int);
    if to - from <= 8 {
        return false;
    }
    let yes = chars[from] == 'p' && chars[from + 1] == 'r' && chars[from + 2] == 'o' && chars[from
        + 3] == 'f' && chars[from + 4] == 'i' && chars[from + 5] == 'l' && chars[from + 6] == 'e'
        && chars[from + 7] == ' ';
    proof {
        let head = body.take(8);
        if yes {
            assert(head =~= profile_prefix());
        } else {
            assert(head[0] == chars@[from + 0]);
            assert(head[1] == chars@[from + 1]);
            assert(head[2] == chars@[from + 2]);
            assert(head[3] == chars@[from + 3]);
            assert(head[4] == chars@[from + 4]);
            assert(head[5] == chars@[from + 5]);
            assert(head[6] == chars@[from + 6]);
            assert(head[7] == chars@[from + 7]);
        }
    }
    yes
}

/// The bounds of the name within `chars[from..to]`, where that is a header.
fn header_bounds(chars: &Vec<char>, from: usize, to: usize) -> (bounds: Option<(usize, usize)>)
    requires
        from <= to <= chars@.len(),
    ensures
        match bounds {
            Some((a, b)) => from <= a <= b <= to && header_name(
                chars@.subrange(from as int, to as int),
            ) == Some(chars@.subrange(a as int, b as int)),
            None => header_name(chars@.subrange(from as int, to as int)) is None,
        },
{
    let ghost line = chars@.subrange(from as int, to as int);
    if to - from < 3 || chars[from] != '[' || chars[to - 1] != ']' {
        return None;
    }
    let ghost body = line.subrange(1, line.len() - 1);
    assert(body =~= chars@.subrange(from + 1, to - 1));
    match find_char(chars, ']', from + 1, to - 1) {
        Some(at) => {
            proof {
                assert(body[at - (from + 1)] == ']');
            }
            None
        },
        None => {
            if has_profile_prefix(chars, from + 1, to - 1) {
                assert(body.skip(8) =~= chars@.subrange(from + 9, to - 1));
                Some((from + 9, to - 1))
            } else {
                Some((from + 1, to - 1))
            }
        },
    }
}

/// The bounds of the key and of the value within `chars[from..to]`, where
/// that is a property.
fn property_bounds(chars: &Vec<char>, from: usize, to: usize) -> (bounds: Option<
    ((usize, usize), (usize, usize)),
>)
    requires
        from <= to <= chars@.len(),
    ensures
        match bounds {
            Some((key, value)) => {
                &&& from <= key.0 <= key.1 <= to
                &&& from <= value.0 <= value.1 <= to
                &&& key_value(chars@.subrange(from as int, to as int)) == Some(
                    (
                        chars@.subrange(key.0 as int, key.1 as int),
                        chars@.subrange(value.0 as int, value.1 as int),
                    ),
                )
            },
            None => key_value(chars@.subrange(from as int, to as int)) is None,
        },
{
    let ghost line = chars@.subrange(from as int, to as int);
    match find_char(chars, '=', from, to) {
        Some(at) => {
            let key = trimmed_bounds(chars, from, at);
            let value = trimmed_bounds(chars, at + 1, to);
            proof {
                assert(line.take(at - from) =~= chars@.subrange(from as int, at as int));
                assert(line.skip(at - from + 1) =~= chars@.subrange(at + 1, to as int));
            }
            if key.0 < key.1 && value.0 < value.1 {
                Some((key, value))
            } else {
                None
            }
        },
        None => None,
    }
}

/// Reads one line.
pub fn parse_line(raw: &str) -> (line: Line)
    ensures
        line@ == line_syntax(raw@),
{
    let chars = chars_of(raw);
    let (from, to) = trimmed_bounds(&chars, 0, chars.len());
    assert(chars@.subrange(0, chars@.len() as int) =~= raw@);
    assert(trim_spaces(raw@) == chars@.subrange(from as int, to as int));
    if from == to {
        return Line::Blank;
    }
    if chars[from] == '#' {
        return Line::Comment;
    }
    if let Some((a, b)) = header_bounds(&chars, from, to) {
        return Line::Header(raw.substring_char(a, b).to_owned());
    }
    match property_bounds(&chars, from, to) {
        Some((key, value)) => Line::Property {
            key: raw.substring_char(key.0, key.1).to_owned(),
            value: raw.substring_char(value.0, value.1).to_owned(),
        },
        None => Line::Other,
    }
}

} // verus!
