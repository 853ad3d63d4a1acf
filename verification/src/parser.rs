//! Reading a configuration file: the profiles that its lines define.

use crate::config::{with_property, Config};
use crate::error::ChainError;
use crate::line::{line_syntax, parse_line, Line, LineSyntax};
use vstd::prelude::*;

verus! {

/// What has been read of a file so far: the profiles with their properties,
/// and the profile that the last header named.
pub struct ParseState {
    pub profiles: Map<Seq<char>, Map<Seq<char>, Seq<char>>>,
    pub current: Option<Seq<char>>,
}

/// The state before the first line: no profile, and no header seen.
pub open spec fn initial_state() -> ParseState {
    ParseState { profiles: Map::empty(), current: None }
}

/// The state after one more line. A header names the profile of the lines
/// that follow and creates nothing. A property is set in the profile that
/// the last header named, and dropped where there was no header yet. No
/// other line has an effect.
pub open spec fn after_line(state: ParseState, raw: Seq<char>) -> ParseState {
    match line_syntax(raw) {
        LineSyntax::Header(name) => ParseState { profiles: state.profiles, current: Some(name) },
        LineSyntax::Property { key, value } => match state.current {
            Some(profile) => ParseState {
                profiles: with_property(state.profiles, profile, key, value),
                current: state.current,
            },
            None => state,
        },
        _ => state,
    }
}

/// The state after the lines `lines`, read in order from `state`.
pub open spec fn after_lines(state: ParseState, lines: Seq<Seq<char>>) -> ParseState
    decreases lines.len(),
{
    if lines.len() == 0 {
        state
    } else {
        after_line(after_lines(state, lines.drop_last()), lines.last())
    }
}

/// The profiles that a file with the lines `lines` defines.
pub open spec fn parsed(lines: Seq<Seq<char>>) -> Map<Seq<char>, Map<Seq<char>, Seq<char>>> {
    after_lines(initial_state(), lines).profiles
}

/// The profile to which line `at` of `lines` belongs: the one that the last
/// header before it names.
pub open spec fn section_of(lines: Seq<Seq<char>>, at: int) -> Option<Seq<char>> {
    after_lines(initial_state(), lines.take(at)).current
}

/// The lines of `lines` as sequences of characters.
pub open spec fn lines_text(lines: Seq<String>) -> Seq<Seq<char>> {
    lines.map_values(|line: String| line@)
}

/// Whether the line `raw` sets `key` in the profile it belongs to.
pub open spec fn sets_key(raw: Seq<char>, key: Seq<char>) -> bool {
    line_syntax(raw) matches LineSyntax::Property { key: k, .. } && k == key
}

/// Reading `first` and then `rest` is reading the two in one go.
pub proof fn lemma_after_lines_concat(
    state: ParseState,
    first: Seq<Seq<char>>,
    rest: Seq<Seq<char>>,
)
    ensures
        after_lines(state, first + rest) == after_lines(after_lines(state, first), rest),
    decreases rest.len(),
{
    if rest.len() == 0 {
        assert(first + rest =~= first);
    } else {
        assert((first + rest).drop_last() =~= first + rest.drop_last());
        assert((first + rest).last() == rest.last());
        lemma_after_lines_concat(state, first, rest.drop_last());
    }
}

/// The state after line `at` is the state before it with that line read.
pub proof fn lemma_after_lines_take(state: ParseState, lines: Seq<Seq<char>>, at: int)
    requires
        0 <= at < lines.len(),
    ensures
        after_lines(state, lines.take(at + 1)) == after_line(
            after_lines(state, lines.take(at)),
            lines[at],
        ),
{
    assert(lines.take(at + 1).drop_last() =~= lines.take(at));
    assert(lines.take(at + 1).last() == lines[at]);
}

/// Whether line `header` of `lines` is the last header before line `at`, and
/// names `name`.
pub open spec fn is_last_header(
    lines: Seq<Seq<char>>,
    header: int,
    at: int,
    name: Seq<char>,
) -> bool {
    &&& 0 <= header < at
    &&& line_syntax(lines[header]) == LineSyntax::Header(name)
    &&& forall|between: int|
        header < between < at ==> !(line_syntax(#[trigger] lines[between]) is Header)
}

/// A line belongs to the profile that the last header before it names, and
/// to none where no header stands before it. No other line comes into it.
pub proof fn lemma_section_is_last_header(lines: Seq<Seq<char>>, at: int)
    requires
        0 <= at <= lines.len(),
    ensures
        match section_of(lines, at) {
            Some(name) => exists|header: int| is_last_header(lines, header, at, name),
            None => forall|before: int|
                0 <= before < at ==> !(line_syntax(#[trigger] lines[before]) is Header),
        },
    decreases at,
{
    if at > 0 {
        let last = at - 1;
        lemma_section_is_last_header(lines, last);
        lemma_after_lines_take(initial_state(), lines, last);
        match line_syntax(lines[last]) {
            LineSyntax::Header(name) => {
                assert(is_last_header(lines, last, at, name));
            },
            _ => {
                assert(section_of(lines, at) == section_of(lines, last));
                if let Some(name) = section_of(lines, last) {
                    let header = choose|header: int| is_last_header(lines, header, last, name);
                    assert(is_last_header(lines, header, at, name));
                }
            },
        }
    } else {
        assert(lines.take(0) =~= Seq::<Seq<char>>::empty());
    }
}

/// Lines before the first header are ignored: whatever they hold, the file
/// defines what it would define without them, and no profile exists when
/// the first header is reached.
pub proof fn lemma_lines_before_first_header_ignored(lines: Seq<Seq<char>>, first: int)
    requires
        0 <= first <= lines.len(),
        forall|i: int| 0 <= i < first ==> !(line_syntax(#[trigger] lines[i]) is Header),
    ensures
        after_lines(initial_state(), lines.take(first)) == initial_state(),
        parsed(lines) == parsed(lines.skip(first)),
    decreases first,
{
    if first == 0 {
        assert(lines.skip(0) =~= lines);
    } else {
        lemma_lines_before_first_header_ignored(lines, first - 1);
        lemma_after_lines_take(initial_state(), lines, first - 1);
        assert(!(line_syntax(lines[first - 1]) is Header));
        assert(lines =~= lines.take(first) + lines.skip(first));
        lemma_after_lines_concat(initial_state(), lines.take(first), lines.skip(first));
    }
}

/// A blank line and a comment change nothing: neither the profiles nor the
/// profile that the lines after them belong to.
pub proof fn lemma_blank_and_comment_have_no_effect(state: ParseState, raw: Seq<char>)
    requires
        line_syntax(raw) is Blank || line_syntax(raw) is Comment,
    ensures
        after_line(state, raw) == state,
{
}

/// A file defines what it would define without one of its blank lines or
/// comments, wherever that line stands.
pub proof fn lemma_blank_and_comment_removable(lines: Seq<Seq<char>>, at: int)
    requires
        0 <= at < lines.len(),
        line_syntax(lines[at]) is Blank || line_syntax(lines[at]) is Comment,
    ensures
        after_lines(initial_state(), lines.remove(at)) == after_lines(initial_state(), lines),
        parsed(lines.remove(at)) == parsed(lines),
{
    let before = lines.take(at);
    let after = lines.skip(at + 1);
    let start = initial_state();
    assert(lines =~= lines.take(at + 1) + after);
    assert(lines.remove(at) =~= before + after);
    lemma_after_lines_concat(start, lines.take(at + 1), after);
    lemma_after_lines_concat(start, before, after);
    lemma_after_lines_take(start, lines, at);
}

/// Of two lines in a row that set the same key, the first might as well not
/// be there.
pub proof fn lemma_repeated_key_keeps_later(
    state: ParseState,
    first: Seq<char>,
    second: Seq<char>,
    key: Seq<char>,
)
    requires
        sets_key(first, key),
        sets_key(second, key),
    ensures
        after_line(after_line(state, first), second) == after_line(state, second),
{
    if let Some(profile) = state.current {
        let one = line_syntax(first)->Property_value;
        let two = line_syntax(second)->Property_value;
        assert(with_property(with_property(state.profiles, profile, key, one), profile, key, two)
            =~~= with_property(state.profiles, profile, key, two));
    }
}

/// The value of a key is the one that the last line to set it gave: where
/// line `at` is the last of `profile` to set `key`, and sets it to `value`,
/// the file defines `key` as `value` there. So of two lines of one profile
/// with the same key, the later one decides.
pub proof fn lemma_later_value_wins(
    lines: Seq<Seq<char>>,
    at: int,
    profile: Seq<char>,
    key: Seq<char>,
    value: Seq<char>,
)
    requires
        sets_last(lines, at, profile, key, value),
    ensures
        parsed(lines).contains_key(profile),
        parsed(lines)[profile].contains_key(key),
        parsed(lines)[profile][key] == value,
{
    lemma_value_kept(lines, at, lines.len() as int, profile, key, value);
    assert(lines.take(lines.len() as int) =~= lines);
}

/// The induction behind [`lemma_later_value_wins`]: the value stands after
/// each line from `at` on.
proof fn lemma_value_kept(
    lines: Seq<Seq<char>>,
    at: int,
    upto: int,
    profile: Seq<char>,
    key: Seq<char>,
    value: Seq<char>,
)
    requires
        sets_last(lines, at, profile, key, value),
        at < upto <= lines.len(),
    ensures
        ({
            let profiles = after_lines(initial_state(), lines.take(upto)).profiles;
            &&& profiles.contains_key(profile)
            &&& profiles[profile].contains_key(key)
            &&& profiles[profile][key] == value
        }),
    decreases upto - at,
{
    lemma_after_lines_take(initial_state(), lines, upto - 1);
    if upto - 1 > at {
        lemma_value_kept(lines, at, upto - 1, profile, key, value);
        assert(section_of(lines, upto - 1) == Some(profile) ==> !sets_key(lines[upto - 1], key));
    }
}

/// Whether line `at` of `lines` is the last line of `profile` that sets
/// `key`, and sets it to `value`.
pub open spec fn sets_last(
    lines: Seq<Seq<char>>,
    at: int,
    profile: Seq<char>,
    key: Seq<char>,
    value: Seq<char>,
) -> bool {
    &&& 0 <= at < lines.len()
    &&& section_of(lines, at) == Some(profile)
    &&& line_syntax(lines[at]) == (LineSyntax::Property { key, value })
    &&& forall|later: int|
        at < later < lines.len() && section_of(lines, later) == Some(profile) ==> !sets_key(
            #[trigger] lines[later],
            key,
        )
}

/// Nothing is defined that no line sets: each key of each profile has its
/// value from a line of that profile, the last one that sets the key.
pub proof fn lemma_every_value_has_a_line(lines: Seq<Seq<char>>, profile: Seq<char>, key: Seq<char>)
    requires
        parsed(lines).contains_key(profile),
        parsed(lines)[profile].contains_key(key),
    ensures
        exists|at: int| sets_last(lines, at, profile, key, parsed(lines)[profile][key]),
    decreases lines.len(),
{
    let last = lines.len() - 1;
    if lines.len() > 0 {
        let front = lines.drop_last();
        let before = after_lines(initial_state(), front);
        let value = parsed(lines)[profile][key];
        assert(lines.take(last) =~= front);
        if sets_key(lines[last], key) && before.current == Some(profile) {
            assert(sets_last(lines, last, profile, key, value));
        } else {
            assert(before.profiles.contains_key(profile));
            assert(before.profiles[profile].contains_key(key));
            assert(before.profiles[profile][key] == value);
            lemma_every_value_has_a_line(front, profile, key);
            let at = choose|at: int| sets_last(front, at, profile, key, value);
            assert(lines.take(at) =~= front.take(at));
            assert(lines[at] == front[at]);
            assert forall|later: int|
                at < later < lines.len() && section_of(lines, later) == Some(
                    profile,
                ) implies !sets_key(#[trigger] lines[later], key) by {
                if later < last {
                    assert(lines.take(later) =~= front.take(later));
                    assert(lines[later] == front[later]);
                }
            }
            assert(sets_last(lines, at, profile, key, value));
        }
    }
}

/// A file defines a finite number of profiles, each with a finite number
/// of keys.
pub proof fn lemma_parsed_is_finite(lines: Seq<Seq<char>>)
    ensures
        parsed(lines).dom().finite(),
        forall|profile: Seq<char>| #[trigger]
            parsed(lines).contains_key(profile) ==> parsed(lines)[profile].dom().finite(),
    decreases lines.len(),
{
    if lines.len() > 0 {
        lemma_parsed_is_finite(lines.drop_last());
    }
}

/// A profile that the file defines has at least one key: a header alone
/// creates no profile.
pub proof fn lemma_no_empty_profile(lines: Seq<Seq<char>>, profile: Seq<char>)
    requires
        parsed(lines).contains_key(profile),
    ensures
        exists|key: Seq<char>| parsed(lines)[profile].contains_key(key),
    decreases lines.len(),
{
    if lines.len() > 0 {
        let front = lines.drop_last();
        let before = after_lines(initial_state(), front);
        match line_syntax(lines.last()) {
            LineSyntax::Property { key, value } => {
                if before.current == Some(profile) {
                    assert(parsed(lines)[profile].contains_key(key));
                } else {
                    assert(before.profiles.contains_key(profile));
                    lemma_no_empty_profile(front, profile);
                    let held = choose|held: Seq<char>| parsed(front)[profile].contains_key(held);
                    assert(parsed(lines)[profile].contains_key(held));
                }
            },
            _ => {
                lemma_no_empty_profile(front, profile);
                let held = choose|held: Seq<char>| parsed(front)[profile].contains_key(held);
                assert(parsed(lines)[profile].contains_key(held));
            },
        }
    }
}

/// What was found where the configuration file should be.
#[derive(Debug, PartialEq, Eq)]
pub enum ConfigFile {
    /// Nothing is there.
    Missing,
    /// Something is there that is not a regular file.
    NotAFile,
    /// A regular file that could not be opened.
    Unreadable,
    /// A regular file, with its lines in order. A line that could not be
    /// read as text is `None`.
    Lines(Vec<Option<String>>),
}

/// The lines of a file that could be read as text, in order. The others
/// are left out, and so have no effect.
pub open spec fn readable(lines: Seq<Option<String>>) -> Seq<Seq<char>>
    decreases lines.len(),
{
    if lines.len() == 0 {
        Seq::empty()
    } else {
        match lines.last() {
            Some(line) => readable(lines.drop_last()).push(line@),
            None => readable(lines.drop_last()),
        }
    }
}

/// The lines that could be read as text.
pub fn readable_lines(lines: &Vec<Option<String>>) -> (kept: Vec<String>)
    ensures
        lines_text(kept@) == readable(lines@),
{
    let mut kept: Vec<String> = Vec::new();
    let mut at: usize = 0;
    while at < lines.len()
        invariant
            at <= lines@.len(),
            lines_text(kept@) == readable(lines@.take(at as int)),
        decreases lines@.len() - at,
    {
        proof {
            assert(lines@.take(at + 1).drop_last() =~= lines@.take(at as int));
            assert(lines@.take(at + 1).last() == lines@[at as int]);
        }
        if let Some(line) = &lines[at] {
            let ghost before = lines_text(kept@);
            kept.push(line.clone());
            assert(lines_text(kept@) =~= before.push(line@));
        }
        at += 1;
    }
    proof {
        assert(lines@.take(at as int) =~= lines@);
    }
    kept
}

/// The profiles that the lines `lines` define.
pub fn parse_lines(lines: &Vec<String>) -> (config: Config)
    ensures
        config@ == parsed(lines_text(lines@)),
{
    let ghost text = lines_text(lines@);
    let mut config = Config::new();
    let mut current: Option<String> = None;
    let mut at: usize = 0;
    while at < lines.len()
        invariant
            at <= lines@.len(),
            text == lines_text(lines@),
            after_lines(initial_state(), text.take(at as int)) == (ParseState {
                profiles: config@,
                current: match current {
                    Some(name) => Some(name@),
                    None => None,
                },
            }),
        decreases lines@.len() - at,
    {
        proof {
            assert(text.take(at + 1).drop_last() =~= text.take(at as int));
            assert(text.take(at + 1).last() == lines@[at as int]@);
        }
        match parse_line(lines[at].as_str()) {
            Line::Header(name) => {
                current = Some(name);
            },
            Line::Property { key, value } => {
                if let Some(profile) = &current {
                    config.set(profile.clone(), key, value);
                }
            },
            _ => {},
        }
        at += 1;
    }
    proof {
        assert(text.take(at as int) =~= text);
    }
    config
}

/// The profiles of the configuration file. Where there is no regular file
/// there is no configuration, which is no failure; a regular file that
/// cannot be opened is one.
pub open spec fn profiles_in(file: ConfigFile) -> Result<
    Option<Map<Seq<char>, Map<Seq<char>, Seq<char>>>>,
    ChainError,
> {
    match file {
        ConfigFile::Missing => Ok(None),
        ConfigFile::NotAFile => Ok(None),
        ConfigFile::Unreadable => Err(ChainError::ConfigUnreadable),
        ConfigFile::Lines(lines) => Ok(Some(parsed(readable(lines@)))),
    }
}

/// Whether `result` is what `expected` says: a configuration with the same
/// profiles, none, or the same failure.
pub open spec fn config_is(
    result: Result<Option<Config>, ChainError>,
    expected: Result<Option<Map<Seq<char>, Map<Seq<char>, Seq<char>>>>, ChainError>,
) -> bool {
    match expected {
        Ok(Some(profiles)) => result matches Ok(Some(config)) && config@ == profiles,
        Ok(None) => result matches Ok(None),
        Err(error) => result matches Err(e) && e == error,
    }
}

/// Reads the configuration file from what was found in its place.
pub fn parse_config_file(file: &ConfigFile) -> (result: Result<Option<Config>, ChainError>)
    ensures
        config_is(result, profiles_in(*file)),
{
    match file {
        ConfigFile::Missing => Ok(None),
        ConfigFile::NotAFile => Ok(None),
        ConfigFile::Unreadable => Err(ChainError::ConfigUnreadable),
        ConfigFile::Lines(lines) => Ok(Some(parse_lines(&readable_lines(lines)))),
    }
}

} // verus!
