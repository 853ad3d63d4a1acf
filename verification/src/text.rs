//! Text as sequences of characters: trimming of spaces and search for a
//! character, each with the executable routine that computes it.

use vstd::prelude::*;

verus! {

/// `s` without the spaces at its front and at its back. Only the space
/// character counts: tabs and other white space stay.
pub open spec fn trim_spaces(s: Seq<char>) -> Seq<char>
    decreases s.len(),
{
    if s.len() == 0 {
        s
    } else if s.first() == ' ' {
        trim_spaces(s.drop_first())
    } else if s.last() == ' ' {
        trim_spaces(s.drop_last())
    } else {
        s
    }
}

/// `s[from..to]` is all of `s` but spaces at its two ends, and neither
/// begins nor ends with a space.
pub open spec fn spaces_around(s: Seq<char>, from: int, to: int) -> bool {
    &&& 0 <= from <= to <= s.len()
    &&& forall|i: int| 0 <= i < from ==> s[i] == ' '
    &&& forall|i: int| to <= i < s.len() ==> s[i] == ' '
    &&& from < to ==> s[from] != ' ' && s[to - 1] != ' '
}

/// The index at which `c` first occurs in `s`, if it occurs at all.
pub open spec fn first_occurrence(s: Seq<char>, c: char) -> Option<int>
    decreases s.len(),
{
    if s.len() == 0 {
        None
    } else if s.first() == c {
        Some(0)
    } else {
        match first_occurrence(s.drop_first(), c) {
            Some(i) => Some(i + 1),
            None => None,
        }
    }
}

/// A range with nothing but spaces outside it, and no space at either of
/// its ends, is the trimmed text.
pub proof fn lemma_trim_spaces_range(s: Seq<char>, from: int, to: int)
    requires
        spaces_around(s, from, to),
    ensures
        trim_spaces(s) == s.subrange(from, to),
    decreases s.len(),
{
    if s.len() == 0 {
        assert(s.subrange(from, to) =~= s);
    } else if s.first() == ' ' {
        let rest = s.drop_first();
        if from == 0 {
            assert(to == 0);
            assert(spaces_around(rest, 0, 0));
            lemma_trim_spaces_range(rest, 0, 0);
            assert(rest.subrange(0, 0) =~= s.subrange(from, to));
        } else {
            assert(spaces_around(rest, from - 1, to - 1));
            lemma_trim_spaces_range(rest, from - 1, to - 1);
            assert(rest.subrange(from - 1, to - 1) =~= s.subrange(from, to));
        }
    } else if s.last() == ' ' {
        let rest = s.drop_last();
        assert(from == 0);
        assert(to < s.len());
        assert(spaces_around(rest, from, to));
        lemma_trim_spaces_range(rest, from, to);
        assert(rest.subrange(from, to) =~= s.subrange(from, to));
    } else {
        assert(from == 0);
        assert(to == s.len());
        assert(s.subrange(from, to) =~= s);
    }
}

/// Trimmed text neither begins nor ends with a space, and trimming it again
/// changes nothing.
pub proof fn lemma_trim_spaces_trimmed(s: Seq<char>)
    ensures
        trim_spaces(s).len() <= s.len(),
        trim_spaces(s).len() > 0 ==> trim_spaces(s).first() != ' ' && trim_spaces(s).last() != ' ',
        trim_spaces(trim_spaces(s)) == trim_spaces(s),
    decreases s.len(),
{
    if s.len() > 0 && s.first() == ' ' {
        lemma_trim_spaces_trimmed(s.drop_first());
    } else if s.len() > 0 && s.last() == ' ' {
        lemma_trim_spaces_trimmed(s.drop_last());
    }
}

/// Trimmed text is a part of the text: the range with nothing but spaces
/// outside it and no space at either of its ends, whose bounds are handed
/// back.
pub proof fn lemma_trim_spaces_bounds(s: Seq<char>) -> (bounds: (int, int))
    ensures
        spaces_around(s, bounds.0, bounds.1),
        trim_spaces(s) == s.subrange(bounds.0, bounds.1),
    decreases s.len(),
{
    if s.len() > 0 && s.first() == ' ' {
        let rest = s.drop_first();
        let (from, to) = lemma_trim_spaces_bounds(rest);
        assert forall|i: int| 0 <= i < from + 1 implies s[i] == ' ' by {
            if i > 0 {
                assert(s[i] == rest[i - 1]);
            }
        }
        assert forall|i: int| to + 1 <= i < s.len() implies s[i] == ' ' by {
            assert(s[i] == rest[i - 1]);
        }
        if from < to {
            assert(s[from + 1] == rest[from]);
            assert(s[to] == rest[to - 1]);
        }
        assert(rest.subrange(from, to) =~= s.subrange(from + 1, to + 1));
        (from + 1, to + 1)
    } else if s.len() > 0 && s.last() == ' ' {
        let rest = s.drop_last();
        let (from, to) = lemma_trim_spaces_bounds(rest);
        assert forall|i: int| 0 <= i < from implies s[i] == ' ' by {
            assert(s[i] == rest[i]);
        }
        assert forall|i: int| to <= i < s.len() implies s[i] == ' ' by {
            if i < rest.len() {
                assert(s[i] == rest[i]);
            }
        }
        if from < to {
            assert(s[from] == rest[from]);
            assert(s[to - 1] == rest[to - 1]);
        }
        assert(rest.subrange(from, to) =~= s.subrange(from, to));
        (from, to)
    } else {
        assert(s.subrange(0, s.len() as int) =~= s);
        (0, s.len() as int)
    }
}

/// The first occurrence of `c` holds `c`, and nothing before it does.
pub proof fn lemma_first_occurrence_is_first(s: Seq<char>, c: char)
    ensures
        match first_occurrence(s, c) {
            Some(at) => 0 <= at < s.len() && s[at] == c && forall|j: int|
                0 <= j < at ==> s[j] != c,
            None => !s.contains(c),
        },
    decreases s.len(),
{
    if s.len() > 0 && s.first() != c {
        let rest = s.drop_first();
        lemma_first_occurrence_is_first(rest, c);
        match first_occurrence(rest, c) {
            Some(at) => {
                assert(s[at + 1] == rest[at]);
                assert forall|j: int| 0 <= j < at + 1 implies s[j] != c by {
                    if j > 0 {
                        assert(s[j] == rest[j - 1]);
                    }
                }
            },
            None => {
                assert forall|j: int| 0 <= j < s.len() implies s[j] != c by {
                    if j > 0 {
                        assert(rest[j - 1] == s[j]);
                        assert(rest.contains(rest[j - 1]));
                    }
                }
            },
        }
    }
}

/// The characters of `s`, one element each.
pub(crate) fn chars_of(s: &str) -> (chars: Vec<char>)
    ensures
        chars@ == s@,
{
    let mut chars: Vec<char> = Vec::new();
    for c in it: s.chars()
        invariant
            it.seq() == s@,
            chars@.len() == it.index(),
            forall|i: int| 0 <= i < chars@.len() ==> chars@[i] == it.seq()[i],
    {
        chars.push(c);
    }
    assert(chars@ =~= s@);
    chars
}

/// The bounds of `chars[from..to]` once the spaces at its two ends are
/// left out.
pub(crate) fn trimmed_bounds(chars: &Vec<char>, from: usize, to: usize) -> (bounds: (usize, usize))
    requires
        from <= to <= chars@.len(),
    ensures
        from <= bounds.0 <= bounds.1 <= to,
        chars@.subrange(bounds.0 as int, bounds.1 as int) == trim_spaces(
            chars@.subrange(from as int, to as int),
        ),
{
    let mut start: usize = from;
    while start < to && chars[start] == ' '
        invariant
            from <= start <= to <= chars@.len(),
            forall|i: int| from <= i < start ==> chars@[i] == ' ',
        decreases to - start,
    {
        start += 1;
    }
    let mut end: usize = to;
    while end > start && chars[end - 1] == ' '
        invariant
            start <= end <= to <= chars@.len(),
            forall|i: int| end <= i < to ==> chars@[i] == ' ',
        decreases end - start,
    {
        end -= 1;
    }
    proof {
        let part = chars@.subrange(from as int, to as int);
        assert(spaces_around(part, start - from, end - from));
        lemma_trim_spaces_range(part, start - from, end - from);
        assert(part.subrange(start - from, end - from) =~= chars@.subrange(
            start as int,
            end as int,
        ));
    }
    (start, end)
}

/// The index of the first `c` in `chars[from..to]`.
pub(crate) fn find_char(chars: &Vec<char>, c: char, from: usize, to: usize) -> (found: Option<
    usize,
>)
    requires
        from <= to <= chars@.len(),
    ensures
        match found {
            Some(at) => from <= at < to && chars@[at as int] == c && first_occurrence(
                chars@.subrange(from as int, to as int),
                c,
            ) == Some(at - from),
            None => first_occurrence(chars@.subrange(from as int, to as int), c) is None
                && !chars@.subrange(from as int, to as int).contains(c),
        },
{
    let ghost part = chars@.subrange(from as int, to as int);
    let mut at: usize = from;
    while at < to
        invariant
            from <= at <= to <= chars@.len(),
            part == chars@.subrange(from as int, to as int),
            forall|j: int| 0 <= j < at - from ==> part[j] != c,
        decreases to - at,
    {
        if chars[at] == c {
            proof {
                lemma_first_occurrence_is_first(part, c);
                assert(part[at - from] == c);
            }
            return Some(at);
        }
        at += 1;
    }
    proof {
        lemma_first_occurrence_is_first(part, c);
    }
    None
}

} // verus!
