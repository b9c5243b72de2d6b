//! The list of hosts to probe, as written in a text file.
//!
//! The file holds one host name per line. White space around a name is
//! dropped; a line that is then empty, or that then starts with `#`, holds no
//! name. Nothing else is asked of a name here: one that is no host name
//! fails later, when it is probed.

use vstd::prelude::*;

verus! {

/// The characters that count as white space: those with the Unicode property
/// `White_Space`.
pub open spec fn is_space(c: char) -> bool {
    let n = c as u32;
    ||| 0x09 <= n <= 0x0D
    ||| n == 0x20
    ||| n == 0x85
    ||| n == 0xA0
    ||| n == 0x1680
    ||| 0x2000 <= n <= 0x200A
    ||| n == 0x2028
    ||| n == 0x2029
    ||| n == 0x202F
    ||| n == 0x205F
    ||| n == 0x3000
}

/// `s` without the white space it starts with.
pub open spec fn trim_start(s: Seq<char>) -> Seq<char>
    decreases s.len(),
{
    if s.len() > 0 && is_space(s[0]) {
        trim_start(s.skip(1))
    } else {
        s
    }
}

/// `s` without the white space it ends with.
pub open spec fn trim_end(s: Seq<char>) -> Seq<char>
    decreases s.len(),
{
    if s.len() > 0 && is_space(s.last()) {
        trim_end(s.drop_last())
    } else {
        s
    }
}

/// `s` without the white space around it.
pub open spec fn trimmed(s: Seq<char>) -> Seq<char> {
    trim_end(trim_start(s))
}

/// Whether a line, already trimmed, holds a name: it is neither empty nor a
/// comment.
pub open spec fn is_entry(line: Seq<char>) -> bool {
    line.len() > 0 && line[0] != '#'
}

/// The length of the first line of `text`: the number of characters before
/// its first line feed, or all of them where it has none.
pub open spec fn line_len(text: Seq<char>) -> int
    decreases text.len(),
{
    if text.len() == 0 || text[0] == '\n' {
        0
    } else {
        1 + line_len(text.skip(1))
    }
}

/// The names that one line contributes: its trimmed text, or nothing.
pub open spec fn entry_of(line: Seq<char>) -> Seq<Seq<char>> {
    if is_entry(trimmed(line)) {
        seq![trimmed(line)]
    } else {
        seq![]
    }
}

/// The names that `text` lists, in the order of their lines.
pub open spec fn entries(text: Seq<char>) -> Seq<Seq<char>>
    decreases text.len(),
{
    let cut = line_len(text);
    if 0 <= cut < text.len() {
        entry_of(text.take(cut)) + entries(text.skip(cut + 1))
    } else {
        entry_of(text)
    }
}

/// Whether `c` is white space.
pub fn is_space_char(c: char) -> (yes: bool)
    ensures
        yes == is_space(c),
{
    let n: u32 = c as u32;
    (0x09 <= n && n <= 0x0D) || n == 0x20 || n == 0x85 || n == 0xA0 || n == 0x1680 || (0x2000 <= n
        && n <= 0x200A) || n == 0x2028 || n == 0x2029 || n == 0x202F || n == 0x205F || n == 0x3000
}

/// Reads the characters of `text` into a vector.
fn chars_of(text: &str) -> (cs: Vec<char>)
    ensures
        cs@ == text@,
{
    let mut cs: Vec<char> = Vec::new();
    for c in it: text.chars()
        invariant
            it.seq() == text@,
            cs@ == it.seq().take(it.index() as int),
    {
        cs.push(c);
    }
    cs
}

/// The position at which the line that starts at `from` ends.
fn line_end(cs: &Vec<char>, from: usize) -> (end: usize)
    requires
        from <= cs.len(),
    ensures
        from <= end <= cs.len(),
        end - from == line_len(cs@.skip(from as int)),
{
    let mut end: usize = from;
    while end < cs.len() && cs[end] != '\n'
        invariant
            from <= end <= cs.len(),
            line_len(cs@.skip(from as int)) == (end - from) + line_len(cs@.skip(end as int)),
        decreases cs.len() - end,
    {
        proof {
            assert(cs@.skip(end as int).skip(1) =~= cs@.skip(end + 1));
        }
        end = end + 1;
    }
    end
}

/// The position of the first character from `from` on that is no white
/// space, or `to` where there is none before it.
fn skip_spaces(cs: &Vec<char>, from: usize, to: usize) -> (at: usize)
    requires
        from <= to <= cs.len(),
    ensures
        from <= at <= to,
        cs@.subrange(at as int, to as int) == trim_start(cs@.subrange(from as int, to as int)),
{
    let mut at: usize = from;
    while at < to && is_space_char(cs[at])
        invariant
            from <= at <= to <= cs.len(),
            trim_start(cs@.subrange(at as int, to as int)) == trim_start(
                cs@.subrange(from as int, to as int),
            ),
        decreases to - at,
    {
        proof {
            assert(cs@.subrange(at as int, to as int).skip(1) =~= cs@.subrange(at + 1, to as int));
        }
        at = at + 1;
    }
    at
}

/// The position after the last character before `to` that is no white
/// space, or `from` where there is none from it on.
fn drop_spaces(cs: &Vec<char>, from: usize, to: usize) -> (at: usize)
    requires
        from <= to <= cs.len(),
    ensures
        from <= at <= to,
        cs@.subrange(from as int, at as int) == trim_end(cs@.subrange(from as int, to as int)),
{
    let mut at: usize = to;
    while from < at && is_space_char(cs[at - 1])
        invariant
            from <= at <= to <= cs.len(),
            trim_end(cs@.subrange(from as int, at as int)) == trim_end(
                cs@.subrange(from as int, to as int),
            ),
        decreases at - from,
    {
        proof {
            assert(cs@.subrange(from as int, at as int).drop_last() =~= cs@.subrange(
                from as int,
                at - 1,
            ));
        }
        at = at - 1;
    }
    at
}

/// Reads the host names out of the text of a list.
pub fn parse_domains(text: &str) -> (domains: Vec<String>)
    ensures
        domains.deep_view() == entries(text@),
{
    let cs = chars_of(text);
    let n: usize = cs.len();
    let mut domains: Vec<String> = Vec::new();
    let mut start: usize = 0;
    let mut more: bool = true;
    assert(text@.skip(0) =~= text@);
    while more
        invariant
            cs@ == text@,
            n == cs.len(),
            start <= n,
            more ==> entries(text@) == domains.deep_view() + entries(text@.skip(start as int)),
            !more ==> entries(text@) == domains.deep_view(),
        decreases (n - start) + (if more { 1int } else { 0int }),
    {
        let end: usize = line_end(&cs, start);
        let head: usize = skip_spaces(&cs, start, end);
        let tail: usize = drop_spaces(&cs, head, end);
        proof {
            // the line is the text from `start` up to `end`, the rest follows the line feed
            let rest = text@.skip(start as int);
            assert(rest.take(end - start) =~= text@.subrange(start as int, end as int));
            if end < n {
                assert(rest.skip(end - start + 1) =~= text@.skip(end + 1));
            }
        }
        if head < tail && cs[head] != '#' {
            domains.push(text.substring_char(head, tail).to_owned());
        }
        if end < n {
            start = end + 1;
        } else {
            more = false;
        }
    }
    domains
}

/// A line's length is within the text, no line feed lies before it, and one
/// lies at it unless the text ends there.
proof fn lemma_line_len(text: Seq<char>)
    ensures
        0 <= line_len(text) <= text.len(),
        forall|i: int| 0 <= i < line_len(text) ==> text[i] != '\n',
        line_len(text) < text.len() ==> text[line_len(text)] == '\n',
    decreases text.len(),
{
    if text.len() == 0 || text[0] == '\n' {
    } else {
        let rest = text.skip(1);
        lemma_line_len(rest);
        assert forall|i: int| 0 <= i < line_len(text) implies text[i] != '\n' by {
            if i > 0 {
                assert(text[i] == rest[i - 1]);
            }
        }
    }
}

/// Trimming at the start leaves the end of the text, and what it leaves does
/// not start with white space.
proof fn lemma_trim_start(s: Seq<char>)
    ensures
        trim_start(s).len() <= s.len(),
        trim_start(s) == s.skip(s.len() - trim_start(s).len()),
        trim_start(s).len() > 0 ==> !is_space(trim_start(s)[0]),
    decreases s.len(),
{
    if s.len() > 0 && is_space(s[0]) {
        lemma_trim_start(s.skip(1));
    }
}

/// Trimming at the end leaves the start of the text, and what it leaves does
/// not end with white space.
proof fn lemma_trim_end(s: Seq<char>)
    ensures
        trim_end(s).len() <= s.len(),
        trim_end(s) == s.take(trim_end(s).len() as int),
        trim_end(s).len() > 0 ==> !is_space(trim_end(s).last()),
    decreases s.len(),
{
    if s.len() > 0 && is_space(s.last()) {
        lemma_trim_end(s.drop_last());
    }
}

/// What a line contributes is a name: not empty, no comment, no white space
/// at either end, and made of characters of the line.
proof fn lemma_entry_of(line: Seq<char>)
    ensures
        entry_of(line).len() <= 1,
        entry_of(line).len() == 1 ==> {
            let name = entry_of(line)[0];
            &&& is_entry(name)
            &&& !is_space(name[0])
            &&& !is_space(name.last())
            &&& forall|k: int| 0 <= k < name.len() ==> line.contains(#[trigger] name[k])
        },
{
    // the name is a stretch of the line: a start of what is an end of it
    lemma_trim_start(line);
    lemma_trim_end(trim_start(line));
}

/// Every name that a list yields is a usable one: it is not empty, is no
/// comment, has no white space at either end and no line feed anywhere.
pub proof fn lemma_entries_are_names(text: Seq<char>, at: int)
    requires
        0 <= at < entries(text).len(),
    ensures
        is_entry(entries(text)[at]),
        !is_space(entries(text)[at][0]),
        !is_space(entries(text)[at].last()),
        !entries(text)[at].contains('\n'),
    decreases text.len(),
{
    let cut = line_len(text);
    lemma_line_len(text);
    let line = if cut < text.len() {
        text.take(cut)
    } else {
        text
    };
    lemma_entry_of(line);
    if at >= entry_of(line).len() {
        lemma_entries_are_names(text.skip(cut + 1), at - entry_of(line).len());
    }
}

} // verus!
