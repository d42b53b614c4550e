//! Reading the listing that the legacy display query prints: one line for
//! each output, a connected output's line holding the word `connected`
//! between two spaces and starting with the output's name.

use vstd::prelude::*;
use crate::text::{
    characters,
    contains,
    contains_text,
    lemma_run_length,
    lemma_run_length_is,
    run_length,
    string_of,
    texts,
};

verus! {

/// What the listing says of a connected output.
pub open spec fn marker() -> Seq<char> {
    " connected "@
}

/// The character that ends a line.
pub open spec fn is_line_feed(c: char) -> bool {
    c == '\n'
}

/// Whitespace: a space, a tab, a line feed, a form feed or a carriage return.
pub open spec fn is_blank(c: char) -> bool {
    c == ' ' || c == '\t' || c == '\n' || c == '\x0c' || c == '\r'
}

/// A line without the carriage return that its ending may have begun with.
pub open spec fn without_carriage_return(line: Seq<char>) -> Seq<char> {
    if line.len() > 0 && line.last() == '\r' {
        line.drop_last()
    } else {
        line
    }
}

/// The lines of `text`. A line ends with a line feed, or with a carriage
/// return and a line feed, neither of which belongs to it. What follows the
/// last line feed is a line too, whole, unless it is empty.
pub open spec fn lines(text: Seq<char>) -> Seq<Seq<char>>
    decreases text.len(),
{
    let n = run_length(text, |c: char| is_line_feed(c)) as int;
    if text.len() == 0 {
        Seq::empty()
    } else if n >= text.len() {
        seq![text]
    } else {
        seq![without_carriage_return(text.take(n))] + lines(text.skip(n + 1))
    }
}

/// The line tells of a connected output.
pub open spec fn is_connected(line: Seq<char>) -> bool {
    contains_text(line, marker())
}

/// The name that a line starts with: what stands before its first
/// whitespace.
pub open spec fn first_token(line: Seq<char>) -> Seq<char> {
    line.take(run_length(line, |c: char| is_blank(c)) as int)
}

/// The names of the connected outputs among `lines`, in the lines' order.
pub open spec fn connected_names(lines: Seq<Seq<char>>) -> Seq<Seq<char>> {
    lines.filter(|line: Seq<char>| is_connected(line)).map_values(
        |line: Seq<char>| first_token(line),
    )
}

/// The views of a sequence of slices.
pub open spec fn slices(found: Seq<&[char]>) -> Seq<Seq<char>> {
    found.map_values(|line: &[char]| line@)
}

/// No line holds a line feed.
pub proof fn lemma_lines_hold_no_line_feed(text: Seq<char>)
    ensures
        forall|i: int, k: int|
            0 <= i < lines(text).len() && 0 <= k < lines(text)[i].len() ==> !is_line_feed(
                #[trigger] lines(text)[i][k],
            ),
    decreases text.len(),
{
    let n = run_length(text, |c: char| is_line_feed(c)) as int;
    lemma_run_length(text, |c: char| is_line_feed(c));
    if text.len() != 0 && n < text.len() {
        let first = without_carriage_return(text.take(n));
        let rest = lines(text.skip(n + 1));
        lemma_lines_hold_no_line_feed(text.skip(n + 1));
        assert forall|i: int, k: int|
            0 <= i < lines(text).len() && 0 <= k < lines(text)[i].len() implies !is_line_feed(
            #[trigger] lines(text)[i][k],
        ) by {
            if i == 0 {
                assert(lines(text)[0] == first);
                assert(first[k] == text[k]);
            } else {
                assert(lines(text)[i] == rest[i - 1]);
            }
        }
    }
}

/// The first token is the longest start of the line that holds no
/// whitespace.
pub proof fn lemma_first_token(line: Seq<char>)
    ensures
        first_token(line).len() <= line.len(),
        forall|k: int| 0 <= k < first_token(line).len() ==> first_token(line)[k] == line[k],
        forall|k: int| 0 <= k < first_token(line).len() ==> !is_blank(line[k]),
        first_token(line).len() < line.len() ==> is_blank(line[first_token(line).len() as int]),
{
    lemma_run_length(line, |c: char| is_blank(c));
}

/// Whether `c` is whitespace.
pub fn blank(c: char) -> (b: bool)
    ensures
        b == is_blank(c),
{
    c == ' ' || c == '\t' || c == '\n' || c == '\x0c' || c == '\r'
}

/// Cuts `text` into its lines.
pub fn split_lines(text: &[char]) -> (found: Vec<&[char]>)
    ensures
        slices(found@) == lines(text@),
{
    let mut found: Vec<&[char]> = Vec::new();
    let mut start: usize = 0;
    assert(text@.skip(0) =~= text@);
    while start < text.len()
        invariant
            start <= text.len(),
            lines(text@) == slices(found@) + lines(text@.skip(start as int)),
        decreases text.len() - start,
    {
        let mut end = start;
        while end < text.len() && text[end] != '\n'
            invariant
                start <= end <= text.len(),
                forall|k: int| start <= k < end ==> text@[k] != '\n',
            decreases text.len() - end,
        {
            end += 1;
        }
        let ghost rest = text@.skip(start as int);
        proof {
            lemma_run_length_is(rest, |c: char| is_line_feed(c), end - start);
        }
        if end == text.len() {
            found.push(&text[start..end]);
            start = end;
        } else {
            let stop = if end > start && text[end - 1] == '\r' {
                end - 1
            } else {
                end
            };
            found.push(&text[start..stop]);
            proof {
                let line = rest.take(end - start);
                assert(text@.subrange(start as int, stop as int) =~= without_carriage_return(
                    line,
                ));
                assert(rest.skip(end - start + 1) =~= text@.skip(end + 1));
            }
            start = end + 1;
        }
    }
    found
}

/// How many characters of `line` stand before its first whitespace.
pub fn token_length(line: &[char]) -> (n: usize)
    ensures
        n == run_length(line@, |c: char| is_blank(c)),
        n <= line.len(),
{
    let mut n: usize = 0;
    while n < line.len() && !blank(line[n])
        invariant
            n <= line.len(),
            forall|k: int| 0 <= k < n ==> !is_blank(line@[k]),
        decreases line.len() - n,
    {
        n += 1;
    }
    proof {
        lemma_run_length_is(line@, |c: char| is_blank(c), n as int);
    }
    n
}

/// The name of the output that the characters of a line tell of, where they
/// tell of a connected one.
pub fn name_in(line: &[char]) -> (name: Option<String>)
    ensures
        name is Some <==> is_connected(line@),
        name matches Some(found) ==> found@ == first_token(line@),
{
    let wanted = characters(" connected ");
    if contains(line, wanted.as_slice()) {
        let n = token_length(line);
        Some(string_of(&line[0..n]))
    } else {
        None
    }
}

/// The name of the output that `line` tells of, where it tells of a
/// connected one.
pub fn connected_name(line: &str) -> (name: Option<String>)
    ensures
        name is Some <==> is_connected(line@),
        name matches Some(found) ==> found@ == first_token(line@),
{
    let chars = characters(line);
    name_in(chars.as_slice())
}

/// Taking one more line adds its output's name where it names one, and
/// nothing where it does not.
proof fn lemma_connected_names_step(lines: Seq<Seq<char>>, i: int)
    requires
        0 <= i < lines.len(),
    ensures
        connected_names(lines.take(i + 1)) == if is_connected(lines[i]) {
            connected_names(lines.take(i)).push(first_token(lines[i]))
        } else {
            connected_names(lines.take(i))
        },
{
    let names = |line: Seq<char>| is_connected(line);
    assert(lines.take(i + 1) =~= lines.take(i).push(lines[i]));
    lines.take(i).lemma_filter_push(lines[i], names);
}

/// The names of the connected outputs in a listing, in the listing's order.
pub fn connected_outputs(listing: &str) -> (names: Vec<String>)
    ensures
        texts(names@) == connected_names(lines(listing@)),
{
    let chars = characters(listing);
    let found = split_lines(chars.as_slice());
    let ghost all = lines(listing@);
    let mut names: Vec<String> = Vec::new();
    for i in 0..found.len()
        invariant
            slices(found@) == all,
            texts(names@) == connected_names(all.take(i as int)),
    {
        proof {
            lemma_connected_names_step(all, i as int);
        }
        if let Some(name) = name_in(found[i]) {
            names.push(name);
        }
    }
    assert(all.take(found.len() as int) =~= all);
    names
}

} // verus!
