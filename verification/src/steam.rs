//! Steam's list of library folders: the game may be installed in any of
//! them. The list is a text file in which each folder stands on a line of
//! its own, as the quoted value after the quoted key `path`.
use vstd::prelude::*;

use crate::dmx::texts;
use crate::mesh::{contains_text, str_contains};

verus! {

/// Position of the first line feed in `text`, or its length when it has none.
pub open spec fn first_newline(text: Seq<char>) -> nat
    decreases text.len(),
{
    if text.len() == 0 {
        0
    } else if text[0] == '\n' {
        0
    } else {
        1 + first_newline(text.drop_first())
    }
}

/// A line that ended in a line feed, without the carriage return that
/// stood just before the line feed, if any.
pub open spec fn without_cr(line: Seq<char>) -> Seq<char> {
    if line.len() > 0 && line.last() == '\r' {
        line.drop_last()
    } else {
        line
    }
}

/// The lines of `text` as `str::lines` gives them: split at line feeds, a
/// carriage return before a line feed dropped, and no empty line after a
/// closing line feed.
pub open spec fn text_lines(text: Seq<char>) -> Seq<Seq<char>>
    decreases text.len(),
{
    if text.len() == 0 {
        Seq::empty()
    } else {
        let k = first_newline(text);
        if k < text.len() {
            seq![without_cr(text.take(k as int))] + text_lines(text.skip((k + 1) as int))
        } else {
            seq![text]
        }
    }
}

/// Index of the last double quote in `line`.
pub open spec fn last_quote(line: Seq<char>) -> Option<int>
    decreases line.len(),
{
    if line.len() == 0 {
        None
    } else if line.last() == '"' {
        Some(line.len() - 1)
    } else {
        last_quote(line.drop_last())
    }
}

/// The second piece of `line` counted from the end when it is split at
/// double quotes: the text between its last two quotes, or everything
/// before its only quote; none without a quote.
pub open spec fn second_piece_from_end(line: Seq<char>) -> Option<Seq<char>> {
    match last_quote(line) {
        None => None,
        Some(q) => {
            let before = line.take(q);
            match last_quote(before) {
                None => Some(before),
                Some(p) => Some(before.skip(p + 1)),
            }
        },
    }
}

/// The folder a line names: for a line holding the quoted key `path`, its
/// quoted value.
pub open spec fn library_entry(line: Seq<char>) -> Option<Seq<char>> {
    if contains_text(line, "\"path\""@) {
        second_piece_from_end(line)
    } else {
        None
    }
}

/// The folders named by `lines`, in order.
pub open spec fn library_entries(lines: Seq<Seq<char>>) -> Seq<Seq<char>>
    decreases lines.len(),
{
    if lines.len() == 0 {
        Seq::empty()
    } else {
        let first = match library_entry(lines[0]) {
            Some(folder) => seq![folder],
            None => Seq::empty(),
        };
        first + library_entries(lines.drop_first())
    }
}

/// The library folders listed in the text of Steam's library file.
pub open spec fn library_paths_in(text: Seq<char>) -> Seq<Seq<char>> {
    library_entries(text_lines(text))
}

proof fn lemma_first_newline(text: Seq<char>, k: int)
    requires
        0 <= k <= text.len(),
        forall|i: int| 0 <= i < k ==> text[i] != '\n',
        k == text.len() || text[k] == '\n',
    ensures
        first_newline(text) == k,
    decreases k,
{
    if k > 0 {
        lemma_first_newline(text.drop_first(), k - 1);
    }
}

proof fn lemma_last_quote_at_end(line: Seq<char>, tail: Seq<char>)
    requires
        !tail.contains('"'),
    ensures
        last_quote(line + tail) == last_quote(line),
    decreases tail.len(),
{
    if tail.len() > 0 {
        let whole = line + tail;
        assert(whole.last() == tail.last());
        assert(whole.drop_last() =~= line + tail.drop_last());
        assert forall|i: int| 0 <= i < tail.drop_last().len() implies tail.drop_last()[i] != '"' by {
            assert(tail.drop_last()[i] == tail[i]);
        }
        lemma_last_quote_at_end(line, tail.drop_last());
    } else {
        assert(line + tail =~= line);
    }
}

/// The value between the last two quotes of a line that ends in a quoted
/// value without inner quotes.
proof fn lemma_quoted_tail(head: Seq<char>, value: Seq<char>)
    requires
        !value.contains('"'),
    ensures
        second_piece_from_end(head + seq!['"'] + value + seq!['"']) == Some(value),
{
    let line = head + seq!['"'] + value + seq!['"'];
    let open = head + seq!['"'];
    let body = open + value;
    assert(line =~= body + seq!['"']);
    assert(line.drop_last() =~= body);
    assert(last_quote(line) == Some(line.len() - 1));
    assert(line.take(line.len() - 1) =~= body);
    lemma_last_quote_at_end(open, value);
    assert(open.drop_last() =~= head);
    assert(last_quote(open) == Some(open.len() - 1));
    assert(body.skip(open.len() as int) =~= value);
}

/// A text of one line without line feeds, closed by a line feed, has that
/// line as its only line.
proof fn lemma_single_line(line: Seq<char>)
    requires
        line.len() > 0,
        line.last() != '\r',
        !line.contains('\n'),
    ensures
        text_lines(line + seq!['\n']) == seq![line],
{
    let text = line + seq!['\n'];
    assert forall|i: int| 0 <= i < line.len() implies text[i] != '\n' by {
        assert(text[i] == line[i]);
    }
    lemma_first_newline(text, line.len() as int);
    assert(text.take(line.len() as int) =~= line);
    assert(text.skip((line.len() + 1) as int) =~= Seq::<char>::empty());
    assert(text_lines(text.skip((line.len() + 1) as int)) =~= Seq::<Seq<char>>::empty());
    assert(text_lines(text) =~= seq![line]);
}

/// A line holding the quoted key `path` and then a quoted value names that
/// value as a library folder, whatever the value holds besides double
/// quotes and line feeds (spaces included), and whatever stands before the
/// key or between key and value. A text of that one line lists exactly
/// that folder.
pub proof fn law_quoted_path_value(before: Seq<char>, between: Seq<char>, value: Seq<char>)
    requires
        !value.contains('"'),
        !value.contains('\n'),
        !before.contains('\n'),
        !between.contains('\n'),
    ensures
        library_entry(before + "\"path\""@ + between + seq!['"'] + value + seq!['"']) == Some(value),
        library_paths_in(before + "\"path\""@ + between + seq!['"'] + value + seq!['"'] + seq!['\n'])
            == seq![value],
{
    reveal_strlit("\"path\"");
    let key = "\"path\""@;
    let head = before + key + between;
    let line = head + seq!['"'] + value + seq!['"'];
    assert(contains_text(line, key)) by {
        assert(line.subrange(before.len() as int, (before.len() + key.len()) as int) =~= key);
    }
    lemma_quoted_tail(head, value);
    assert(!line.contains('\n')) by {
        assert forall|i: int| 0 <= i < line.len() implies line[i] != '\n' by {
            if i < before.len() {
                assert(line[i] == before[i]);
            } else if i < before.len() + key.len() {
                assert(line[i] == key[i - before.len()]);
            } else if i < head.len() {
                assert(line[i] == between[i - before.len() - key.len()]);
            } else if head.len() < i < head.len() + 1 + value.len() {
                assert(line[i] == value[i - head.len() - 1]);
            }
        }
    }
    lemma_single_line(line);
    assert(library_entry(line) == Some(value));
    assert(seq![line][0] == line);
    assert(seq![line].drop_first() =~= Seq::<Seq<char>>::empty());
    assert(library_entries(Seq::<Seq<char>>::empty()) == Seq::<Seq<char>>::empty());
    assert(library_entries(seq![line]) =~= seq![value] + Seq::<Seq<char>>::empty());
}

/// Lines are cut at each line feed: a text made of a line without line
/// feeds, a line feed and more text has that line (without a carriage
/// return just before the line feed) and then the lines of the rest; a text
/// without line feeds is one line, kept whole.
pub proof fn law_lines_cut_at_line_feeds(line: Seq<char>, rest: Seq<char>)
    requires
        !line.contains('\n'),
    ensures
        text_lines(line + seq!['\n'] + rest) == seq![without_cr(line)] + text_lines(rest),
        line.len() > 0 ==> text_lines(line) == seq![line],
        without_cr(line + seq!['\r']) == line,
{
    let text = line + seq!['\n'] + rest;
    assert forall|i: int| 0 <= i < line.len() implies text[i] != '\n' by {
        assert(text[i] == line[i]);
    }
    lemma_first_newline(text, line.len() as int);
    assert(text.take(line.len() as int) =~= line);
    assert(text.skip((line.len() + 1) as int) =~= rest);
    if line.len() > 0 {
        lemma_first_newline(line, line.len() as int);
    }
    assert((line + seq!['\r']).drop_last() =~= line);
}

/// Index of the last double quote among the first `end` characters.
fn last_quote_before(line: &str, end: usize) -> (found: Option<usize>)
    requires
        end <= line@.len(),
    ensures
        match found {
            Some(q) => q < end && last_quote(line@.take(end as int)) == Some(q as int),
            None => last_quote(line@.take(end as int)) is None,
        },
{
    let mut i = end;
    while i > 0
        invariant
            i <= end <= line@.len(),
            last_quote(line@.take(end as int)) == last_quote(line@.take(i as int)),
        decreases i,
    {
        assert(line@.take(i as int).drop_last() =~= line@.take(i - 1));
        if line.get_char(i - 1) == '"' {
            return Some(i - 1);
        }
        i = i - 1;
    }
    None
}

/// The folder that `line` names, if it holds the key `path`.
fn library_entry_of(line: &str) -> (folder: Option<String>)
    ensures
        match folder {
            Some(f) => library_entry(line@) == Some(f@),
            None => library_entry(line@) is None,
        },
{
    if !str_contains(line, "\"path\"") {
        return None;
    }
    let len = line.unicode_len();
    assert(line@.take(len as int) =~= line@);
    match last_quote_before(line, len) {
        None => None,
        Some(q) => {
            assert(line@.take(q as int).take(q as int) =~= line@.take(q as int));
            match last_quote_before(line, q) {
                None => Some(line.substring_char(0, q).to_owned()),
                Some(p) => {
                    assert(line@.take(q as int).skip(p + 1) =~= line@.subrange(p + 1, q as int));
                    Some(line.substring_char(p + 1, q).to_owned())
                },
            }
        },
    }
}

/// The library folders listed in the text of Steam's library file: for
/// each line holding the quoted key `path`, its quoted value, in order.
pub fn library_paths(content: &str) -> (paths: Vec<String>)
    ensures
        texts(paths@) == library_paths_in(content@),
{
    let n = content.unicode_len();
    let ghost text = content@;
    let mut paths: Vec<String> = Vec::new();
    let mut start: usize = 0;
    assert(text.skip(0) =~= text);
    assert(texts(paths@) =~= Seq::empty());
    while start < n
        invariant
            start <= n,
            n == text.len(),
            text == content@,
            library_paths_in(text) == texts(paths@) + library_entries(text_lines(text.skip(start as int))),
        decreases n - start,
    {
        let ghost rest = text.skip(start as int);
        let mut k = start;
        while k < n && content.get_char(k) != '\n'
            invariant
                start <= k <= n,
                n == text.len(),
                text == content@,
                forall|i: int| start <= i < k ==> text[i] != '\n',
            decreases n - k,
        {
            k = k + 1;
        }
        proof {
            lemma_first_newline(rest, k - start);
        }
        let end = if k < n && k > start && content.get_char(k - 1) == '\r' {
            k - 1
        } else {
            k
        };
        let line = content.substring_char(start, end);
        let ghost next = if k < n { text.skip(k + 1) } else { Seq::<char>::empty() };
        proof {
            if k < n {
                assert(rest.skip(k - start + 1) =~= text.skip(k + 1));
                assert(line@ =~= without_cr(rest.take(k - start)));
                assert(text_lines(rest) == seq![line@] + text_lines(next));
            } else {
                assert(line@ =~= rest);
                assert(text_lines(rest) == seq![line@]);
                assert(text_lines(next) =~= Seq::<Seq<char>>::empty());
                assert(seq![line@] + text_lines(next) =~= seq![line@]);
            }
            assert((seq![line@] + text_lines(next)).drop_first() =~= text_lines(next));
        }
        let ghost before = paths@;
        match library_entry_of(line) {
            Some(folder) => {
                paths.push(folder);
                assert(texts(paths@) =~= texts(before) + seq![folder@]);
            },
            None => {},
        }
        start = if k < n {
            k + 1
        } else {
            n
        };
        proof {
            if k >= n {
                assert(text.skip(n as int) =~= Seq::<char>::empty());
            }
            assert(text.skip(start as int) =~= next);
        }
    }
    assert(text.skip(n as int) =~= Seq::<char>::empty());
    assert(texts(paths@) + Seq::<Seq<char>>::empty() =~= texts(paths@));
    paths
}

} // verus!
