//! The list of columns to export, as a text with one name per line.

use crate::builder::string_views;
use vstd::prelude::*;

verus! {

/// What `str::trim` gives for a text.
pub uninterp spec fn trim_of(s: Seq<char>) -> Seq<char>;

/// What `str::to_uppercase` gives for a text.
pub uninterp spec fn upper_of(s: Seq<char>) -> Seq<char>;

/// Relies on `str::trim`: the text without leading and trailing white space,
/// which depends on the text alone. What it returns is a slice of the text:
/// a contiguous part of it, empty for an empty text.
#[verifier::external_body]
fn trim_text(s: &str) -> (r: String)
    ensures
        r@ == trim_of(s@),
        r@.len() <= s@.len() && (exists|i: int|
            0 <= i <= s@.len() - r@.len() && r@ == #[trigger] s@.subrange(i, i + r@.len())),
        s@.len() == 0 ==> r@.len() == 0,
{
    s.trim().to_string()
}

/// Relies on `str::to_uppercase`: the text in upper case, which depends on the
/// text alone; it maps each character to its upper case, so an empty text
/// stays empty.
#[verifier::external_body]
fn uppercase_text(s: &str) -> (r: String)
    ensures
        r@ == upper_of(s@),
        s@.len() == 0 ==> r@.len() == 0,
{
    s.to_uppercase()
}

/// The pieces of a text between its line feeds: one more than it has line
/// feeds.
pub open spec fn pieces(s: Seq<char>) -> Seq<Seq<char>>
    decreases s.len(),
{
    if s.len() == 0 {
        seq![Seq::empty()]
    } else {
        let p = pieces(s.drop_last());
        if s.last() == '\n' {
            p.push(Seq::empty())
        } else {
            p.update(p.len() - 1, p.last().push(s.last()))
        }
    }
}

/// A line that ended in `\r\n` loses its `\r`.
pub open spec fn without_cr(l: Seq<char>) -> Seq<char> {
    if l.len() > 0 && l.last() == '\r' {
        l.drop_last()
    } else {
        l
    }
}

/// The lines of a text, as `str::lines` gives them: the pieces between line
/// feeds, each that a line feed ends without a final `\r`, and the piece after
/// the last line feed only where it is not empty.
pub open spec fn text_lines(s: Seq<char>) -> Seq<Seq<char>> {
    let p = pieces(s);
    let ended = p.drop_last().map_values(|l: Seq<char>| without_cr(l));
    if p.last().len() == 0 {
        ended
    } else {
        ended.push(p.last())
    }
}

/// The column name on a line: trimmed, and in upper case where asked.
pub open spec fn column_entry(line: Seq<char>, uppercase: bool) -> Seq<char> {
    if uppercase {
        upper_of(trim_of(line))
    } else {
        trim_of(line)
    }
}

/// The column names on the lines, in order, leaving out the empty ones.
pub open spec fn column_entries(lines: Seq<Seq<char>>, uppercase: bool) -> Seq<Seq<char>>
    decreases lines.len(),
{
    if lines.len() == 0 {
        Seq::empty()
    } else {
        let r = column_entries(lines.drop_last(), uppercase);
        let e = column_entry(lines.last(), uppercase);
        if e.len() > 0 {
            r.push(e)
        } else {
            r
        }
    }
}

proof fn lemma_pieces_last(s: Seq<char>, start: int)
    requires
        0 <= start <= s.len(),
        forall|k: int| start <= k < s.len() ==> s[k] != '\n',
        start == 0 || s[start - 1] == '\n',
    ensures
        pieces(s).len() >= 1,
        pieces(s).last() == s.subrange(start, s.len() as int),
    decreases s.len(),
{
    if s.len() > 0 {
        let t = s.drop_last();
        if s.last() == '\n' {
            assert(start == s.len());
            lemma_pieces_len(t);
        } else {
            lemma_pieces_last(t, start);
            assert(s.subrange(start, s.len() as int) =~= t.subrange(start, t.len() as int).push(
                s.last(),
            ));
        }
    }
}

proof fn lemma_pieces_len(s: Seq<char>)
    ensures
        pieces(s).len() >= 1,
    decreases s.len(),
{
    if s.len() > 0 {
        lemma_pieces_len(s.drop_last());
    }
}

/// The lines of a text (see `text_lines`).
pub fn split_lines(text: &str) -> (r: Vec<String>)
    ensures
        string_views(r@) == text_lines(text@),
{
    let ghost s = text@;
    let n = text.unicode_len();
    let mut lines: Vec<String> = Vec::new();
    let mut start: usize = 0;
    let mut i: usize = 0;
    proof {
        assert(s.subrange(0, 0) =~= Seq::<char>::empty());
    }
    while i < n
        invariant
            s == text@,
            n == s.len(),
            start <= i <= n,
            forall|k: int| start <= k < i ==> s[k] != '\n',
            start == 0 || s[start - 1] == '\n',
            pieces(s.subrange(0, i as int)).len() >= 1,
            string_views(lines@) == pieces(s.subrange(0, i as int)).drop_last().map_values(
                |l: Seq<char>| without_cr(l),
            ),
        decreases n - i,
    {
        let ghost before = s.subrange(0, i as int);
        let ghost after = s.subrange(0, i + 1);
        assert(after.drop_last() =~= before);
        assert(after.last() == s[i as int]);
        proof {
            lemma_pieces_last(before, start as int);
            assert(before.subrange(start as int, i as int) =~= s.subrange(start as int, i as int));
        }
        if text.get_char(i) == '\n' {
            let end = if i > start && text.get_char(i - 1) == '\r' {
                i - 1
            } else {
                i
            };
            let line = text.substring_char(start, end).to_owned();
            let ghost prev = lines@;
            lines.push(line);
            proof {
                let piece = s.subrange(start as int, i as int);
                assert(line@ == without_cr(piece)) by {
                    if i > start && s[i - 1] == '\r' {
                        assert(piece.drop_last() =~= s.subrange(start as int, i - 1));
                    }
                }
                assert(string_views(lines@) =~= string_views(prev).push(line@));
                assert(pieces(after).drop_last() =~= pieces(before));
                assert(pieces(before) =~= pieces(before).drop_last().push(piece));
            }
            start = i + 1;
        } else {
            proof {
                let p = pieces(before);
                assert(pieces(after).drop_last() =~= p.drop_last());
            }
        }
        i = i + 1;
    }
    assert(s.subrange(0, n as int) =~= s);
    proof {
        lemma_pieces_last(s, start as int);
    }
    if start < n {
        let last = text.substring_char(start, n).to_owned();
        let ghost prev = lines@;
        lines.push(last);
        assert(string_views(lines@) =~= string_views(prev).push(last@));
    }
    lines
}

/// The column names of a column list: one per line, trimmed, in upper case
/// where asked, empty lines left out.
pub fn parse_parameters(text: &str, uppercase_flag: bool) -> (r: Vec<String>)
    ensures
        string_views(r@) == column_entries(text_lines(text@), uppercase_flag),
{
    let lines = split_lines(text);
    let ghost ls = string_views(lines@);
    let mut names: Vec<String> = Vec::new();
    let mut i: usize = 0;
    while i < lines.len()
        invariant
            ls == string_views(lines@),
            i <= lines@.len(),
            string_views(names@) == column_entries(ls.subrange(0, i as int), uppercase_flag),
        decreases lines@.len() - i,
    {
        let trimmed = trim_text(lines[i].as_str());
        let entry = if uppercase_flag {
            uppercase_text(trimmed.as_str())
        } else {
            trimmed
        };
        proof {
            assert(ls.subrange(0, i + 1).drop_last() =~= ls.subrange(0, i as int));
            assert(ls[i as int] == lines@[i as int]@);
        }
        if entry.as_str().unicode_len() > 0 {
            let ghost prev = names@;
            names.push(entry);
            assert(string_views(names@) =~= string_views(prev).push(entry@));
        }
        i = i + 1;
    }
    assert(ls.subrange(0, i as int) =~= ls);
    names
}

} // verus!
