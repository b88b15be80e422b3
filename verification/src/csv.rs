//! The input format: a header line, then one contact per line, the fields
//! of a contact separated by commas. There is no quoting: every comma
//! separates two fields.

use vstd::prelude::*;
use crate::text::{joined, lemma_join_of_split, lemma_split_nonempty,
    lemma_split_pieces_hold_no_separator, lemma_take_next, split_on, split_text};

verus! {

/// `line` without the carriage return that may stand at its end.
pub open spec fn without_carriage_return(line: Seq<char>) -> Seq<char> {
    if line.len() > 0 && line.last() == '\r' {
        line.drop_last()
    } else {
        line
    }
}

/// The lines of `s`. A line ends at a line feed; a carriage return right
/// before that line feed belongs to the line ending too. What follows the
/// last line feed is a line of its own unless it is empty.
pub open spec fn lines_of(s: Seq<char>) -> Seq<Seq<char>> {
    let pieces = split_on(s, '\n');
    let ended = pieces.drop_last().map_values(|l: Seq<char>| without_carriage_return(l));
    if pieces.last().len() == 0 {
        ended
    } else {
        ended.push(pieces.last())
    }
}

/// Whether a line holds a record: every line does that is not empty.
pub open spec fn is_record_line() -> spec_fn(Seq<char>) -> bool {
    |line: Seq<char>| line.len() > 0
}

/// The fields of one line.
pub open spec fn fields_of_line() -> spec_fn(Seq<char>) -> Seq<Seq<char>> {
    |line: Seq<char>| split_on(line, ',')
}

/// The records that `lines` hold, in their order: empty lines hold none.
pub open spec fn records_of_lines(lines: Seq<Seq<char>>) -> Seq<Seq<Seq<char>>> {
    lines.filter(is_record_line()).map_values(fields_of_line())
}

/// The lines of `s` below its first one, the header.
pub open spec fn lines_below_header(s: Seq<char>) -> Seq<Seq<char>> {
    if lines_of(s).len() == 0 {
        lines_of(s)
    } else {
        lines_of(s).skip(1)
    }
}

/// The records of the text `s` of a file: the fields of every line below
/// the header that is not empty.
pub open spec fn csv_rows(s: Seq<char>) -> Seq<Seq<Seq<char>>> {
    records_of_lines(lines_below_header(s))
}

/// No line holds a line feed.
pub proof fn lemma_lines_hold_no_line_feed(s: Seq<char>)
    ensures
        forall|i: int| 0 <= i < lines_of(s).len() ==> !(#[trigger] lines_of(s)[i]).contains('\n'),
{
    let pieces = split_on(s, '\n');
    lemma_split_nonempty(s, '\n');
    lemma_split_pieces_hold_no_separator(s, '\n');
    assert forall|i: int| 0 <= i < lines_of(s).len() implies !(#[trigger] lines_of(s)[i]).contains(
        '\n',
    ) by {
        let line = lines_of(s)[i];
        if line.contains('\n') {
            let k = choose|k: int| 0 <= k < line.len() && line[k] == '\n';
            assert(pieces[i][k] == '\n');
        }
    }
}

/// Every record is what the commas of one line that is not empty
/// separate: it has at least one field, no field of it holds a comma, and
/// it is never one empty field alone.
pub proof fn lemma_records_are_split_lines(lines: Seq<Seq<char>>, i: int)
    requires
        0 <= i < records_of_lines(lines).len(),
    ensures
        records_of_lines(lines)[i].len() >= 1,
        forall|j: int|
            0 <= j < records_of_lines(lines)[i].len() ==> !(#[trigger] records_of_lines(
                lines,
            )[i][j]).contains(','),
        records_of_lines(lines)[i] != seq![Seq::<char>::empty()],
        joined(records_of_lines(lines)[i], seq![',']) == lines.filter(is_record_line())[i],
{
    let kept = lines.filter(is_record_line());
    let line = kept[i];
    lines.lemma_filter_pred(is_record_line(), i);
    lemma_split_nonempty(line, ',');
    lemma_split_pieces_hold_no_separator(line, ',');
    lemma_join_of_split(line, ',');
}

/// Removes the carriage return at the end of `line`, if there is one.
pub fn strip_carriage_return(line: String) -> (out: String)
    ensures
        out@ == without_carriage_return(line@),
{
    let n: usize = line.as_str().unicode_len();
    if n > 0 && line.as_str().get_char(n - 1) == '\r' {
        let kept = line.as_str().substring_char(0, n - 1);
        String::from_str(kept)
    } else {
        line
    }
}

/// Splits `s` into its lines.
pub fn split_lines(s: &str) -> (lines: Vec<String>)
    ensures
        lines.deep_view() == lines_of(s@),
{
    let mut lines: Vec<String> = Vec::new();
    let mut piece = String::new();
    let ghost strip = |l: Seq<char>| without_carriage_return(l);
    for c in it: s.chars()
        invariant
            it.seq() == s@,
            strip == |l: Seq<char>| without_carriage_return(l),
            lines.deep_view() == split_on(s@.take(it.index() as int), '\n').drop_last().map_values(
                strip,
            ),
            piece@ == split_on(s@.take(it.index() as int), '\n').last(),
    {
        let ghost before = lines.deep_view();
        proof {
            lemma_take_next(s@, it.index() as int);
            lemma_split_nonempty(s@.take(it.index() as int), '\n');
        }
        if c == '\n' {
            let line = strip_carriage_return(piece);
            let ghost done = line@;
            lines.push(line);
            piece = String::new();
            assert(lines.deep_view() =~= before.push(done));
        } else {
            piece.push(c);
        }
    }
    assert(s@.take(s@.len() as int) =~= s@);
    if !piece.as_str().is_empty() {
        lines.push(piece);
    }
    lines
}

/// The records of the text of a file. The first line is the header and is
/// left out whatever it holds; of the lines below it, each one that is not
/// empty gives one record, its fields being what the commas separate.
pub fn read_csv_lines(contents: &str) -> (records: Vec<Vec<String>>)
    ensures
        records.deep_view() == csv_rows(contents@),
{
    let lines = split_lines(contents);
    let mut records: Vec<Vec<String>> = Vec::new();
    let ghost all = lines.deep_view();
    if lines.len() == 0 {
        proof {
            reveal(Seq::filter);
        }
        return records;
    }
    let mut i: usize = 1;
    proof {
        reveal(Seq::filter);
    }
    while i < lines.len()
        invariant
            1 <= i <= lines.len(),
            all == lines.deep_view(),
            records.deep_view() == records_of_lines(all.skip(1).take(i - 1)),
        decreases lines.len() - i,
    {
        let ghost seen = all.skip(1).take(i - 1);
        let ghost before = records.deep_view();
        proof {
            assert(all.skip(1).take(i as int) =~= seen.push(all[i as int]));
            seen.lemma_filter_push(all[i as int], is_record_line());
        }
        if !lines[i].as_str().is_empty() {
            let fields = split_text(lines[i].as_str(), ',');
            let ghost done = fields.deep_view();
            records.push(fields);
            assert(records.deep_view() =~= before.push(done));
        }
        i += 1;
    }
    assert(all.skip(1).take(lines.len() - 1) =~= all.skip(1));
    records
}

} // verus!
