//! The conversion as a whole: from the text of a file of records to the
//! text of a file of cards, and from the one file's path to the other's.

use vstd::prelude::*;
use crate::csv::{csv_rows, lines_of, read_csv_lines, records_of_lines,
    without_carriage_return};
use crate::path::{build_output_path, file_name, names_a_file, output_path, PathError};
use crate::text::{join_text, joined, lemma_split_around_separator, lemma_split_nonempty,
    lemma_split_without_separator, split_on};
use crate::vcard::{card_of_row, extract_vcard_data};

verus! {

/// The card of each record, in the records' order.
pub open spec fn cards_of(rows: Seq<Seq<Seq<char>>>) -> Seq<Seq<char>> {
    rows.map_values(|row: Seq<Seq<char>>| card_of_row(row))
}

/// The text of the output file for the text `contents` of an input file:
/// the cards of its records in their order, with one line feed between
/// each two neighbours.
pub open spec fn vcf_text(contents: Seq<char>) -> Seq<char> {
    joined(cards_of(csv_rows(contents)), seq!['\n'])
}

/// What a conversion yields: where to write, and what.
#[derive(Clone, Debug, PartialEq, Eq)]
pub struct Conversion {
    /// The path of the output file.
    pub output_path: String,
    /// The text of the output file.
    pub text: String,
}

/// Renders each record as a card.
pub fn make_all_vcards(rows: &Vec<Vec<String>>) -> (cards: Vec<String>)
    ensures
        cards.deep_view() == cards_of(rows.deep_view()),
{
    let mut cards: Vec<String> = Vec::new();
    let ghost all = rows.deep_view();
    let mut i: usize = 0;
    while i < rows.len()
        invariant
            i <= rows.len(),
            all == rows.deep_view(),
            cards.deep_view() == cards_of(all.take(i as int)),
        decreases rows.len() - i,
    {
        let ghost before = cards.deep_view();
        let row: &[String] = rows[i].as_slice();
        let card = extract_vcard_data(row);
        let ghost done = card@;
        cards.push(card);
        assert(cards.deep_view() =~= before.push(done));
        i += 1;
    }
    cards
}

/// Converts the text of a file of records into the text of a file of
/// cards.
pub fn convert_text(contents: &str) -> (text: String)
    ensures
        text@ == vcf_text(contents@),
{
    let rows = read_csv_lines(contents);
    let cards = make_all_vcards(&rows);
    proof {
        reveal_strlit("\n");
        assert("\n"@ =~= seq!['\n']);
    }
    join_text(&cards, "\n")
}

/// Converts the file at `csv_filename`, whose text is `contents`: the
/// output goes beside the input, under the same stem with the extension
/// `vcf`, and holds the cards of the input's records.
///
/// Fails, with nothing converted, where `csv_filename` names no file.
pub fn process_csv(csv_filename: &str, contents: &str) -> (result: Result<Conversion, PathError>)
    ensures
        names_a_file(file_name(csv_filename@)) ==> result is Ok && result->Ok_0.output_path@
            == output_path(csv_filename@, "vcf"@) && result->Ok_0.text@ == vcf_text(contents@),
        !names_a_file(file_name(csv_filename@)) ==> result is Err && result->Err_0
            == PathError::InvalidInput,
{
    match build_output_path(csv_filename, "vcf") {
        Ok(output_path) => {
            let text = convert_text(contents);
            Ok(Conversion { output_path, text })
        },
        Err(e) => Err(e),
    }
}

/// Every record has its card, and the cards stand in the records' order:
/// none is left out, moved or merged with another.
pub proof fn lemma_cards_in_order(rows: Seq<Seq<Seq<char>>>)
    ensures
        cards_of(rows).len() == rows.len(),
        forall|i: int| 0 <= i < rows.len() ==> #[trigger] cards_of(rows)[i] == card_of_row(rows[i]),
{
}

/// The lines of a text that begins with a line `header` are that line and
/// then the lines of what follows its line feed.
pub proof fn lemma_lines_after_first(header: Seq<char>, body: Seq<char>)
    requires
        !header.contains('\n'),
    ensures
        lines_of(header + seq!['\n'] + body) == seq![without_carriage_return(header)] + lines_of(
            body,
        ),
{
    lemma_split_around_separator(header, body, '\n');
    lemma_split_without_separator(header, '\n');
    lemma_split_nonempty(body, '\n');
    let tail = split_on(body, '\n');
    assert((seq![header] + tail).drop_last() =~= seq![header] + tail.drop_last());
}

/// The header has no part in the output: whatever the first line holds,
/// the records are those of the lines below it, and so is the output text.
pub proof fn lemma_header_ignored(header: Seq<char>, body: Seq<char>)
    requires
        !header.contains('\n'),
    ensures
        csv_rows(header + seq!['\n'] + body) == records_of_lines(lines_of(body)),
        vcf_text(header + seq!['\n'] + body) == joined(
            cards_of(records_of_lines(lines_of(body))),
            seq!['\n'],
        ),
{
    lemma_lines_after_first(header, body);
    let lines = seq![without_carriage_return(header)] + lines_of(body);
    assert(lines.skip(1) =~= lines_of(body));
}

/// A file that holds a header and nothing else gives no record and an
/// empty output, with or without a line feed after the header.
pub proof fn lemma_header_only(header: Seq<char>)
    requires
        !header.contains('\n'),
    ensures
        csv_rows(header) == Seq::<Seq<Seq<char>>>::empty(),
        vcf_text(header) == Seq::<char>::empty(),
        csv_rows(header.push('\n')) == Seq::<Seq<Seq<char>>>::empty(),
        vcf_text(header.push('\n')) == Seq::<char>::empty(),
{
    reveal(Seq::filter);
    lemma_split_without_separator(header, '\n');
    lemma_header_ignored(header, Seq::<char>::empty());
    assert(header + seq!['\n'] + Seq::<char>::empty() =~= header.push('\n'));
}

} // verus!
