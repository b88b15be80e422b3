use vcard_gen::csv::{read_csv_lines, split_lines, strip_carriage_return};
use vcard_gen::text::{join_text, split_text};

fn rows(expected: &[&[&str]]) -> Vec<Vec<String>> {
    expected.iter().map(|r| r.iter().map(|f| f.to_string()).collect()).collect()
}

fn strings(expected: &[&str]) -> Vec<String> {
    expected.iter().map(|f| f.to_string()).collect()
}

#[test]
fn split_text_on_commas() {
    assert_eq!(split_text("a,b,c", ','), strings(&["a", "b", "c"]));
}

#[test]
fn split_text_keeps_empty_pieces() {
    assert_eq!(split_text(",a,,b,", ','), strings(&["", "a", "", "b", ""]));
}

#[test]
fn split_text_of_empty_text_is_one_empty_piece() {
    assert_eq!(split_text("", ','), strings(&[""]));
}

#[test]
fn split_text_without_separator_is_the_text() {
    assert_eq!(split_text("no commas here", ','), strings(&["no commas here"]));
}

#[test]
fn split_text_agrees_with_std_split() {
    for s in ["", ",", "a", "a,b", ",,", "é,ü,☕", "x,,y,", ",x"] {
        let expected: Vec<String> = s.split(',').map(|p| p.to_string()).collect();
        assert_eq!(split_text(s, ','), expected);
    }
}

#[test]
fn join_text_puts_the_separator_between() {
    assert_eq!(join_text(&strings(&["a", "b", "c"]), "\n"), "a\nb\nc");
    assert_eq!(join_text(&strings(&["a"]), "\n"), "a");
    assert_eq!(join_text(&strings(&[]), "\n"), "");
    assert_eq!(join_text(&strings(&["", ""]), ", "), ", ");
}

#[test]
fn join_undoes_split() {
    for s in ["", ",", "a", "a,b", ",,", "é,ü,☕", "x,,y,", ",x"] {
        assert_eq!(join_text(&split_text(s, ','), ","), s);
    }
}

#[test]
fn split_pieces_hold_no_separator() {
    for piece in split_text("a,b;c,,d", ',') {
        assert!(!piece.contains(','));
    }
}

#[test]
fn strip_carriage_return_removes_one_at_the_end() {
    assert_eq!(strip_carriage_return("abc\r".to_string()), "abc");
    assert_eq!(strip_carriage_return("abc\r\r".to_string()), "abc\r");
    assert_eq!(strip_carriage_return("a\rbc".to_string()), "a\rbc");
    assert_eq!(strip_carriage_return("abc".to_string()), "abc");
    assert_eq!(strip_carriage_return("\r".to_string()), "");
    assert_eq!(strip_carriage_return("".to_string()), "");
}

#[test]
fn split_lines_at_line_feeds() {
    assert_eq!(split_lines("a\nb\nc"), strings(&["a", "b", "c"]));
    assert_eq!(split_lines("a\nb\n"), strings(&["a", "b"]));
    assert_eq!(split_lines("a\n\nb"), strings(&["a", "", "b"]));
    assert_eq!(split_lines("\n"), strings(&[""]));
    assert_eq!(split_lines(""), strings(&[]));
}

#[test]
fn split_lines_takes_carriage_return_with_the_line_feed() {
    assert_eq!(split_lines("a\r\nb\r\n"), strings(&["a", "b"]));
    assert_eq!(split_lines("a\r\nb\r"), strings(&["a", "b\r"]));
    assert_eq!(split_lines("a\rb\n"), strings(&["a\rb"]));
}

#[test]
fn split_lines_agrees_with_std_lines() {
    for s in ["", "\n", "a", "a\n", "a\r\n", "a\nb", "\r\n\r\n", "x\r", "x\n\ny\r\n\r\nz", "é\nü"] {
        let expected: Vec<String> = s.lines().map(|l| l.to_string()).collect();
        assert_eq!(split_lines(s), expected);
    }
}

#[test]
fn read_csv_lines_skips_the_header() {
    let contents = "FIRSTNAME,LASTNAME,TEL,MOBILE,EMAIL,NOTE\n\
                    John,Smith,,0612345678,john.smith@example.com,Friend from work\n\
                    Jane,Doe,0987654321,,jane.doe@example.com,Colleague\n\
                    Bob,Brown,0112233445,0611223344\n";
    assert_eq!(
        read_csv_lines(contents),
        rows(&[
            &["John", "Smith", "", "0612345678", "john.smith@example.com", "Friend from work"],
            &["Jane", "Doe", "0987654321", "", "jane.doe@example.com", "Colleague"],
            &["Bob", "Brown", "0112233445", "0611223344"],
        ])
    );
}

#[test]
fn read_csv_lines_drops_the_first_line_whatever_it_holds() {
    assert_eq!(read_csv_lines("John,Smith\nJane,Doe\n"), rows(&[&["Jane", "Doe"]]));
    assert_eq!(read_csv_lines("\nJane,Doe\n"), rows(&[&["Jane", "Doe"]]));
    assert_eq!(read_csv_lines("no commas at all\nJane,Doe"), rows(&[&["Jane", "Doe"]]));
}

#[test]
fn read_csv_lines_of_header_alone_is_empty() {
    assert_eq!(read_csv_lines("FIRSTNAME,LASTNAME"), rows(&[]));
    assert_eq!(read_csv_lines("FIRSTNAME,LASTNAME\n"), rows(&[]));
    assert_eq!(read_csv_lines("FIRSTNAME,LASTNAME\r\n"), rows(&[]));
    assert_eq!(read_csv_lines(""), rows(&[]));
}

#[test]
fn read_csv_lines_skips_empty_lines() {
    assert_eq!(
        read_csv_lines("h\n\na,b\n\n\nc,d\n\n"),
        rows(&[&["a", "b"], &["c", "d"]])
    );
    assert_eq!(read_csv_lines("h\r\n\r\na,b\r\n"), rows(&[&["a", "b"]]));
}

#[test]
fn read_csv_lines_keeps_lines_of_commas_alone() {
    assert_eq!(read_csv_lines("h\n,\n"), rows(&[&["", ""]]));
    assert_eq!(read_csv_lines("h\n \n"), rows(&[&[" "]]));
}

#[test]
fn read_csv_lines_knows_no_quoting() {
    assert_eq!(
        read_csv_lines("h\n\"Smith, John\",x\n"),
        rows(&[&["\"Smith", " John\"", "x"]])
    );
}

#[test]
fn read_csv_lines_keeps_the_order_and_repeats() {
    assert_eq!(
        read_csv_lines("h\nb,1\na,2\nb,1\n"),
        rows(&[&["b", "1"], &["a", "2"], &["b", "1"]])
    );
}
