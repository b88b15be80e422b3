use vcard_gen::{
    convert_text, make_all_vcards, make_vcard, process_csv, status_message, PathError,
    VCardGenerator,
};

const JOHN: &str = "BEGIN:VCARD\nVERSION:2.1\nN:Smith;John\nFN:John Smith\n\
                    EMAIL;PREF;INTERNET:john.smith@example.com\nTEL;HOME;VOICE:\n\
                    TEL;HOME;VOICE:0612345678\nNOTE:Friend from work\nREV:1\nEND:VCARD\n";

#[test]
fn one_record_gives_one_card() {
    let input = "FIRSTNAME,LASTNAME,TEL,MOBILE,EMAIL,NOTE\n\
                 John,Smith,,0612345678,john.smith@example.com,Friend from work\n";
    let text = convert_text(input);
    assert_eq!(text, JOHN);
    assert_eq!(text.matches("BEGIN:VCARD").count(), 1);
    let lines: Vec<&str> = text.lines().collect();
    assert_eq!(lines[2], "N:Smith;John");
    assert_eq!(lines[3], "FN:John Smith");
    assert_eq!(lines[4], "EMAIL;PREF;INTERNET:john.smith@example.com");
    assert_eq!(lines[5], "TEL;HOME;VOICE:");
    assert_eq!(lines[6], "TEL;HOME;VOICE:0612345678");
    assert_eq!(lines[7], "NOTE:Friend from work");
}

#[test]
fn cards_are_joined_by_one_line_feed_in_file_order() {
    let input = "h\nb,B\na,A\n";
    let expected = format!(
        "{}\n{}",
        make_vcard("b", "B", "", "", "", ""),
        make_vcard("a", "A", "", "", "", "")
    );
    assert_eq!(convert_text(input), expected);
}

#[test]
fn header_alone_gives_empty_output() {
    assert_eq!(convert_text("FIRSTNAME,LASTNAME,TEL,MOBILE,EMAIL,NOTE"), "");
    assert_eq!(convert_text("FIRSTNAME,LASTNAME,TEL,MOBILE,EMAIL,NOTE\n"), "");
    assert_eq!(convert_text(""), "");
}

#[test]
fn header_content_never_reaches_the_output() {
    let body = "John,Smith,,0612345678,john.smith@example.com,Friend from work\n";
    let with_header = convert_text(&format!("FIRSTNAME,LASTNAME\n{}", body));
    let with_record_as_header = convert_text(&format!("Zed,Zero,1,2,z@z,none\n{}", body));
    let with_empty_header = convert_text(&format!("\n{}", body));
    assert_eq!(with_header, JOHN);
    assert_eq!(with_record_as_header, JOHN);
    assert_eq!(with_empty_header, JOHN);
}

#[test]
fn four_field_row_has_empty_email_and_note() {
    let text = convert_text("h\nBob,Brown,0112233445,0611223344\n");
    let lines: Vec<&str> = text.lines().collect();
    assert_eq!(lines[4], "EMAIL;PREF;INTERNET:");
    assert_eq!(lines[7], "NOTE:");
}

#[test]
fn make_all_vcards_keeps_the_order() {
    let rows = vec![
        vec!["a".to_string()],
        vec!["b".to_string(), "c".to_string()],
    ];
    assert_eq!(
        make_all_vcards(&rows),
        vec![make_vcard("a", "", "", "", "", ""), make_vcard("b", "c", "", "", "", "")]
    );
    assert_eq!(make_all_vcards(&Vec::new()), Vec::<String>::new());
}

#[test]
fn process_csv_gives_path_and_text() {
    let input = "FIRSTNAME,LASTNAME,TEL,MOBILE,EMAIL,NOTE\n\
                 John,Smith,,0612345678,john.smith@example.com,Friend from work\n";
    let done = process_csv("contacts/my_contacts.csv", input);
    assert!(done.is_ok());
    if let Ok(conversion) = done {
        assert_eq!(conversion.output_path, "contacts/my_contacts.vcf");
        assert_eq!(conversion.text, JOHN);
    }
}

#[test]
fn process_csv_is_repeatable() {
    let input = "h\na,b,c\nd,e,f\n";
    let first = process_csv("x.csv", input);
    let second = process_csv("x.csv", input);
    assert!(first.is_ok() && second.is_ok());
    if let (Ok(a), Ok(b)) = (first, second) {
        assert_eq!(a.output_path, b.output_path);
        assert_eq!(a.text, b.text);
    }
}

#[test]
fn process_csv_fails_without_a_file_name() {
    assert!(matches!(process_csv("", "h\na,b\n"), Err(PathError::InvalidInput)));
    assert!(matches!(process_csv("dir/", "h\na,b\n"), Err(PathError::InvalidInput)));
}

#[test]
fn session_takes_a_selection_once() {
    let mut session = VCardGenerator::new();
    assert_eq!(session.take_selected(), None);
    session.select("a.csv".to_string());
    session.select("b.csv".to_string());
    assert_eq!(session.take_selected(), Some("b.csv".to_string()));
    assert_eq!(session.selected_file, None);
    assert_eq!(session.take_selected(), None);
}

#[test]
fn session_starts_without_a_selection() {
    assert_eq!(VCardGenerator::new().selected_file, None);
    assert_eq!(VCardGenerator::default().selected_file, None);
}

#[test]
fn process_csv_of_header_alone_gives_empty_text() {
    let done = process_csv("only_header.csv", "FIRSTNAME,LASTNAME,TEL,MOBILE,EMAIL,NOTE\n");
    assert_eq!(
        done,
        Ok(vcard_gen::Conversion {
            output_path: "only_header.vcf".to_string(),
            text: String::new(),
        })
    );
}

#[test]
fn status_message_of_each_outcome() {
    assert_eq!(status_message(true), "Done !");
    assert_eq!(status_message(false), "Invalid input file");
}
