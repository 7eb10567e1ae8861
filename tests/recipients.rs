use remindf1::recipients::{
    add_recipients, csv_fields_of, filter_valid_emails, is_valid_email, keep_flagged, merge_emails,
    read_emails_from_file, recipient_format, RecipientFormat, RecipientsError,
};

fn strings(v: &[&str]) -> Vec<String> {
    v.iter().map(|s| s.to_string()).collect()
}

#[test]
fn saving_recipients_deduplicates_and_drops_invalid() {
    let r = add_recipients(vec![], &strings(&["a@b.com", "not-an-email", "a@b.com"]));
    assert_eq!(r, Ok(strings(&["a@b.com"])));
}

#[test]
fn saving_recipients_keeps_existing_order() {
    let r = add_recipients(strings(&["x@y.org"]), &strings(&["a@b.com", "x@y.org"]));
    assert_eq!(r, Ok(strings(&["x@y.org", "a@b.com"])));
}

#[test]
fn saving_no_valid_recipient_fails() {
    let r = add_recipients(strings(&["x@y.org"]), &strings(&["nope", ""]));
    assert_eq!(r, Err(RecipientsError::NoValidEmails));
    assert_eq!(add_recipients(vec![], &vec![]), Err(RecipientsError::NoValidEmails));
}

#[test]
fn email_syntax() {
    assert!(is_valid_email("first.last@mail.example.com"));
    assert!(is_valid_email("a-b_c@d.io"));
    assert!(!is_valid_email("not-an-email"));
    assert!(!is_valid_email("a@b"));
    assert!(!is_valid_email(""));
}

#[test]
fn merge_and_keep_on_given_values() {
    assert_eq!(
        merge_emails(strings(&["a"]), &strings(&["b", "a", "b", "c"])),
        strings(&["a", "b", "c"])
    );
    assert_eq!(
        keep_flagged(&strings(&["a", "b", "c"]), &vec![true, false, true]),
        strings(&["a", "c"])
    );
    assert_eq!(
        filter_valid_emails(&strings(&["a@b.com", "bad", "c@d.net"])),
        strings(&["a@b.com", "c@d.net"])
    );
}

#[test]
fn format_by_extension() {
    assert_eq!(recipient_format("csv"), Ok(RecipientFormat::Csv));
    assert_eq!(recipient_format("txt"), Ok(RecipientFormat::Txt));
    assert_eq!(recipient_format("json"), Ok(RecipientFormat::Json));
    assert_eq!(recipient_format("xml"), Err(RecipientsError::UnsupportedFileType));
    assert_eq!(recipient_format(""), Err(RecipientsError::UnsupportedFileType));
}

#[test]
fn emails_from_text_lines() {
    let text = "a@b.com\r\n\nbad line\nc@d.org\n";
    assert_eq!(
        read_emails_from_file(RecipientFormat::Txt, text),
        Ok(strings(&["a@b.com", "c@d.org"]))
    );
    assert_eq!(
        read_emails_from_file(RecipientFormat::Csv, "x@y.com"),
        Ok(strings(&["x@y.com"]))
    );
}

#[test]
fn emails_from_json_array() {
    assert_eq!(
        read_emails_from_file(RecipientFormat::Json, r#"["a@b.com", "", "bad", "e@f.co"]"#),
        Ok(strings(&["a@b.com", "e@f.co"]))
    );
    assert_eq!(
        read_emails_from_file(RecipientFormat::Json, r#"{"a": 1}"#),
        Err(RecipientsError::MalformedJson)
    );
    assert_eq!(
        read_emails_from_file(RecipientFormat::Json, r#"["a@b.com", 3]"#),
        Err(RecipientsError::MalformedJson)
    );
}

#[test]
fn emails_from_csv_fields() {
    let text = "a@b.com,c@d.org\nbad,e@f.net,,\r\ng@h.io\n";
    assert_eq!(
        read_emails_from_file(RecipientFormat::Csv, text),
        Ok(strings(&["a@b.com", "c@d.org", "e@f.net", "g@h.io"]))
    );
    assert_eq!(
        read_emails_from_file(RecipientFormat::Csv, "a@b.com, c@d.org"),
        Ok(strings(&["a@b.com"]))
    );
    assert_eq!(
        read_emails_from_file(RecipientFormat::Txt, "a@b.com,c@d.org"),
        Ok(strings(&[]))
    );
}

#[test]
fn repeating_an_add_keeps_the_list() {
    let input = strings(&["a@b.com", "bad", "c@d.org", "a@b.com"]);
    let first = add_recipients(strings(&["z@y.com"]), &input).unwrap();
    assert_eq!(first, strings(&["z@y.com", "a@b.com", "c@d.org"]));
    let second = add_recipients(first.clone(), &input).unwrap();
    assert_eq!(second, first);
}

#[test]
fn csv_fields_on_given_lines() {
    assert_eq!(
        csv_fields_of(&strings(&["a,b", "", " c ,"])),
        strings(&["a", "b", "", " c ", ""])
    );
}
