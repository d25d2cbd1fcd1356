use codeg::workspace::headers::{attachment_header, content_length_header, header_safe_filename};

fn text(bytes: Option<Vec<u8>>) -> String {
    String::from_utf8(bytes.unwrap()).unwrap()
}

#[test]
fn quoted_names_are_plain_ascii() {
    assert_eq!(header_safe_filename("report.txt"), "report.txt");
    assert_eq!(header_safe_filename("a\"b\\c\nd"), "a_b_c_d");
    assert_eq!(header_safe_filename("naïve\u{7f}"), "na_ve_");
    assert_eq!(header_safe_filename(""), "");
}

#[test]
fn attachments_carry_the_name_twice() {
    assert_eq!(
        text(attachment_header("a b.txt")),
        "attachment; filename=\"a b.txt\"; filename*=UTF-8''a%20b.txt"
    );
    assert_eq!(
        text(attachment_header("ü\n\"~-_.zip")),
        "attachment; filename=\"___~-_.zip\"; filename*=UTF-8''%C3%BC%0A%22~-_.zip"
    );
    assert_eq!(text(attachment_header("")), "attachment; filename=\"\"; filename*=UTF-8''");
}

#[test]
fn every_name_has_an_attachment_header() {
    for c in ('\0'..='\u{2ff}').chain(['\u{fffd}', '\u{1f600}', char::MAX]) {
        let name = format!("x{c}y");
        let value = text(attachment_header(&name));
        assert_eq!(
            value,
            format!(
                "attachment; filename=\"{}\"; filename*=UTF-8''{}",
                header_safe_filename(&name),
                urlencoding::encode(&name)
            )
        );
        assert!(value.chars().all(|c| (' '..='~').contains(&c)));
    }
}

#[test]
fn lengths_are_written_in_decimal() {
    assert_eq!(text(content_length_header(0)), "0");
    assert_eq!(text(content_length_header(1234567)), "1234567");
    assert_eq!(text(content_length_header(u64::MAX)), "18446744073709551615");
}
