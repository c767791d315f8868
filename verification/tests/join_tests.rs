use pdf2txt_precedent::join::{join_page_texts, join_pdf2txt_text};

fn join_by_std(text: &str) -> String {
    let mut joined = String::new();
    let mut pending_break = false;
    for line in text.lines() {
        let content = line.trim();
        if content.is_empty() {
            pending_break = true;
        } else {
            if pending_break {
                joined.push('\n');
            }
            joined.push_str(content);
            pending_break = false;
        }
    }
    joined
}

#[test]
fn lines_are_fused_without_separator() {
    assert_eq!(join_pdf2txt_text("Hello\nWorld"), "HelloWorld");
}

#[test]
fn blank_line_becomes_one_line_feed() {
    assert_eq!(join_pdf2txt_text("Hello\n\nWorld"), "Hello\nWorld");
}

#[test]
fn paragraphs_are_reassembled() {
    let lines = ["Hello", "World", "", "Foo", "Bar"];
    assert_eq!(join_pdf2txt_text(&lines.join("\n")), "HelloWorld\nFooBar");
}

#[test]
fn several_blank_lines_make_one_break() {
    assert_eq!(join_pdf2txt_text("a\n\n \n\t\nb"), "a\nb");
}

#[test]
fn lines_are_trimmed_before_they_are_fused() {
    assert_eq!(join_pdf2txt_text("  a b  \n\tc \r\n"), "a bc");
}

#[test]
fn leading_blank_line_leaves_a_leading_break() {
    assert_eq!(join_pdf2txt_text("\nHello"), "\nHello");
}

#[test]
fn trailing_blank_lines_leave_nothing() {
    assert_eq!(join_pdf2txt_text("Hello\n\n\n"), "Hello");
}

#[test]
fn empty_and_blank_texts_normalize_to_nothing() {
    assert_eq!(join_pdf2txt_text(""), "");
    assert_eq!(join_pdf2txt_text(" \n\u{3000}\n"), "");
}

#[test]
fn join_agrees_with_the_line_by_line_description() {
    let samples = [
        "",
        "a",
        "a\nb\n\nc",
        "\n\na\n \nb\r\n\r\nc\r",
        "判決\n\n主 文\n 本件控訴を棄却する。 \n",
        " x \n\n\n y \n z",
    ];
    for sample in samples {
        assert_eq!(join_pdf2txt_text(sample), join_by_std(sample), "{:?}", sample);
    }
}

#[test]
fn page_texts_are_joined_in_order() {
    let pages = vec!["Hello".to_string(), "World".to_string()];
    assert_eq!(join_page_texts(&pages), "HelloWorld");
}

#[test]
fn page_text_with_blank_line_keeps_its_break() {
    let pages = vec!["Hello\n\nWorld".to_string()];
    assert_eq!(join_page_texts(&pages), "Hello\nWorld");
}

#[test]
fn page_texts_are_trimmed_before_they_are_joined() {
    let pages = vec!["\n\n one \n".to_string(), " \n".to_string(), "\ntwo\n\nthree\n".to_string()];
    assert_eq!(join_page_texts(&pages), "onetwo\nthree");
}

#[test]
fn no_pages_give_no_text() {
    assert_eq!(join_page_texts(&Vec::new()), "");
}

#[test]
fn single_paragraph_is_unchanged_by_a_second_pass() {
    let once = join_pdf2txt_text("Hello\n World \n");
    assert_eq!(once, "HelloWorld");
    assert_eq!(join_pdf2txt_text(&once), once);
    let once = join_pdf2txt_text("\n\nHello");
    assert_eq!(once, "\nHello");
    assert_eq!(join_pdf2txt_text(&once), once);
}

#[test]
fn second_pass_fuses_two_paragraphs() {
    let once = join_pdf2txt_text("Hello\n\nWorld");
    assert_eq!(once, "Hello\nWorld");
    assert_eq!(join_pdf2txt_text(&once), "HelloWorld");
}
