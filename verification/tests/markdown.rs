use stela::markdown::markdown_to_html;

#[test]
fn markdown_becomes_html() {
    assert_eq!(markdown_to_html("# Salut").trim(), "<h1>Salut</h1>");
    assert!(markdown_to_html("a **bold** word").contains("<strong>bold</strong>"));
}

#[test]
fn markdown_paragraphs_are_wrapped() {
    assert_eq!(markdown_to_html("plain"), "<p>plain</p>\n");
    assert_eq!(markdown_to_html(""), "");
}
