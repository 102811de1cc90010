use stammw_blog::markdown::MarkdownText;

#[test]
fn serializes_to_html() {
    let md_text = MarkdownText("# Hello\n\
                   I am some Markdown content `inline`\n\
                   ```\n\
                   code\n\
                   ```\n".to_string());

    let serialized = serde_json::to_string(&md_text.to_html()).unwrap();
    assert_eq!(serialized.to_string(), "\"<h1>Hello</h1>\\n\
                            <p>I am some Markdown content <code>inline</code></p>\\n\
                            <pre><code>code\\n\
                            </code></pre>\\n\"");
}

#[test]
fn plain_text_becomes_a_paragraph() {
    assert_eq!(MarkdownText("hello".to_string()).to_html(), "<p>hello</p>\n");
    assert_eq!(MarkdownText(String::new()).to_html(), "");
}
