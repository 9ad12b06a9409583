use meetily::summary::context::prompt_builder::{render_attachments_block, xml_escape};
use meetily::summary::context::types::AttachmentContent;

#[test]
fn empty_attachments_returns_empty_string() {
    assert_eq!(render_attachments_block(&[]), "");
}

#[test]
fn renders_single_file() {
    let block = render_attachments_block(&[AttachmentContent {
        display_name: "brief.md".to_string(),
        content: "hello".to_string(),
        truncated: false,
    }]);
    assert!(block.contains("<file name=\"brief.md\">\nhello\n</file>"));
    assert!(block.starts_with("\n\n<attachments>\n"));
    assert!(block.ends_with("</attachments>"));
    assert_eq!(block, "\n\n<attachments>\n<file name=\"brief.md\">\nhello\n</file>\n</attachments>");
}

#[test]
fn renders_truncated_attribute_when_flag_set() {
    let block = render_attachments_block(&[AttachmentContent {
        display_name: "big.txt".to_string(),
        content: "...".to_string(),
        truncated: true,
    }]);
    assert!(block.contains("<file name=\"big.txt\" truncated=\"true\">"));
}

#[test]
fn escapes_xml_specials_in_display_name() {
    let block = render_attachments_block(&[AttachmentContent {
        display_name: "a<b>&c\"d.txt".to_string(),
        content: "x".to_string(),
        truncated: false,
    }]);
    assert!(block.contains("name=\"a&lt;b&gt;&amp;c&quot;d.txt\""));
}

#[test]
fn renders_multiple_files_in_order() {
    let block = render_attachments_block(&[
        AttachmentContent {
            display_name: "first.md".to_string(),
            content: "1".to_string(),
            truncated: false,
        },
        AttachmentContent {
            display_name: "second.md".to_string(),
            content: "2".to_string(),
            truncated: false,
        },
    ]);
    let first_at = block.find("first.md").unwrap();
    let second_at = block.find("second.md").unwrap();
    assert!(first_at < second_at);
}

#[test]
fn escaping_covers_the_five_specials() {
    assert_eq!(xml_escape("<a href='x'>\"&\"</a>"), "&lt;a href=&apos;x&apos;&gt;&quot;&amp;&quot;&lt;/a&gt;");
    assert_eq!(xml_escape("reunião é &amp;"), "reunião é &amp;amp;");
}
