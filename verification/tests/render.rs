use qq_lite::message::{Message, RichNode};
use qq_lite::render::{escape_html, plain_text_preview, HtmlRenderer, PlainTextRenderer, RichTextRenderer};
use qq_lite::{ConversationId, UserId};

fn text(t: &str) -> RichNode {
    RichNode::Text { text: t.to_owned() }
}

#[test]
fn escapes_html_text() {
    let nodes = [RichNode::Text { text: "<hello>".to_owned() }];
    assert_eq!(HtmlRenderer::render(&nodes), "&lt;hello&gt;");
}

#[test]
fn escapes_all_five_special_characters() {
    assert_eq!(escape_html("a&b<c>d\"e'f"), "a&amp;b&lt;c&gt;d&quot;e&#39;f");
    assert_eq!(escape_html("&amp;"), "&amp;amp;");
    assert_eq!(escape_html(""), "");
    assert_eq!(escape_html("你好 plain"), "你好 plain");
}

#[test]
fn html_marks_unsupported_nodes() {
    let nodes = [
        text("hi "),
        RichNode::Unsupported { kind: "im\"g".to_owned(), summary: "[<img>]".to_owned() },
    ];
    assert_eq!(
        HtmlRenderer::render(&nodes),
        "hi <span class=\"message-unsupported\" data-kind=\"im&quot;g\">[&lt;img&gt;]</span>"
    );
}

#[test]
fn plain_text_joins_texts_and_summaries() {
    let nodes = vec![
        text("look: "),
        RichNode::Unsupported { kind: "image".to_owned(), summary: "[image]".to_owned() },
        text(" <b>"),
    ];
    assert_eq!(PlainTextRenderer::render(&nodes), "look: [image] <b>");
    assert_eq!(plain_text_preview(&nodes), "look: [image] <b>");
    assert_eq!(plain_text_preview(&[]), "");
}

#[test]
fn plain_text_preview_is_the_message_preview() {
    let mut message = Message::outgoing_text(
        ConversationId::new("group:1".to_owned()),
        UserId::new("7".to_owned()),
        "hello ".to_owned(),
        5,
        1,
    );
    message.nodes.push(RichNode::Unsupported { kind: "face".to_owned(), summary: "[face]".to_owned() });
    assert_eq!(message.preview(), "hello [face]");
    assert_eq!(plain_text_preview(&message.nodes), message.preview());
}

fn unescape(s: &str) -> String {
    s.replace("&lt;", "<").replace("&gt;", ">").replace("&quot;", "\"").replace("&#39;", "'").replace("&amp;", "&")
}

#[test]
fn unescaping_gives_back_the_text() {
    for s in ["", "plain", "a&b<c>d\"e'f", "&amp;", "&lt;&gt;", "<<&&>>", "&#39;'", "x&quot;y"] {
        let escaped = escape_html(s);
        assert!(!escaped.contains(['<', '>', '"', '\'']));
        for (i, _) in escaped.match_indices('&') {
            let rest = &escaped[i..];
            assert!(["&amp;", "&lt;", "&gt;", "&quot;", "&#39;"].iter().any(|e| rest.starts_with(e)));
        }
        assert_eq!(unescape(&escaped), s);
    }
}
