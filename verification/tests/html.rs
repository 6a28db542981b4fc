use moodle_tui::html::{decode_html_entities, strip_html};

#[test]
fn decodes_named_and_numeric() {
    assert_eq!(decode_html_entities("Tom &amp; Jerry"), "Tom & Jerry");
    assert_eq!(decode_html_entities("&#65;"), "A");
    assert_eq!(decode_html_entities("&#x4e2d;"), "中");
    assert_eq!(decode_html_entities("plain"), "plain");
    assert_eq!(decode_html_entities("&unknown;"), "&unknown;");
}

#[test]
fn strips_tags_and_collapses_whitespace() {
    assert_eq!(strip_html("<p>Hello <b>world</b></p>"), "Hello world");
    assert_eq!(strip_html("a<br/>b\n\nc"), "a b c");
    assert_eq!(strip_html("Tom &amp; <i>Jerry</i>"), "Tom & Jerry");
}

#[test]
fn decode_keeps_unterminated_and_zero_entities() {
    assert_eq!(decode_html_entities("a & b"), "a & b");
    assert_eq!(decode_html_entities("&#0;"), "&#0;");
    assert_eq!(decode_html_entities("&#xD800;"), "&#xD800;");
    assert_eq!(decode_html_entities("&AMP;&Lt;&nbsp;&quot;&apos;"), "&< \"'");
    assert_eq!(decode_html_entities("&#+66;"), "B");
    assert_eq!(decode_html_entities("&#99999999999;"), "&#99999999999;");
}

#[test]
fn strip_html_never_leaves_a_tag_opener() {
    let text = strip_html("x < y and &lt;b&gt;bold&lt;/b&gt; tail");
    assert!(!text.contains('<'));
    assert_eq!(text, "x bold tail");
    assert_eq!(strip_html("   "), "");
}
