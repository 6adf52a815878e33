use imageboard::model::Post;
use imageboard::quote::{link_quotes, quote_link};
use imageboard::render::{base_header, push_line, render_message, render_pagination, render_post};

fn post(id: i64, thread_id: i64, message: &str) -> Post {
    Post {
        id,
        thread_id,
        bump_timestamp: 0,
        name: "Anonymous".to_string(),
        subject: None,
        message: message.to_string(),
        filename: None,
        thumbname: None,
        time: "2024-01-01 00:00".to_string(),
    }
}

#[test]
fn rendering_twice_gives_the_same_markup() {
    for m in ["hello", ">>42 nice", ">quote\nplain\n>>1 >>2", "a & b < c", ""] {
        assert_eq!(render_message(m), render_message(m));
    }
    let p = post(5, 3, ">>3 yes\n>no");
    let mut a = String::new();
    let mut b = String::new();
    render_post(&mut a, &p, false, None);
    render_post(&mut b, &p, false, None);
    assert_eq!(a, b);
}

#[test]
fn quote_reference_becomes_a_link_with_its_text_visible() {
    assert_eq!(
        render_message(">>42 nice"),
        "<span class=\"quote\"><a class=\"quotelink\" href=\"#42\">&gt;&gt;42</a> nice</span><br>"
    );
}

#[test]
fn quote_reference_inside_a_line_is_linked_without_quote_style() {
    assert_eq!(
        render_message("see >>7"),
        "see <a class=\"quotelink\" href=\"#7\">&gt;&gt;7</a><br>"
    );
}

#[test]
fn every_quote_reference_of_a_line_is_linked() {
    assert_eq!(
        render_message("x >>1 and >>23!"),
        "x <a class=\"quotelink\" href=\"#1\">&gt;&gt;1</a> and <a class=\"quotelink\" href=\"#23\">&gt;&gt;23</a>!<br>"
    );
}

#[test]
fn line_starting_with_greater_than_is_quoted() {
    assert_eq!(render_message(">hello"), "<span class=\"quote\">&gt;hello</span><br>");
}

#[test]
fn greater_than_inside_a_line_does_not_quote_it() {
    assert_eq!(render_message("a > b"), "a &gt; b<br>");
}

#[test]
fn two_greater_than_signs_without_digits_are_no_reference() {
    assert_eq!(
        render_message(">>greentext works"),
        "<span class=\"quote\">&gt;&gt;greentext works</span><br>"
    );
}

#[test]
fn typed_entities_are_not_taken_for_references() {
    assert_eq!(render_message("&gt;&gt;5"), "&amp;gt;&amp;gt;5<br>");
}

#[test]
fn digits_of_other_scripts_count_as_digits() {
    assert_eq!(
        link_quotes("&gt;&gt;\u{ff11}\u{ff12}"),
        "<a class=\"quotelink\" href=\"#\u{ff11}\u{ff12}\">&gt;&gt;\u{ff11}\u{ff12}</a>"
    );
}

#[test]
fn link_quotes_keeps_text_without_references() {
    assert_eq!(link_quotes("plain &gt; text"), "plain &gt; text");
    assert_eq!(link_quotes(""), "");
}

#[test]
fn link_for_digits() {
    assert_eq!(quote_link("123"), "<a class=\"quotelink\" href=\"#123\">&gt;&gt;123</a>");
}

#[test]
fn message_lines_each_end_with_a_break() {
    assert_eq!(
        render_message("one\n>two\r\nthree\n"),
        "one<br><span class=\"quote\">&gt;two</span><br>three<br>"
    );
    assert_eq!(render_message(""), "");
    assert_eq!(render_message("\n"), "<br>");
}

#[test]
fn message_markup_is_escaped_before_linking() {
    assert_eq!(
        render_message("<b>bold</b> \"q\" 'a' &"),
        "&lt;b&gt;bold&lt;/b&gt; &quot;q&quot; &#39;a&#39; &amp;<br>"
    );
}

#[test]
fn push_line_appends() {
    let mut out = String::from("[");
    push_line(&mut out, "x");
    assert_eq!(out, "[x<br>");
}

#[test]
fn reply_is_rendered_without_reply_link() {
    let mut html = String::new();
    render_post(&mut html, &post(12, 7, "hi"), false, None);
    assert_eq!(
        html,
        "<div id=\"12\" class=\"post reply\"><div class=\"intro\"><span class=\"name\">Anonymous</span></div><div class=\"body\">hi<br></div></div>"
    );
}

#[test]
fn reply_count_is_shown_on_the_first_post_only() {
    let mut html = String::new();
    render_post(&mut html, &post(12, 7, "hi"), false, Some(4));
    assert!(!html.contains("Reply"));
}

#[test]
fn first_post_is_rendered_with_subject_and_reply_count() {
    let mut p = post(7, 7, "first\n>second");
    p.subject = Some("Sub <ject>".to_string());
    p.name = "Al & Bo".to_string();
    let mut html = String::from("X");
    render_post(&mut html, &p, true, Some(5));
    assert_eq!(
        html,
        "X<div id=\"7\" class=\"post op\"><div class=\"intro\"><span class=\"subject\">Sub &lt;ject&gt;</span> <span class=\"name\">Al &amp; Bo</span> <a href=\"/thread/7\">Reply [5]</a></div><div class=\"body\">first<br><span class=\"quote\">&gt;second</span><br></div></div>"
    );
}

#[test]
fn first_post_without_count_has_a_plain_reply_link() {
    let mut html = String::new();
    render_post(&mut html, &post(3, 3, "m"), true, None);
    assert!(html.contains(" <a href=\"/thread/3\">Reply</a>"));
    let mut html = String::new();
    render_post(&mut html, &post(3, 3, "m"), true, Some(0));
    assert!(html.contains(" <a href=\"/thread/3\">Reply [0]</a>"));
}

#[test]
fn attachment_is_shown_when_file_and_thumbnail_are_there() {
    let mut p = post(1, 1, "m");
    p.filename = Some("abc.png".to_string());
    p.thumbname = Some("abc_thumb.jpg".to_string());
    let mut html = String::new();
    render_post(&mut html, &p, true, Some(0));
    assert_eq!(
        html,
        "<div id=\"1\" class=\"post op\"><div class=\"intro\"><span class=\"file\">\n    <a href=\"/uploads/abc.png\" target=\"_blank\">\n        <img src=\"/thumbs/abc_thumb.jpg\" class=\"post-image\">\n    </a>\n</span><span class=\"name\">Anonymous</span> <a href=\"/thread/1\">Reply [0]</a></div><div class=\"body\">m<br></div></div>"
    );
}

#[test]
fn attachment_without_thumbnail_is_not_shown() {
    let mut p = post(1, 1, "m");
    p.filename = Some("abc.png".to_string());
    let mut html = String::new();
    render_post(&mut html, &p, false, None);
    assert!(!html.contains("<span class=\"file\">"));
    p.thumbname = Some(String::new());
    let mut html = String::new();
    render_post(&mut html, &p, false, None);
    assert!(!html.contains("<span class=\"file\">"));
}

#[test]
fn empty_name_and_empty_subject() {
    let mut p = post(2, 1, "m");
    p.name = String::new();
    p.subject = Some(String::new());
    let mut html = String::new();
    render_post(&mut html, &p, false, None);
    assert_eq!(
        html,
        "<div id=\"2\" class=\"post reply\"><div class=\"intro\"><span class=\"name\">Anonymous</span></div><div class=\"body\">m<br></div></div>"
    );
}

#[test]
fn negative_numbers_are_written_with_a_sign() {
    let mut html = String::new();
    render_post(&mut html, &post(-4, -9, "m"), true, None);
    assert!(html.starts_with("<div id=\"-4\" class=\"post op\">"));
    assert!(html.contains("<a href=\"/thread/-9\">Reply</a>"));
}

const HEAD: &str = "<!DOCTYPE html>
<html>
<head>
    <meta charset=\"utf-8\">
    <title>/chess/ - Chess</title>
    <link rel=\"stylesheet\" href=\"/static/default.css\">
</head>
<body>
<header>
    <h1>/chess/ - Chess</h1>
    <div class=\"subtitle\">General chess discussion, puzzles, and diagrams</div>
</header>
<hr>";

#[test]
fn header_of_the_index() {
    let expected = format!(
        "{}<form method=\"post\" action=\"/\" enctype=\"multipart/form-data\">
<table class=\"post-table\">
<tbody>
    <tr><th>Name</th><td><input type=\"text\" name=\"name\" size=\"25\" maxlength=\"35\" autocomplete=\"off\" placeholder=\"Anonymous\"></td></tr>
<tr><th>Subject</th><td><input type=\"text\" name=\"subject\" size=\"25\" maxlength=\"100\" autocomplete=\"off\"></td></tr><tr><th>Comment</th><td><textarea name=\"message\" rows=\"5\" cols=\"35\"></textarea></td></tr><tr><th>File</th><td><input type=\"file\" name=\"file\" id=\"upload_file\"></td></tr><tr><th></th><td><input accesskey=\"s\" type=\"submit\" name=\"post\" value=\"Post\" /></td></tr>
</tbody>
</table>
</form>
<hr>",
        HEAD
    );
    assert_eq!(base_header("/", false), expected);
}

#[test]
fn header_of_a_thread() {
    let expected = format!(
        "{}<div class=\"banner\">Reply mode <a href=\"/\">Return to the main board</a></div><form method=\"post\" action=\"/thread/9\" enctype=\"multipart/form-data\">
<table class=\"post-table\">
<tbody>
    <tr><th>Name</th><td><input type=\"text\" name=\"name\" size=\"25\" maxlength=\"35\" autocomplete=\"off\" placeholder=\"Anonymous\"></td></tr>
<tr><th>Comment</th><td><textarea name=\"message\" rows=\"5\" cols=\"35\"></textarea></td></tr><tr><th></th><td><input accesskey=\"s\" type=\"submit\" name=\"post\" value=\"Post\" /></td></tr>
</tbody>
</table>
</form>
<hr>",
        HEAD
    );
    assert_eq!(base_header("/thread/9", true), expected);
}

#[test]
fn one_page_needs_no_navigation() {
    assert_eq!(render_pagination(1, 1), "");
    assert_eq!(render_pagination(1, 0), "");
    assert_eq!(render_pagination(5, 1), "");
}

#[test]
fn navigation_on_the_first_of_two_pages() {
    assert_eq!(
        render_pagination(1, 2),
        "<div class=\"pagination\"><span class=\"current\">1</span><a href=\"/?page=2\">2</a><a href=\"/?page=2\">Next \u{bb}</a></div>"
    );
}

#[test]
fn navigation_on_the_last_of_two_pages() {
    assert_eq!(
        render_pagination(2, 2),
        "<div class=\"pagination\"><a href=\"/?page=1\">\u{ab} Prev</a><a href=\"/?page=1\">1</a><span class=\"current\">2</span></div>"
    );
}

#[test]
fn navigation_in_the_middle_of_many_pages() {
    assert_eq!(
        render_pagination(5, 10),
        "<div class=\"pagination\"><a href=\"/?page=4\">\u{ab} Prev</a><a href=\"/?page=1\">1</a><span>...</span><a href=\"/?page=3\">3</a><a href=\"/?page=4\">4</a><span class=\"current\">5</span><a href=\"/?page=6\">6</a><a href=\"/?page=7\">7</a><span>...</span><a href=\"/?page=10\">10</a><a href=\"/?page=6\">Next \u{bb}</a></div>"
    );
}

#[test]
fn navigation_links_first_and_last_page_without_ellipsis_when_adjacent() {
    assert_eq!(
        render_pagination(4, 7),
        "<div class=\"pagination\"><a href=\"/?page=3\">\u{ab} Prev</a><a href=\"/?page=1\">1</a><a href=\"/?page=2\">2</a><a href=\"/?page=3\">3</a><span class=\"current\">4</span><a href=\"/?page=5\">5</a><a href=\"/?page=6\">6</a><a href=\"/?page=7\">7</a><a href=\"/?page=5\">Next \u{bb}</a></div>"
    );
}

#[test]
fn navigation_window_near_the_start() {
    assert_eq!(
        render_pagination(3, 9),
        "<div class=\"pagination\"><a href=\"/?page=2\">\u{ab} Prev</a><a href=\"/?page=1\">1</a><a href=\"/?page=2\">2</a><span class=\"current\">3</span><a href=\"/?page=4\">4</a><a href=\"/?page=5\">5</a><span>...</span><a href=\"/?page=9\">9</a><a href=\"/?page=4\">Next \u{bb}</a></div>"
    );
}

#[test]
fn navigation_at_the_largest_page_numbers() {
    let last = u64::MAX;
    let nav = render_pagination(last, last);
    assert!(nav.ends_with(&format!(
        "<a href=\"/?page={}\">{}</a><span class=\"current\">{}</span></div>",
        last - 1,
        last - 1,
        last
    )));
    assert!(!nav.contains("Next"));
}

#[test]
fn navigation_beyond_the_last_page() {
    assert_eq!(
        render_pagination(9, 3),
        "<div class=\"pagination\"><a href=\"/?page=8\">\u{ab} Prev</a><a href=\"/?page=1\">1</a><span>...</span></div>"
    );
}
