use dessert_markdown_core::header::handle_id;
use dessert_markdown_core::mention::add_link_to_mentions;
use dessert_markdown_core::options::{parse_bool, parse_int, OptionValue, Settings};
use dessert_markdown_core::pipeline::make_html;

fn no_ids() -> Settings {
    let mut s = Settings::unset();
    s.no_header_id = OptionValue::Bool(true);
    s
}

#[test]
fn heading_without_id() {
    assert_eq!(make_html("# foo\n", &no_ids()), "<h1>foo</h1>\n");
}

#[test]
fn heading_level_offset() {
    let mut s = no_ids();
    s.header_level_start = OptionValue::Int(2);
    assert_eq!(make_html("### foo\n", &s), "<h4>foo</h4>\n");
}

#[test]
fn heading_level_offset_from_string() {
    let mut s = no_ids();
    s.header_level_start = OptionValue::Str("10".to_string());
    assert_eq!(make_html("# foo\n", &s), "<h10>foo</h10>\n");
}

#[test]
fn heading_level_offset_of_one_is_identity() {
    let mut s = no_ids();
    s.header_level_start = OptionValue::Int(1);
    assert_eq!(make_html("## foo\n", &s), "<h2>foo</h2>\n");
}

#[test]
fn atx_headings() {
    let s = no_ids();
    assert_eq!(
        make_html("# foo\n## foo\n### foo\n#### foo\n##### foo\n###### foo\n", &s),
        "<h1>foo</h1>\n<h2>foo</h2>\n<h3>foo</h3>\n<h4>foo</h4>\n<h5>foo</h5>\n<h6>foo</h6>\n"
    );
    assert_eq!(
        make_html(" ### foo\n  ## foo\n   # foo\n", &s),
        "<h3>foo</h3>\n<h2>foo</h2>\n<h1>foo</h1>\n"
    );
}

#[test]
fn mention_becomes_link() {
    let mut s = no_ids();
    s.gh_mentions = OptionValue::Bool(true);
    let out = make_html("@alice hi\n", &s);
    assert!(out.contains("<a href=\"https://github.com/alice\">@alice</a>"), "{}", out);
}

#[test]
fn mention_in_new_window_with_own_template() {
    let mut s = Settings::unset();
    s.open_links_in_new_window = OptionValue::Bool(true);
    s.gh_mentions_link = OptionValue::Str("https://x.org/{u}/p".to_string());
    assert_eq!(
        add_link_to_mentions("hi @bob!", &s),
        "hi <a href=\"https://x.org/bob/p\" rel=\"noopener noreferrer\" target=\"_blank\">@bob</a>!"
    );
}

#[test]
fn mention_needs_a_letter() {
    let s = Settings::defaults();
    assert_eq!(add_link_to_mentions("mail @1a and @", &s), "mail @1a and @");
}

#[test]
fn literal_asterisks() {
    let mut s = Settings::unset();
    s.literal_mid_word_asterisks = OptionValue::Bool(true);
    let out = make_html("**bold**\n", &s);
    assert!(out.contains("**bold**"), "{}", out);
    assert!(!out.contains("<strong>"), "{}", out);
}

#[test]
fn strong_by_default() {
    assert_eq!(make_html("**bold**\n", &Settings::defaults()), "<p><strong>bold</strong></p>\n");
}

#[test]
fn simple_line_breaks() {
    let mut s = Settings::unset();
    s.simple_line_breaks = OptionValue::Bool(true);
    assert_eq!(make_html("foo\nbar\n", &s), "<p>foo<br />\nbar</p>\n");
}

#[test]
fn soft_break_by_default() {
    assert_eq!(make_html("foo\nbar\n", &Settings::defaults()), "<p>foo\nbar</p>\n");
}

#[test]
fn default_rendering_is_plain() {
    assert_eq!(
        make_html("a *b* `c`\n\n- x\n- y\n", &Settings::defaults()),
        "<p>a <em>b</em> <code>c</code></p>\n<ul>\n<li>x</li>\n<li>y</li>\n</ul>\n"
    );
}

#[test]
fn default_header_id() {
    assert_eq!(
        make_html("# Hello, World\n", &Settings::defaults()),
        "<h1 id=\"helloworld\">Hello, World</h1>\n"
    );
}

#[test]
fn header_id_is_stable() {
    let a = make_html("# Same Title\n", &Settings::defaults());
    let b = make_html("# Same Title\n", &Settings::defaults());
    assert_eq!(a, b);
}

#[test]
fn gh_compatible_header_id() {
    let mut s = Settings::unset();
    s.gh_compatible_header_id = OptionValue::Bool(true);
    s.raw_header_id = OptionValue::Bool(true);
    assert_eq!(
        make_html("# Hello, World!\n", &s),
        "<h1 id=\"hello-world\">Hello, World!</h1>\n"
    );
}

#[test]
fn raw_header_id() {
    let mut s = Settings::unset();
    s.raw_header_id = OptionValue::Bool(true);
    let mut t = "It's A \"Test\"".to_string();
    assert_eq!(handle_id(&mut t, &s), " id=\"it-s-a--test-\"");
    assert_eq!(t, "It's A \"Test\"");
}

#[test]
fn prefixed_header_ids() {
    let mut s = Settings::unset();
    s.prefix_header_id = OptionValue::Bool(true);
    let mut t = "My Title".to_string();
    assert_eq!(handle_id(&mut t, &s), " id=\"sectionmytitle\"");
    s.raw_prefix_header_id = OptionValue::Bool(true);
    assert_eq!(handle_id(&mut t, &s), " id=\"section-mytitle\"");
    s.prefix_header_id = OptionValue::Str("Pre_".to_string());
    assert_eq!(handle_id(&mut t, &s), " id=\"Pre_mytitle\"");
    s.prefix_header_id = OptionValue::Int(3);
    assert_eq!(handle_id(&mut t, &s), " id=\"mytitle\"");
}

#[test]
fn customized_header_id() {
    let mut s = Settings::unset();
    s.customized_header_id = OptionValue::Bool(true);
    let mut t = "Title {my-id}".to_string();
    assert_eq!(handle_id(&mut t, &s), " id=\"myid\"");
    assert_eq!(t, "Title");
    assert_eq!(make_html("# Title {Custom}\n", &s), "<h1 id=\"custom\">Title</h1>\n");
}

#[test]
fn customized_header_id_without_annotation() {
    let mut s = Settings::unset();
    s.customized_header_id = OptionValue::Bool(true);
    let mut t = "Title {} x".to_string();
    assert_eq!(handle_id(&mut t, &s), " id=\"titlex\"");
    assert_eq!(t, "Title {} x");
}

#[test]
fn no_header_id_still_strips_annotation() {
    let mut s = no_ids();
    s.customized_header_id = OptionValue::Bool(true);
    s.gh_compatible_header_id = OptionValue::Bool(true);
    s.prefix_header_id = OptionValue::Bool(true);
    let mut t = "Title {x}".to_string();
    assert_eq!(handle_id(&mut t, &s), "");
    assert_eq!(t, "Title");
    for level in 1..=6 {
        let src = format!("{} Some Text\n", "#".repeat(level));
        let out = make_html(&src, &s);
        assert!(!out.contains("id="), "{}", out);
    }
}

#[test]
fn hash_run_in_text_is_a_heading() {
    assert_eq!(
        make_html("##tag\n", &Settings::unset()),
        "<p><h2 id=\"tag\">tag</h2></p>\n"
    );
    let mut s = Settings::unset();
    s.require_space_before_heading_text = OptionValue::Bool(true);
    assert_eq!(make_html("##tag\n", &s), "<p>##tag</p>\n");
}

#[test]
fn links_in_new_window() {
    let mut s = Settings::unset();
    s.open_links_in_new_window = OptionValue::Bool(true);
    assert_eq!(
        make_html("[a](http://x)\n", &s),
        "<p><a href=\"http://x\" rel=\"noopener noreferrer\" target=\"_blank\">a</a></a></p>\n"
    );
    assert_eq!(
        make_html("[a](http://x)\n", &Settings::unset()),
        "<p><a href=\"http://x\">a</a></p>\n"
    );
}

#[test]
fn emoji_shortcodes() {
    let mut s = Settings::unset();
    s.emoji = OptionValue::Bool(true);
    assert_eq!(make_html("hi :smile:\n", &s), "<p>hi \u{1F604}</p>\n");
    assert_eq!(make_html("hi :smile:\n", &Settings::unset()), "<p>hi :smile:</p>\n");
}

#[test]
fn strikethrough_extension() {
    let mut s = Settings::unset();
    assert_eq!(make_html("~~x~~\n", &s), "<p>~~x~~</p>\n");
    s.strikethrough = OptionValue::Bool(true);
    assert_eq!(make_html("~~x~~\n", &s), "<p><del>x</del></p>\n");
}

#[test]
fn flags_are_coerced() {
    assert!(!parse_bool(&OptionValue::Null));
    assert!(parse_bool(&OptionValue::Bool(true)));
    assert!(!parse_bool(&OptionValue::Bool(false)));
    assert!(parse_bool(&OptionValue::Int(-2)));
    assert!(!parse_bool(&OptionValue::Int(0)));
    assert!(parse_bool(&OptionValue::Str("no".to_string())));
    assert!(!parse_bool(&OptionValue::Str(String::new())));
    assert!(!parse_bool(&OptionValue::Other));
}

#[test]
fn integers_are_coerced() {
    assert_eq!(parse_int(&OptionValue::Int(0)), Some(0));
    assert_eq!(parse_int(&OptionValue::Str("12".to_string())), Some(12));
    assert_eq!(parse_int(&OptionValue::Str("+5".to_string())), Some(5));
    assert_eq!(parse_int(&OptionValue::Str("-7".to_string())), Some(-7));
    assert_eq!(parse_int(&OptionValue::Str("1x".to_string())), None);
    assert_eq!(parse_int(&OptionValue::Str("99999999999999999999".to_string())), None);
    assert_eq!(parse_int(&OptionValue::Bool(true)), None);
    assert_eq!(parse_int(&OptionValue::Null), None);
}

#[test]
fn unparsable_level_start_is_ignored() {
    let mut s = no_ids();
    s.header_level_start = OptionValue::Str("two".to_string());
    assert_eq!(make_html("## foo\n", &s), "<h2>foo</h2>\n");
    s.header_level_start = OptionValue::Int(-3);
    assert_eq!(make_html("# foo\n", &s), "<h-3>foo</h-3>\n");
}

#[test]
fn mentions_are_found_in_the_text_as_given() {
    let s = Settings::defaults();
    assert_eq!(
        add_link_to_mentions("@al @alice", &s),
        "<a href=\"https://github.com/al\">@al</a> <a href=\"https://github.com/al\">@al</a>ice"
    );
    assert_eq!(
        add_link_to_mentions("@bob @bob", &s),
        "<a href=\"https://github.com/bob\"><a href=\"https://github.com/bob\">@bob</a></a> \
         <a href=\"https://github.com/bob\"><a href=\"https://github.com/bob\">@bob</a></a>"
    );
}

#[test]
fn emoji_before_heading_markup() {
    let mut s = Settings::unset();
    s.emoji = OptionValue::Bool(true);
    assert_eq!(make_html("# :smile: Hi\n", &s), "<h1 id=\"hi\">\u{1F604} Hi</h1>\n");
}
