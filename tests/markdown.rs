use portfolio_desktop::markdown::{
    markdown_to_html, math_segments, render_events, render_markdown, render_text_with_math, Block,
    MdEvent, MdTag, Segment,
};

fn s(t: &str) -> String {
    t.to_string()
}

#[test]
fn math_is_split_at_dollar_signs() {
    assert_eq!(
        math_segments("area $a*b$ here"),
        vec![
            Segment::Plain(s("area ")),
            Segment::Formula(s("a*b")),
            Segment::Plain(s(" here")),
        ]
    );
}

#[test]
fn empty_math_pieces_are_dropped() {
    assert_eq!(math_segments("$$x$"), vec![Segment::Plain(s("x"))]);
    assert_eq!(math_segments("$y$"), vec![Segment::Formula(s("y"))]);
    assert!(math_segments("").is_empty());
    assert!(math_segments("$").is_empty());
}

#[test]
fn text_blocks_by_context() {
    assert_eq!(render_text_with_math("a $b$", true, 0), Block::Mono(s("a $b$")));
    assert_eq!(render_text_with_math("Title", false, 2), Block::Heading(2, s("Title")));
    assert_eq!(render_text_with_math("words", false, 0), Block::Label(s("words")));
    assert_eq!(
        render_text_with_math("x $y$", false, 1),
        Block::Math(vec![Segment::Plain(s("x ")), Segment::Formula(s("y"))])
    );
}

#[test]
fn heading_and_paragraph() {
    assert_eq!(
        render_markdown("# Hello\n\nSome text."),
        vec![
            Block::Heading(1, s("Hello")),
            Block::Space(5),
            Block::Separator,
            Block::Space(5),
            Block::Label(s("Some text.")),
            Block::Space(8),
        ]
    );
}

#[test]
fn fenced_code_block() {
    assert_eq!(
        render_markdown("```rust\nlet x = 1;\n```\n"),
        vec![
            Block::Separator,
            Block::Space(5),
            Block::Fence(s("```rust")),
            Block::CodeLine(s("let x = 1;\n")),
            Block::Fence(s("```")),
            Block::Separator,
            Block::Space(5),
        ]
    );
}

#[test]
fn table_keeps_its_header_row() {
    let blocks = render_markdown("| a | b |\n|---|---|\n| 1 | 2 |\n| 3 | 4 |\n");
    assert_eq!(
        blocks,
        vec![Block::Table(
            vec![s("a"), s("b")],
            vec![vec![s("1"), s("2")], vec![s("3"), s("4")]]
        )]
    );
}

#[test]
fn list_items_and_inline_code() {
    let blocks = render_markdown("- one\n- two `x`\n");
    assert_eq!(
        blocks,
        vec![
            Block::Space(5),
            Block::Bullet(s("one")),
            Block::InlineCode(s("x")),
            Block::Bullet(s("two ")),
            Block::Space(5),
        ]
    );
}

#[test]
fn paragraph_with_math() {
    let blocks = render_markdown("energy $E=mc^2$ holds");
    assert_eq!(
        blocks,
        vec![
            Block::Math(vec![
                Segment::Plain(s("energy ")),
                Segment::Formula(s("E=mc^2")),
                Segment::Plain(s(" holds")),
            ]),
            Block::Space(8),
        ]
    );
}

#[test]
fn events_without_an_end_flush_the_buffer() {
    let events = vec![MdEvent::Text(s("loose")), MdEvent::Other];
    assert_eq!(render_events(&events), vec![Block::Label(s("loose"))]);
}

#[test]
fn events_for_a_table_without_head() {
    let events = vec![
        MdEvent::Start(MdTag::Table),
        MdEvent::Start(MdTag::TableRow),
        MdEvent::Start(MdTag::TableCell),
        MdEvent::Text(s("h")),
        MdEvent::End(MdTag::TableCell),
        MdEvent::End(MdTag::TableRow),
        MdEvent::Start(MdTag::TableRow),
        MdEvent::Start(MdTag::TableCell),
        MdEvent::Text(s("v")),
        MdEvent::End(MdTag::TableCell),
        MdEvent::End(MdTag::TableRow),
        MdEvent::End(MdTag::Table),
    ];
    assert_eq!(
        render_events(&events),
        vec![Block::Table(vec![s("h")], vec![vec![s("v")]])]
    );
}

#[test]
fn heading_text_with_math_resets_level() {
    let events = vec![
        MdEvent::Start(MdTag::Heading(2)),
        MdEvent::Text(s("$x$")),
        MdEvent::Text(s("after")),
        MdEvent::End(MdTag::Heading(2)),
    ];
    assert_eq!(
        render_events(&events),
        vec![
            Block::Math(vec![Segment::Formula(s("x"))]),
            Block::Space(5),
            Block::Separator,
            Block::Space(5),
            Block::Label(s("after")),
        ]
    );
}

#[test]
fn indented_code_has_a_bare_fence() {
    let events = vec![
        MdEvent::Start(MdTag::CodeBlock(None)),
        MdEvent::Text(s("cost $5")),
        MdEvent::End(MdTag::CodeBlock(None)),
    ];
    assert_eq!(
        render_events(&events),
        vec![
            Block::Separator,
            Block::Space(5),
            Block::Fence(s("```")),
            Block::Mono(s("cost $5")),
            Block::Fence(s("```")),
            Block::Separator,
            Block::Space(5),
        ]
    );
}

#[test]
fn html_of_a_heading() {
    assert_eq!(markdown_to_html("## Two"), "<h2>Two</h2>\n");
}
