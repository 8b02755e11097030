use nadi_md::events::{Alignment, Event, HeadingLevel, MdEvent};
use nadi_md::typst::{code_block_text, escape_typst, figure_start, format_link, write_typst};

fn text(s: &str) -> MdEvent {
    Event::Text {
        text: s.to_string(),
        borrowed: true,
    }
}

fn render(events: Vec<MdEvent>) -> String {
    write_typst(&events).expect("renders")
}

#[test]
fn escapes_stars_and_hashes() {
    assert_eq!(escape_typst("a*b#c"), "a\\*b\\#c");
    assert_eq!(escape_typst("plain text"), "plain text");
    assert_eq!(escape_typst(""), "");
}

#[test]
fn link_and_figure_openings() {
    assert_eq!(format_link("https://nadi.org"), "#link(\"https://nadi.org\")[");
    assert_eq!(figure_start("\"a.png\""), "\n#figure(image(\"a.png\"), caption: [");
}

#[test]
fn code_text_drops_leading_bangs() {
    assert_eq!(code_block_text("!a\n!!b\r\nc"), "a\nb\nc\n");
    assert_eq!(code_block_text("x\n"), "x\n");
    assert_eq!(code_block_text(""), "\n");
    assert_eq!(code_block_text("a\n\nb"), "a\n\nb\n");
    assert_eq!(code_block_text("a!\n ! b"), "a!\n ! b\n");
    assert_eq!(code_block_text("a\r"), "a\r\n");
}

#[test]
fn paragraphs_and_strong_text() {
    let out = render(vec![
        Event::StartParagraph,
        text("Hi "),
        Event::StartStrong,
        text("there*"),
        Event::EndStrong,
        Event::EndParagraph,
        Event::StartParagraph,
        text("#2"),
        Event::SoftBreak,
        text("x"),
        Event::HardBreak,
        Event::EndParagraph,
    ]);
    assert_eq!(out, "\n\n\nHi *there\\**\n\n\\#2\nx\n\n\n\n");
}

#[test]
fn ordered_and_unordered_lists() {
    let out = render(vec![
        Event::StartList(Some(3)),
        Event::StartItem,
        text("a"),
        Event::EndItem,
        Event::StartItem,
        text("b"),
        Event::EndItem,
        Event::EndList,
        Event::StartList(None),
        Event::StartItem,
        Event::StartParagraph,
        text("c"),
        Event::EndParagraph,
        Event::EndItem,
        Event::EndList,
    ]);
    assert_eq!(out, "\n3. a\n4. b\n\n- c\n\n\n");
}

#[test]
fn headings_use_equals_signs() {
    let out = render(vec![
        Event::StartHeading(HeadingLevel::H2),
        text("Title"),
        Event::EndHeading,
        Event::StartHeading(HeadingLevel::H6),
        Event::EndHeading,
    ]);
    assert_eq!(out, "\n== Title\n\n====== \n");
}

#[test]
fn code_blocks_hide_task_marks() {
    let out = render(vec![
        Event::StartFencedCode {
            info: "task".to_string(),
            borrowed: true,
        },
        text("!net.x()\ny*#\n"),
        Event::EndCodeBlock,
        Event::StartIndentedCode,
        text("z"),
        Event::EndCodeBlock,
        text("*"),
    ]);
    assert_eq!(out, "\n``````task\nnet.x()\ny*#\n``````\n\n``````\nz\n``````\n\\*");
}

#[test]
fn tables_collect_cells() {
    let out = render(vec![
        Event::StartTable(vec![Alignment::Left, Alignment::Right]),
        Event::StartTableHead,
        text("h1"),
        Event::EndTableCell,
        Event::Code("h2".to_string()),
        Event::EndTableCell,
        Event::EndTableHead,
        Event::StartLink("u".to_string()),
        text("a"),
        Event::EndLink,
        Event::EndTableCell,
        text("b"),
        Event::EndTableCell,
        Event::EndTable,
    ]);
    assert_eq!(
        out,
        "\n#table(\n  columns: 2,\n  table.header([*h1*], [*`h2`*]),\n  [#link(\"u\")[a]], [b]\n)\n\n"
    );
}

#[test]
fn links_outside_tables() {
    let out = render(vec![Event::StartLink("x.md".to_string()), text("see"), Event::EndLink]);
    assert_eq!(out, "#link(\"x.md\")[see]");
}

#[test]
fn images_become_figures() {
    let out = render(vec![
        Event::StartImage("dir/a \"b\".png".to_string()),
        text("cap"),
        Event::EndImage,
    ]);
    assert_eq!(out, "\n#figure(image(\"dir/a \\\"b\\\".png\"), caption: [cap])\n");
}

#[test]
fn html_blocks_stop_the_rendering() {
    let events = vec![text("x"), Event::Html("<div>".to_string()), text("y")];
    let err = write_typst(&events).unwrap_err();
    assert_eq!(err.written, "x");
}

#[test]
fn other_events_write_nothing() {
    assert_eq!(render(vec![Event::Other, Event::EndList, Event::StartTableHead]), "");
}

#[test]
fn output_only_grows() {
    let mut events = vec![Event::StartParagraph, text("a*")];
    let first = render(vec![Event::StartParagraph, text("a*")]);
    events.push(Event::EndParagraph);
    events.push(Event::StartTable(vec![Alignment::Center]));
    let second = render(events);
    assert!(second.starts_with(&first));
}

#[test]
fn empty_documents_render_empty() {
    assert_eq!(render(vec![]), "");
}

#[test]
fn large_list_starts_render() {
    let out = render(vec![Event::StartList(Some(u64::MAX - 1)), Event::StartItem, Event::EndItem]);
    assert_eq!(out, format!("\n{}. \n", u64::MAX - 1));
}
