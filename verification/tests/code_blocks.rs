use nadi_md::code_args::{nadi_code_args, CodeHandler};
use nadi_md::events::{Event, MdEvent};
use nadi_md::scan::{process_nadi_tasks, Piece};

#[test]
fn code_args_pick_the_handler() {
    assert_eq!(
        nadi_code_args("task run"),
        Some((CodeHandler::Task, "".to_string()))
    );
    assert_eq!(
        nadi_code_args("table run markdown x"),
        Some((CodeHandler::Table, " markdown x".to_string()))
    );
    assert_eq!(
        nadi_code_args("stp run a=1"),
        Some((CodeHandler::Template, " a=1".to_string()))
    );
    assert_eq!(
        nadi_code_args("string-template run"),
        Some((CodeHandler::Template, "".to_string()))
    );
    assert_eq!(
        nadi_code_args("  task\t run new"),
        Some((CodeHandler::Task, " new".to_string()))
    );
    assert_eq!(
        nadi_code_args("task running"),
        Some((CodeHandler::Task, "ning".to_string()))
    );
}

#[test]
fn code_args_skip_other_blocks() {
    assert_eq!(nadi_code_args("python"), None);
    assert_eq!(nadi_code_args("task"), None);
    assert_eq!(nadi_code_args("rust run"), None);
    assert_eq!(nadi_code_args("taskrun"), None);
    assert_eq!(nadi_code_args(""), None);
}

fn text(s: &str, borrowed: bool) -> MdEvent {
    Event::Text {
        text: s.to_string(),
        borrowed,
    }
}

fn fenced(info: &str) -> MdEvent {
    Event::StartFencedCode {
        info: info.to_string(),
        borrowed: true,
    }
}

#[test]
fn blocks_to_run_are_found() {
    let pieces = process_nadi_tasks(vec![
        Event::StartParagraph,
        text("hi", true),
        Event::EndParagraph,
        fenced("task run new"),
        text("a\n", true),
        text("b\n", true),
        Event::EndCodeBlock,
        fenced("python x"),
        text("print()", true),
        Event::EndCodeBlock,
    ]);
    assert_eq!(
        pieces,
        vec![
            Piece::Event(Event::StartParagraph),
            Piece::Event(text("hi", true)),
            Piece::Event(Event::EndParagraph),
            Piece::Event(fenced("task")),
            Piece::Event(text("a\n", true)),
            Piece::Event(text("b\n", true)),
            Piece::Event(Event::EndCodeBlock),
            Piece::Run {
                handler: CodeHandler::Task,
                script: "a\nb\n".to_string(),
                args: " new".to_string(),
            },
            Piece::Event(fenced("python")),
            Piece::Event(text("print()", true)),
            Piece::Event(Event::EndCodeBlock),
        ]
    );
}

#[test]
fn owned_text_is_not_gathered() {
    let pieces = process_nadi_tasks(vec![
        fenced("stp run x=1"),
        text("{x}", false),
        Event::EndCodeBlock,
        text("later", true),
        Event::EndCodeBlock,
    ]);
    assert_eq!(
        pieces,
        vec![
            Piece::Event(fenced("stp")),
            Piece::Event(text("{x}", false)),
            Piece::Event(Event::EndCodeBlock),
            Piece::Event(text("later", true)),
            Piece::Event(Event::EndCodeBlock),
        ]
    );
}

#[test]
fn every_event_is_passed_on() {
    let events = vec![
        fenced("table run"),
        text("| a |", true),
        Event::EndCodeBlock,
        Event::Other,
    ];
    let pieces = process_nadi_tasks(events);
    let kept: Vec<&Piece<MdEvent, String>> = pieces
        .iter()
        .filter(|p| matches!(p, Piece::Event(_)))
        .collect();
    assert_eq!(kept.len(), 4);
    for (i, p) in pieces.iter().enumerate() {
        if matches!(p, Piece::Run { .. }) {
            assert_eq!(pieces[i - 1], Piece::Event(Event::EndCodeBlock));
        }
    }
}

#[test]
fn empty_blocks_run_nothing() {
    let pieces = process_nadi_tasks(vec![
        fenced("task run"),
        Event::EndCodeBlock,
        Event::StartParagraph,
        text("text", true),
        Event::EndParagraph,
        fenced("rust"),
        text("x\n", true),
        Event::EndCodeBlock,
    ]);
    assert_eq!(
        pieces,
        vec![
            Piece::Event(fenced("task")),
            Piece::Event(Event::EndCodeBlock),
            Piece::Event(Event::StartParagraph),
            Piece::Event(text("text", true)),
            Piece::Event(Event::EndParagraph),
            Piece::Event(fenced("rust")),
            Piece::Event(text("x\n", true)),
            Piece::Event(Event::EndCodeBlock),
        ]
    );
}
