use tuke::geometry::{Position, Region, Size};
use tuke::preview::{Preview, PreviewHistory};

fn preview(cols: usize) -> Preview {
    Preview::new(Region {
        position: Position { row: 0, col: 0 },
        size: Size { rows: 1, cols },
    })
}

#[test]
fn fresh_preview_shows_nothing() {
    let p = preview(20);
    assert_eq!(p.render_text(), "");
}

#[test]
fn repeated_chord_collapses_with_a_count() {
    let mut p = preview(20);
    p.record_send("Ctrl-a");
    assert_eq!(p.render_text(), "Ctrl-a");
    p.record_send("Ctrl-a");
    assert_eq!(p.render_text(), "Ctrl-a (x2)");
    p.record_send("Ctrl-a");
    assert_eq!(p.render_text(), "Ctrl-a (x3)");
    match &p.history {
        PreviewHistory::Chord { count, .. } => assert_eq!(*count, 3),
        other => panic!("expected a chord, got {:?}", other),
    }
}

#[test]
fn plain_character_after_chords_clears_and_restarts() {
    let mut p = preview(20);
    p.record_send("Ctrl-a");
    p.record_send("Ctrl-a");
    p.record_send("Ctrl-a");
    p.record_send("b");
    assert_eq!(p.render_text(), "b");
}

#[test]
fn different_chord_restarts_the_count() {
    let mut p = preview(20);
    p.record_send("Ctrl-a");
    p.record_send("Ctrl-a");
    p.record_send("Ctrl-b");
    assert_eq!(p.render_text(), "Ctrl-b");
    p.record_send("Ctrl-b");
    assert_eq!(p.render_text(), "Ctrl-b (x2)");
}

#[test]
fn plain_characters_accumulate() {
    let mut p = preview(20);
    p.record_send("h");
    p.record_send("e");
    p.record_send("y");
    assert_eq!(p.render_text(), "hey");
}

#[test]
fn chord_after_plain_characters_clears_the_buffer() {
    let mut p = preview(20);
    p.record_send("h");
    p.record_send("i");
    p.record_send("Ctrl-x");
    assert_eq!(p.render_text(), "Ctrl-x");
    p.record_send("o");
    assert_eq!(p.render_text(), "o");
}

#[test]
fn visible_buffer_rolls_at_the_strip_width() {
    let mut p = preview(4);
    for c in ["a", "b", "c", "d", "e", "f"] {
        p.record_send(c);
    }
    assert_eq!(p.render_text(), "cdef");
}

#[test]
fn a_one_cell_strip_keeps_one_character() {
    let mut p = preview(1);
    p.record_send("a");
    p.record_send("b");
    assert_eq!(p.render_text(), "b");
}

#[test]
fn arrow_sends_count_as_chord_indicators() {
    let mut p = preview(20);
    p.record_send("Up");
    p.record_send("Up");
    assert_eq!(p.render_text(), "Up (x2)");
}
