//! The single-line editor, with its cursor counted in bytes.

use cielago::app::LineEdit;

fn at(text: &str, left: usize) -> LineEdit {
    let mut e = LineEdit::new();
    e.set(text);
    for _ in 0..left {
        e.left();
    }
    e
}

#[test]
fn backspace_undoes_insert() {
    for c in ['a', 'é', '猫', '🦀'] {
        let mut e = at("x猫y", 1);
        assert_eq!(e.cursor, 4);
        e.insert(c);
        assert_eq!(e.cursor, 4 + c.len_utf8());
        e.backspace();
        assert_eq!(e.buf, "x猫y");
        assert_eq!(e.cursor, 4);
    }
    let mut e = at("x", 1);
    e.backspace();
    assert_eq!((e.buf.as_str(), e.cursor), ("x", 0));
}

#[test]
fn left_then_delete_is_backspace() {
    let mut a = at("é猫z", 1);
    let mut b = at("é猫z", 1);
    a.backspace();
    b.left();
    b.delete();
    assert_eq!((a.buf.as_str(), a.cursor), ("éz", 2));
    assert_eq!((b.buf.as_str(), b.cursor), ("éz", 2));
    // Nothing to delete at the end.
    b.end();
    b.delete();
    assert_eq!((b.buf.as_str(), b.cursor), ("éz", 3));
}

#[test]
fn left_undoes_right() {
    let mut e = at("é猫", 1);
    assert_eq!(e.cursor, 2);
    e.right();
    assert_eq!(e.cursor, 5);
    e.right();
    assert_eq!(e.cursor, 5);
    e.left();
    assert_eq!((e.buf.as_str(), e.cursor), ("é猫", 2));
    e.home();
    assert_eq!(e.cursor, 0);
}
