use gitdrift::ui::picker::Picker;

#[test]
fn the_cursor_clamps_at_both_ends() {
    let mut p = Picker::open(3, 0);
    p.move_by(-1);
    assert_eq!(p.index(), 0);
    p.move_by(10);
    assert_eq!(p.index(), 2);
}

#[test]
fn opening_past_the_end_lands_on_the_last_row() {
    assert_eq!(Picker::open(3, 99).index(), 2);
}

#[test]
fn an_empty_picker_has_no_cursor_to_move() {
    let mut p = Picker::open(0, 0);
    p.move_by(1);
    assert_eq!(p.index(), 0);
    assert!(p.is_empty());
}
