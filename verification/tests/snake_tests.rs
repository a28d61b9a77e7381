use snake::snake::{Segment, Snake};

#[test]
fn new_snake_stretches_left_of_its_head() {
    let s = Snake::new(10, 5, 3);
    assert_eq!(s.length(), 3);
    assert_eq!(s.cell(0), (10, 5));
    assert_eq!(s.cell(1), (9, 5));
    assert_eq!(s.cell(2), (8, 5));
    assert_eq!(s.to_clean(), (8, 5));
}

#[test]
fn new_snake_of_size_zero_keeps_its_head() {
    let s = Snake::new(4, 4, 0);
    assert_eq!(s.length(), 1);
    assert_eq!(s.cell(0), (4, 4));
}

#[test]
fn snake_moves_right_at_first() {
    let mut s = Snake::new(5, 5, 2);
    assert!(s.update_position(20, 10, false));
    assert_eq!(s.cell(0), (6, 5));
    assert_eq!(s.cell(1), (5, 5));
    assert_eq!(s.length(), 2);
}

#[test]
fn snake_refuses_to_reverse() {
    let mut s = Snake::new(5, 5, 2);
    s.go_left();
    assert!(s.update_position(20, 10, false));
    assert_eq!(s.cell(0), (6, 5));
}

#[test]
fn snake_turns() {
    let mut s = Snake::new(5, 5, 2);
    s.go_up();
    assert!(s.update_position(20, 10, false));
    assert_eq!(s.cell(0), (5, 4));
    s.go_down();
    assert!(s.update_position(20, 10, false));
    assert_eq!(s.cell(0), (5, 3));
    s.go_left();
    assert!(s.update_position(20, 10, false));
    assert_eq!(s.cell(0), (4, 3));
    s.go_right();
    assert!(s.update_position(20, 10, false));
    assert_eq!(s.cell(0), (3, 3));
    s.go_down();
    assert!(s.update_position(20, 10, false));
    assert_eq!(s.cell(0), (3, 4));
}

#[test]
fn snake_wraps_around_without_walls() {
    // heading right from the last column comes back at column 1
    let mut s = Snake::new(19, 5, 2);
    assert!(s.update_position(20, 10, false));
    assert_eq!(s.cell(0), (1, 5));
    // heading up from row 2 comes back at the last row
    let mut s = Snake::new(5, 3, 2);
    s.go_up();
    assert!(s.update_position(20, 10, false));
    assert_eq!(s.cell(0), (5, 2));
    assert!(s.update_position(20, 10, false));
    assert_eq!(s.cell(0), (5, 9));
    // heading down from the last row comes back at row 2
    s.go_left();
    assert!(s.update_position(20, 10, false));
    assert_eq!(s.cell(0), (4, 9));
    s.go_down();
    assert!(s.update_position(20, 10, false));
    assert_eq!(s.cell(0), (4, 2));
    // heading left from column 1 comes back at the last column
    let mut s = Snake::new(5, 5, 2);
    s.go_up();
    assert!(s.update_position(20, 10, false));
    s.go_left();
    for _ in 0..4 {
        assert!(s.update_position(20, 10, false));
    }
    assert_eq!(s.cell(0), (1, 4));
    assert!(s.update_position(20, 10, false));
    assert_eq!(s.cell(0), (19, 4));
}

#[test]
fn snake_dies_on_a_wall() {
    let mut s = Snake::new(7, 5, 2);
    assert!(s.update_position(10, 10, true));
    assert_eq!(s.cell(0), (8, 5));
    // column 9 is the right wall of a 10-wide field
    assert!(!s.update_position(10, 10, true));
    assert_eq!(s.cell(0), (8, 5));
    assert_eq!(s.cell(1), (7, 5));
}

#[test]
fn snake_dies_on_its_body() {
    let mut s = Snake::new(10, 5, 5);
    s.go_up();
    assert!(s.update_position(20, 10, false));
    s.go_left();
    assert!(s.update_position(20, 10, false));
    s.go_down();
    // (9, 5) is still part of the body
    assert!(!s.update_position(20, 10, false));
    assert_eq!(s.cell(0), (9, 4));
    assert_eq!(s.length(), 5);
}

#[test]
fn snake_may_follow_its_tail() {
    let mut s = Snake::new(10, 5, 4);
    s.go_up();
    assert!(s.update_position(20, 10, false));
    s.go_left();
    assert!(s.update_position(20, 10, false));
    s.go_down();
    // (9, 5) is the tail end, which moves away in the same step
    assert!(s.update_position(20, 10, false));
    assert_eq!(s.cell(0), (9, 5));
}

#[test]
fn snake_grows_into_the_cell_it_left() {
    let mut s = Snake::new(5, 5, 2);
    assert!(s.update_position(20, 10, false));
    assert_eq!(s.to_clean(), (5, 5));
    s.grow();
    assert_eq!(s.length(), 3);
    assert_eq!(s.cell(2), (4, 5));
    assert_eq!(s.to_clean(), (4, 5));
}

#[test]
fn snake_eats_only_under_its_head() {
    let s = Snake::new(5, 5, 2);
    assert!(s.eat(5, 5));
    assert!(!s.eat(4, 5));
    assert!(!s.eat(5, 4));
}

#[test]
fn snake_is_on_its_cells() {
    let s = Snake::new(5, 5, 3);
    assert!(s.is_on(5, 5));
    assert!(s.is_on(3, 5));
    assert!(!s.is_on(2, 5));
    assert!(!s.is_on(5, 6));
}

#[test]
fn segments_alternate_after_the_head() {
    assert_eq!(Snake::segment(0), Segment::Head);
    assert_eq!(Snake::segment(1), Segment::Light);
    assert_eq!(Snake::segment(2), Segment::Dark);
    assert_eq!(Snake::segment(7), Segment::Light);
}

#[test]
fn length_is_start_plus_growth() {
    let mut s = Snake::new(10, 5, 3);
    let mut grows = 0;
    for step in 0..40 {
        match step % 4 {
            0 => s.go_up(),
            1 => s.go_left(),
            2 => s.go_down(),
            _ => s.go_right(),
        }
        s.update_position(20, 10, false);
        if step % 3 == 0 {
            s.grow();
            grows += 1;
        }
        assert_eq!(s.length(), 3 + grows);
    }
}

#[test]
fn move_kills_agrees_with_the_move() {
    let s = Snake::new(8, 5, 2);
    assert!(s.move_kills(10, 10, true));
    assert!(!s.move_kills(10, 10, false));
    let mut t = Snake::new(8, 5, 2);
    assert!(!t.update_position(10, 10, true));
}
