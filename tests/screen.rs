use chip8::screen::{Screen, CELLS, HEIGHT, WIDTH};

fn lit(s: &Screen) -> Vec<(usize, usize)> {
    let mut out = Vec::new();
    for y in 0..HEIGHT {
        for x in 0..WIDTH {
            if s.get(x, y) == Some(true) {
                out.push((x, y));
            }
        }
    }
    out
}

#[test]
fn new_screen_is_lit_and_clear_turns_it_off() {
    let mut s = Screen::new();
    assert_eq!(lit(&s).len(), CELLS);
    s.clear();
    assert!(lit(&s).is_empty());
    assert_eq!(s.get(WIDTH, 0), None);
    assert_eq!(s.get(0, HEIGHT), None);
}

#[test]
fn set_and_get_cells() {
    let mut s = Screen::new();
    s.clear();
    assert_eq!(s.set(true, 3, 4), Ok(()));
    assert_eq!(s.get(3, 4), Some(true));
    assert_eq!(s.set(true, 64, 4), Err(()));
    assert_eq!(s.set(true, 3, 32), Err(()));
    assert_eq!(lit(&s), vec![(3, 4)]);
}

#[test]
fn drawing_twice_collides_and_restores() {
    let mut s = Screen::new();
    s.clear();
    let sprite = [0xF0u8, 0x90, 0x90, 0x90, 0xF0];
    assert!(!s.draw(5, 5, &sprite));
    let first = lit(&s);
    assert_eq!(first.len(), 14);
    assert!(first.contains(&(5, 5)) && first.contains(&(8, 5)) && first.contains(&(8, 9)));
    assert!(!first.contains(&(6, 6)));
    assert!(s.draw(5, 5, &sprite));
    assert!(lit(&s).is_empty());
}

#[test]
fn drawing_wraps_horizontally_at_column_sixty() {
    let mut s = Screen::new();
    s.clear();
    assert!(!s.draw(60, 0, &[0xFF]));
    assert_eq!(
        lit(&s),
        vec![(0, 0), (1, 0), (2, 0), (3, 0), (60, 0), (61, 0), (62, 0), (63, 0)]
    );
}

#[test]
fn drawing_wraps_vertically_and_with_large_coordinates() {
    let mut s = Screen::new();
    s.clear();
    assert!(!s.draw(64 + 2, 31, &[0x80, 0x80]));
    assert_eq!(lit(&s), vec![(2, 0), (2, 31)]);
}

#[test]
fn partial_overlap_reports_collision_and_xors() {
    let mut s = Screen::new();
    s.clear();
    assert!(!s.draw(0, 0, &[0xC0]));
    assert!(s.draw(1, 0, &[0xC0]));
    assert_eq!(lit(&s), vec![(0, 0), (2, 0)]);
    assert!(!s.draw(10, 10, &[0x00, 0x00]));
    assert_eq!(lit(&s), vec![(0, 0), (2, 0)]);
}

#[test]
fn buffer_colours_lit_cells() {
    let mut s = Screen::new();
    s.clear();
    s.set(true, 1, 0).unwrap();
    s.set(true, 0, 1).unwrap();
    let b = s.to_buffer();
    assert_eq!(b.len(), CELLS);
    assert_eq!(b[0], 0);
    assert_eq!(b[1], 0xFF0000);
    assert_eq!(b[64], 0xFF0000);
    assert_eq!(b.iter().filter(|&&c| c != 0).count(), 2);
}
