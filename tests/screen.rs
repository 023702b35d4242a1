use raytracer::screen::{init_screen, Screen};

#[test]
fn init_screen_is_black() {
    let grid = init_screen(3, 2);
    assert_eq!(grid.len(), 3);
    for col in &grid {
        assert_eq!(col, &vec![[0u8, 0, 0], [0, 0, 0]]);
    }
}

#[test]
fn screen_walk_row_by_row() {
    let mut screen = Screen::new(3, 2);
    let mut seen = Vec::new();
    while let Some(p) = screen.next() {
        seen.push(p);
    }
    assert_eq!(seen, vec![(0, 0), (1, 0), (2, 0), (0, 1), (1, 1), (2, 1)]);
    assert_eq!(screen.next(), None);
}

#[test]
fn screen_walk_covers_full_frame() {
    let mut screen = Screen::new(640, 480);
    let mut count = 0usize;
    let mut last = (0, 0);
    while let Some(p) = screen.next() {
        count += 1;
        last = p;
    }
    assert_eq!(count, 640 * 480);
    assert_eq!(last, (639, 479));
}

#[test]
fn screen_walk_empty() {
    assert_eq!(Screen::new(0, 5).next(), None);
    assert_eq!(Screen::new(5, 0).next(), None);
}

#[test]
fn screen_set_pixel_only_that_pixel() {
    let mut screen = Screen::new(4, 3);
    screen.set_pixel(2, 1, [0, 150, 255]);
    assert_eq!(screen.pixel(2, 1), [0, 150, 255]);
    assert_eq!(screen.pixel(1, 2), [0, 0, 0]);
    assert_eq!(screen.pixel(2, 0), [0, 0, 0]);
    assert_eq!(screen.next(), Some((0, 0)));
}
