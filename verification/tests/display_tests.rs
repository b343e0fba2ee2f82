use emul8rs::display::{Display, DISPLAY_COLS, DISPLAY_ROWS};

#[test]
/// Test creating a display
fn display_test_create() {
    let test_display = Display::new();

    for &cell in test_display.iter_cells() {
        assert!(!cell)
    }
}

#[test]
/// Test setting a value on the display
fn test_set() {
    let mut test_display = Display::new();

    // Set the 0,0 to 1
    test_display.set(0, 0, true).unwrap();
    assert!(test_display.iter_cells()[0]);

    // Set the 1, 0 to 1
    test_display.set(1, 0, true).unwrap();
    assert!(test_display.iter_cells()[DISPLAY_COLS]);

    // Set the 0, 20 to 1
    test_display.set(0, 20, true).unwrap();
    assert!(test_display.iter_cells()[20]);

    // Set the 10, 20 to 1
    test_display.set(10, 20, true).unwrap();
    assert!(test_display.iter_cells()[10 * DISPLAY_COLS + 20]);
}

#[test]
/// Test getting a value from the display
fn test_get() {
    let mut test_display = Display::new();

    // Set the 0,0 to 1
    test_display.set(0, 0, true).unwrap();
    assert!(test_display.get(0, 0).unwrap());

    // Set the 1, 0 to 1
    test_display.set(1, 0, true).unwrap();
    assert!(test_display.get(1, 0).unwrap());

    // Set the 0, 20 to 1
    test_display.set(0, 20, true).unwrap();
    assert!(test_display.get(0, 20).unwrap());

    // Set the 10, 20 to 1
    test_display.set(10, 20, true).unwrap();
    assert!(test_display.get(10, 20).unwrap());
}

#[test]
/// Test xoring a value on the display
fn test_xor() {
    let mut test_display = Display::new();

    // xor the 10, 20 with 0, leaving it off
    assert!(!test_display.xor(10, 20, false).unwrap());
    assert!(!test_display.get(10, 20).unwrap());

    // xor the 10, 20 with 1, turning it on
    assert!(!test_display.xor(10, 20, true).unwrap());
    assert!(test_display.get(10, 20).unwrap());

    // xor the 10, 20 with 0, leaving it on
    assert!(!test_display.xor(10, 20, false).unwrap());
    assert!(test_display.get(10, 20).unwrap());

    // xor the 10, 20 with 1, turning it off
    assert!(test_display.xor(10, 20, true).unwrap());
    assert!(!test_display.get(10, 20).unwrap());
}

#[test]
/// Test clearing the screen
fn display_test_clear() {
    let mut test_display = Display::new();

    // Turn on some test cells
    test_display.set(0, 0, true).unwrap();
    test_display.set(DISPLAY_ROWS - 1, 0, true).unwrap();
    test_display.set(0, DISPLAY_COLS - 1, true).unwrap();
    test_display.set(DISPLAY_ROWS - 1, DISPLAY_COLS - 1, true).unwrap();

    // Clear the screen
    test_display.clear().unwrap();

    for &cell in test_display.iter_cells() {
        assert!(!cell);
    }
}

#[test]
/// Test that the bounds are as expected/error returned when accessing outside of them
fn test_bounds() {
    let mut test_display = Display::new();

    if test_display.set(DISPLAY_ROWS, 0, true).is_ok() {
        panic!();
    }
    if test_display.set(0, DISPLAY_COLS + 1, true).is_ok() {
        panic!();
    }
}
