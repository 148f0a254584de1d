//! The resize policy on concrete dimensions. The terminal is 80x24 throughout,
//! matching the fallback dimensions.

use viuer::resize::resize;

#[test]
fn test_resize_none() {
    let width = None;
    let height = None;

    let new_dims = resize(1000, 800, width, height, 80, 24);
    assert_eq!(new_dims.0, 57);
    assert_eq!(new_dims.1, 46);

    let new_dims = resize(20, 10, width, height, 80, 24);
    assert_eq!(new_dims.0, 20);
    assert_eq!(new_dims.1, 10);
}

#[test]
fn test_resize_some_none() {
    let width = Some(100);
    let height = None;

    let new_dims = resize(1000, 800, width, height, 80, 24);
    assert_eq!(new_dims.0, 100);
    assert_eq!(new_dims.1, 80);

    let new_dims = resize(20, 10, width, height, 80, 24);
    assert_eq!(new_dims.0, 20);
    assert_eq!(new_dims.1, 10);
}

#[test]
fn test_resize_none_some() {
    let width = None;
    let mut height = Some(90);

    let new_dims = resize(1000, 800, width, height, 80, 24);
    assert_eq!(new_dims.0, 225);
    assert_eq!(new_dims.1, 180);

    height = Some(4);
    let new_dims = resize(20, 10, width, height, 80, 24);
    assert_eq!(new_dims.0, 16);
    assert_eq!(new_dims.1, 8);
}

#[test]
fn test_resize_some_some() {
    let width = Some(15);
    let height = Some(9);

    let new_dims = resize(1000, 800, width, height, 80, 24);
    assert_eq!(new_dims.0, 15);
    assert_eq!(new_dims.1, 18);

    let new_dims = resize(20, 10, width, height, 80, 24);
    assert_eq!(new_dims.0, 15);
    assert_eq!(new_dims.1, 18);
}

#[test]
fn resize_keeps_small_image_even_with_tiny_terminal_margin() {
    // Height within two pixel rows per remaining cell: unchanged.
    let new_dims = resize(20, 30, None, None, 80, 24);
    assert_eq!(new_dims, (20, 30));
}

#[test]
fn fit_dimensions_pins_the_tighter_bound() {
    assert_eq!(viuer::resize::fit_dimensions(1000, 800, 80, 46), (57, 46));
    assert_eq!(viuer::resize::fit_dimensions(1000, 800, 100, 800), (100, 80));
    assert_eq!(viuer::resize::fit_dimensions(1, 1, 0, 5), (0, 1));
}
