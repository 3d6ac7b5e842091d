use vmulti_client::display::{DisplayInfo, DisplayPosition};
use vmulti_client::mouse::{CoordinateMapper, LayoutError, MouseButton, MouseClick, MousePosition};

fn display(primary: bool, left: i32, top: i32, right: i32, bottom: i32) -> DisplayInfo {
    DisplayInfo {
        primary,
        position: DisplayPosition { left, top, right, bottom },
        width: (right - left).unsigned_abs() as u16,
        height: (bottom - top).unsigned_abs() as u16,
    }
}

fn two_displays() -> Vec<DisplayInfo> {
    vec![display(true, 0, 0, 1920, 1080), display(false, 1920, 0, 3840, 1080)]
}

#[test]
fn click_builders() {
    let c = MouseClick::new();
    assert_eq!((c.buttons(), c.x(), c.y(), c.wheel_position(), c.display_index()), (0, 0, 0, 0, None));
    let c = c
        .set_position(10, 20)
        .set_button(MouseButton::Left)
        .set_button(MouseButton::Middle)
        .set_button(MouseButton::Left)
        .set_wheel_position(3)
        .set_display_index(1);
    assert_eq!(c.buttons(), 0b101);
    assert_eq!((c.x(), c.y()), (10, 20));
    assert_eq!(c.wheel_position(), 3);
    assert_eq!(c.display_index(), Some(1));
    assert_eq!(MouseClick::new().set_button(MouseButton::Right).buttons(), 2);
}

#[test]
fn origin_of_second_display_maps_to_half_range() {
    let m = CoordinateMapper::new(two_displays()).unwrap();
    let c = MouseClick::new().set_position(0, 0).set_display_index(1);
    assert_eq!(m.device_position(&c), (16384, 0));
}

#[test]
fn missing_or_bad_index_uses_primary() {
    let m = CoordinateMapper::new(two_displays()).unwrap();
    let c = MouseClick::new().set_position(960, 540);
    assert_eq!(m.device_position(&c), (8192, 16384));
    let bad = MouseClick::new().set_position(960, 540).set_display_index(7);
    assert_eq!(m.device_position(&bad), (8192, 16384));
}

#[test]
fn primary_need_not_be_first() {
    let ds = vec![display(false, -1920, 0, 0, 1080), display(true, 0, 0, 1920, 1080)];
    let m = CoordinateMapper::new(ds).unwrap();
    assert_eq!(m.primary_index(), 1);
    assert_eq!(m.device_position(&MouseClick::new()), (16384, 0));
}

#[test]
fn mapping_rounds_to_nearest() {
    let m = CoordinateMapper::new(vec![display(true, 0, 0, 3, 3)]).unwrap();
    // 1 * 32768 / 3 = 10922.67
    assert_eq!(m.device_position(&MouseClick::new().set_position(1, 1)), (10923, 10923));
    // 2 * 32768 / 3 = 21845.33
    assert_eq!(m.device_position(&MouseClick::new().set_position(2, 2)), (21845, 21845));
}

#[test]
fn mapping_saturates_far_outside() {
    let m = CoordinateMapper::new(vec![display(true, 0, 0, 2, 2)]).unwrap();
    assert_eq!(m.device_position(&MouseClick::new().set_position(65535, 65535)), (65535, 65535));
}

#[test]
fn mapping_is_monotonic_along_x() {
    let m = CoordinateMapper::new(two_displays()).unwrap();
    let mut last = 0;
    for x in (0..1920).step_by(7) {
        let (dx, _) = m.device_position(&MouseClick::new().set_position(x, 0).set_display_index(1));
        assert!(dx >= last);
        last = dx;
    }
}

#[test]
fn mouse_report_layout() {
    let m = CoordinateMapper::new(two_displays()).unwrap();
    let c = MouseClick::new()
        .set_position(0, 540)
        .set_display_index(1)
        .set_button(MouseButton::Right)
        .set_wheel_position(5);
    // x = 16384 = 0x4000, y = 16384 = 0x4000
    assert_eq!(m.report(&c), vec![0x40, 9, 0x03, 2, 0x00, 0x40, 0x00, 0x40, 5]);
}

#[test]
fn layout_errors() {
    assert!(matches!(CoordinateMapper::new(vec![]), Err(LayoutError::NoDisplays)));
    assert!(matches!(
        CoordinateMapper::new(vec![display(false, 0, 0, 10, 10)]),
        Err(LayoutError::NoPrimaryDisplay)
    ));
    assert!(matches!(
        CoordinateMapper::new(vec![display(true, 0, 0, 0, 10)]),
        Err(LayoutError::ZeroWidth)
    ));
    assert!(matches!(
        CoordinateMapper::new(vec![display(true, 0, 0, 10, 0)]),
        Err(LayoutError::ZeroHeight)
    ));
}

#[test]
fn locate_cursor() {
    let m = CoordinateMapper::new(two_displays()).unwrap();
    assert_eq!(m.locate(2000, 300), Some(MousePosition { display_index: 1, x: 80, y: 300 }));
    assert_eq!(m.locate(100, 50), Some(MousePosition { display_index: 0, x: 100, y: 50 }));
    // The shared edge belongs to the first display that holds it.
    assert_eq!(m.locate(1920, 0), Some(MousePosition { display_index: 0, x: 1920, y: 0 }));
    assert_eq!(m.locate(5000, 0), None);
    assert_eq!(m.locate(-1, 0), None);
}
