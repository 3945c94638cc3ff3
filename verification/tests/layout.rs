use t5s3_epaper_ui::layout::{screen_to_native_rect, touch_to_screen, NativeRect};

#[test]
fn touch_is_turned_a_quarter() {
    assert_eq!(touch_to_screen(0, 0), (539, 0));
    assert_eq!(touch_to_screen(959, 539), (0, 959));
    assert_eq!(touch_to_screen(100, 600), (-61, 100));
}

#[test]
fn native_rect_of_a_box() {
    let r = screen_to_native_rect(30, 150, 480, 170);
    assert!(r == NativeRect { x: 150, y: 30, width: 170, height: 480 });
}
