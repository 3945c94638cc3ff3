use t5s3_epaper_ui::keyboard::{self, keyboard, key_label, Key, KeyCache};
use t5s3_epaper_ui::layout::NativeRect;
use t5s3_epaper_ui::scene::{Align, Font, Ink, Scene, Shape, BLACK, WHITE};
use t5s3_epaper_ui::text_field::{EnterKey, FieldEvent, Flush, TextField, Wrap};

fn texts(scene: &Scene) -> Vec<(String, i32, i32)> {
    scene
        .shapes
        .iter()
        .filter_map(|s| match s {
            Shape::Text { text, x, y, .. } => Some((text.clone(), *x, *y)),
            _ => None,
        })
        .collect()
}

#[test]
fn keyboard_has_its_rows() {
    let keys = keyboard(false, false);
    assert_eq!(keys.len(), 10 + 9 + 9 + 3);
    assert_eq!(keys[0].key, Key::Char('q'));
    assert_eq!((keys[0].x, keys[0].y, keys[0].w, keys[0].h), (2, 600, 50, 78));
    assert_eq!((keys[9].key, keys[9].x), (Key::Char('p'), 488));
    assert_eq!((keys[10].key, keys[10].x, keys[10].y), (Key::Char('a'), 29, 686));
    assert_eq!((keys[19].key, keys[19].x, keys[19].y), (Key::Shift, 29, 772));
    assert_eq!((keys[20].key, keys[20].x), (Key::Char('z'), 83));
    assert_eq!((keys[27].key, keys[27].x), (Key::Backspace, 461));
    assert_eq!((keys[28].key, keys[28].x, keys[28].w), (Key::Symbols, 2, 90));
    assert_eq!((keys[29].key, keys[29].x, keys[29].w), (Key::Space, 96, 328));
    assert_eq!((keys[30].key, keys[30].x, keys[30].y, keys[30].w), (Key::Enter, 428, 858, 110));
    let symbols = keyboard(true, true);
    assert_eq!(symbols.len(), 31);
    assert_eq!((symbols[19].key, symbols[19].x), (Key::Char('*'), 29));
    assert_eq!((symbols[27].key, symbols[27].x), (Key::Backspace, 461));
    assert_eq!(keyboard(false, true)[0].key, Key::Char('Q'));
}

#[test]
fn no_point_is_on_two_keys() {
    for (symbols, shift) in [(false, false), (false, true), (true, false)] {
        let keys = keyboard(symbols, shift);
        for a in 0..keys.len() {
            assert!(keys[a].x >= 0 && keys[a].x + keys[a].w <= 540);
            for b in 0..a {
                let apart = keys[a].x >= keys[b].x + keys[b].w
                    || keys[b].x >= keys[a].x + keys[a].w
                    || keys[a].y >= keys[b].y + keys[b].h
                    || keys[b].y >= keys[a].y + keys[a].h;
                assert!(apart);
            }
        }
    }
}

#[test]
fn touches_find_keys() {
    let mut cache = KeyCache::new();
    assert_eq!(cache.hit(2, 600, false, false), Some(Key::Char('q')));
    assert_eq!(cache.hit(51, 677, false, false), Some(Key::Char('q')));
    assert_eq!(cache.hit(52, 600, false, false), None);
    assert_eq!(cache.hit(56, 600, false, true), Some(Key::Char('W')));
    assert_eq!(cache.layer, Some((false, true)));
    assert_eq!(cache.hit(56, 600, true, true), Some(Key::Char('2')));
    assert_eq!(cache.hit(200, 900, true, false), Some(Key::Space));
    assert_eq!(cache.hit(200, 100, true, false), None);
}

#[test]
fn keys_have_labels() {
    assert_eq!(key_label(Key::Char('\u{e9}'), false, "SEND"), "\u{e9}");
    assert_eq!(key_label(Key::Shift, false, "SEND"), "shift");
    assert_eq!(key_label(Key::Symbols, false, "SEND"), "123");
    assert_eq!(key_label(Key::Symbols, true, "SEND"), "abc");
    assert_eq!(key_label(Key::Backspace, true, "SEND"), "del");
    assert_eq!(key_label(Key::Space, true, "SEND"), "space");
    assert_eq!(key_label(Key::Enter, true, "SEND"), "SEND");
}

#[test]
fn held_shift_is_painted_inverted() {
    let mut scene = Scene::new();
    keyboard::draw(&mut scene, false, true, "SAVE");
    assert_eq!(scene.shapes.len(), 62);
    assert_eq!(
        scene.shapes[38],
        Shape::Rounded {
            x: 29,
            y: 772,
            w: 50,
            h: 78,
            radius: 6,
            ink: Ink::Framed { gray: BLACK, width: 1 }
        }
    );
    assert_eq!(
        scene.shapes[39],
        Shape::Text {
            text: String::from("shift"),
            x: 54,
            y: 816,
            font: Font::Body,
            gray: WHITE,
            align: Align::Center
        }
    );
    assert_eq!(keyboard::native_rect(), NativeRect { x: 594, y: 0, width: 356, height: 540 });
}

fn message() -> TextField {
    TextField::new(30, 150, 480, 170, Wrap::CharFill, EnterKey::Submit, "type...", "SEND")
}

#[test]
fn message_fills_lines() {
    let f = message();
    let mut scene = Scene::new();
    f.draw(&mut scene, "");
    assert_eq!(
        scene.shapes[0],
        Shape::Rect {
            x: 30,
            y: 150,
            w: 480,
            h: 170,
            ink: Ink::Framed { gray: WHITE, width: 2 }
        }
    );
    assert_eq!(
        texts(&scene),
        vec![(String::from(" type..."), 51, 178), (String::from("_"), 42, 178)]
    );
    let mut scene = Scene::new();
    let long = "x".repeat(101);
    f.draw(&mut scene, &long);
    let lines = texts(&scene);
    assert_eq!(lines.len(), 3);
    assert_eq!(lines[0], ("x".repeat(50), 42, 178));
    assert_eq!(lines[2], (String::from("x_"), 42, 218));
}

#[test]
fn document_shows_its_last_lines() {
    let f = TextField::new(
        20,
        100,
        120,
        490,
        Wrap::WordScroll { visible_lines: 2 },
        EnterKey::Newline,
        "hint",
        "RET",
    );
    let mut scene = Scene::new();
    f.draw(&mut scene, "one two three four five");
    assert_eq!(
        texts(&scene),
        vec![(String::from("three"), 32, 126), (String::from("four five"), 32, 146)]
    );
    assert_eq!(
        scene.shapes[3],
        Shape::Rect { x: 114, y: 134, w: 2, h: 15, ink: Ink::Fill { gray: BLACK } }
    );
    let mut scene = Scene::new();
    f.draw(&mut scene, "");
    assert_eq!(texts(&scene), vec![(String::new(), 32, 126), (String::from("hint"), 40, 126)]);
}

#[test]
fn single_line_is_cut() {
    let f = TextField::new(30, 195, 60, 60, Wrap::Truncate, EnterKey::Submit, "", "SAVE");
    let mut scene = Scene::new();
    f.draw_full(&mut scene, "\u{e9}bcdefgh");
    assert_eq!(texts(&scene)[0], (String::from("\u{e9}bcd"), 42, 231));
    assert_eq!(scene.shapes.len(), 2 + 62);
}

#[test]
fn keys_change_the_text() {
    let mut f = message();
    let mut scene = Scene::new();
    let mut buf = String::new();
    let r = f.handle_key(&mut scene, &mut buf, Key::Char('a'), 3, 10);
    assert_eq!(r, (FieldEvent::Changed, None));
    f.handle_key(&mut scene, &mut buf, Key::Space, 3, 20);
    f.handle_key(&mut scene, &mut buf, Key::Char('b'), 3, 30);
    assert_eq!(buf, "a b");
    assert_eq!(f.chars_this_pass, 3);
    assert_eq!(f.last_edit_us, 30);
    let shapes = scene.shapes.len();
    assert_eq!(
        f.handle_key(&mut scene, &mut buf, Key::Char('c'), 3, 40),
        (FieldEvent::Ignored, None)
    );
    assert_eq!(scene.shapes.len(), shapes);
    assert_eq!(
        f.handle_key(&mut scene, &mut buf, Key::Enter, 3, 50),
        (FieldEvent::Submit, None)
    );
    f.handle_key(&mut scene, &mut buf, Key::Backspace, 3, 60);
    assert_eq!(buf, "a ");
    buf.clear();
    assert_eq!(
        f.handle_key(&mut scene, &mut buf, Key::Backspace, 3, 70),
        (FieldEvent::Ignored, None)
    );
    let (event, flush) = f.handle_key(&mut scene, &mut buf, Key::Shift, 3, 80);
    assert_eq!(event, FieldEvent::Ignored);
    assert_eq!(flush, Some(Flush::Fast(keyboard::native_rect())));
    assert!(f.shift && !f.symbols);
    f.handle_key(&mut scene, &mut buf, Key::Symbols, 3, 90);
    assert!(f.symbols);
    f.reset_keyboard();
    assert!(!f.shift && !f.symbols);
}

#[test]
fn enter_breaks_the_line_of_a_document() {
    let mut f = TextField::new(
        20,
        100,
        500,
        490,
        Wrap::WordScroll { visible_lines: 23 },
        EnterKey::Newline,
        "",
        "RET",
    );
    let mut scene = Scene::new();
    let mut buf = String::from("a");
    assert_eq!(
        f.handle_key(&mut scene, &mut buf, Key::Enter, 10, 1),
        (FieldEvent::Changed, None)
    );
    assert_eq!(buf, "a\n");
}

#[test]
fn one_keystroke_is_refreshed_well() {
    let mut f = message();
    let mut scene = Scene::new();
    let mut buf = String::new();
    f.handle_key(&mut scene, &mut buf, Key::Char('a'), 9, 0);
    let shapes = scene.shapes.len();
    assert_eq!(f.end_pass(&mut scene, &buf, 5), Some(Flush::Fast(f.native_rect())));
    assert_eq!(scene.shapes.len(), shapes);
    assert!(!f.dirty && !f.quick_pending);
    assert_eq!(f.end_pass(&mut scene, &buf, 10), None);
}

#[test]
fn burst_is_refreshed_cheaply_and_cleaned_up() {
    let mut f = message();
    let mut scene = Scene::new();
    let mut buf = String::new();
    f.handle_key(&mut scene, &mut buf, Key::Char('a'), 9, 100);
    f.handle_key(&mut scene, &mut buf, Key::Char('b'), 9, 200);
    assert_eq!(f.end_pass(&mut scene, &buf, 300), Some(Flush::Quick(f.native_rect())));
    assert!(f.quick_pending);
    assert_eq!(f.chars_this_pass, 0);
    assert_eq!(f.end_pass(&mut scene, &buf, 400_200), None);
    assert!(f.quick_pending);
    assert_eq!(f.end_pass(&mut scene, &buf, 100), None);
    assert_eq!(f.end_pass(&mut scene, &buf, 400_201), Some(Flush::Fast(f.native_rect())));
    assert!(!f.quick_pending);
}

#[test]
fn leaving_refreshes_what_was_typed() {
    let mut f = message();
    let mut scene = Scene::new();
    let mut buf = String::new();
    assert_eq!(f.flush_pending(), None);
    f.handle_key(&mut scene, &mut buf, Key::Char('a'), 9, 0);
    assert_eq!(f.flush_pending(), Some(Flush::Fast(f.native_rect())));
    assert!(!f.dirty);
    f.handle_key(&mut scene, &mut buf, Key::Char('a'), 9, 0);
    f.clear_pending();
    assert_eq!(f.flush_pending(), None);
    let mut cache = KeyCache::new();
    assert_eq!(f.hit_key(&mut cache, 2, 600), Some(Key::Char('q')));
}

#[test]
fn text_stays_within_limit() {
    let mut scene = Scene::new();
    let mut f = TextField::new(
        30,
        150,
        480,
        170,
        Wrap::Truncate,
        EnterKey::Submit,
        "",
        "SEND",
    );
    let mut buf = String::new();
    let wide = Key::Char('\u{e9}');
    assert_eq!(f.handle_key(&mut scene, &mut buf, wide, 1, 0), (FieldEvent::Ignored, None));
    assert_eq!(buf, "");
    assert!(scene.shapes.is_empty());
    assert_eq!(f.handle_key(&mut scene, &mut buf, wide, 2, 0), (FieldEvent::Changed, None));
    assert_eq!(buf, "\u{e9}");
    assert_eq!(f.handle_key(&mut scene, &mut buf, Key::Space, 2, 0), (FieldEvent::Ignored, None));
    assert_eq!(f.handle_key(&mut scene, &mut buf, Key::Space, 3, 0), (FieldEvent::Changed, None));
    assert_eq!(buf, "\u{e9} ");
}

#[test]
fn messages_wrap_by_characters() {
    let f = TextField::new(30, 150, 69, 170, Wrap::CharFill, EnterKey::Submit, "", "SEND");
    let mut scene = Scene::new();
    f.draw(&mut scene, "\u{e9}\u{e9}\u{e9}\u{e9}\u{e9}\u{e9}abc");
    assert_eq!(
        texts(&scene),
        vec![
            (String::from("\u{e9}\u{e9}\u{e9}\u{e9}\u{e9}"), 42, 178),
            (String::from("\u{e9}abc_"), 42, 198)
        ]
    );
}
