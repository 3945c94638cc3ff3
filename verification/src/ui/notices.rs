//! What the pages say where they have nothing else to show.
use vstd::prelude::*;
use vstd::string::*;

use crate::scene::{centered, Font, Picture, Scene, Shape, BLACK};

verus! {

/// The head of the GPS page; without a module there is nothing below it.
pub open spec fn gps_head(detected: bool) -> Picture {
    let head = seq![Shape::BackButton, centered("GPS"@, 270, 120, Font::Bold, BLACK)];
    if detected {
        head
    } else {
        head.push(centered("no module detected"@, 270, 400, Font::Small, 4))
    }
}

/// Paints the head of the GPS page.
pub fn draw_gps_head(scene: &mut Scene, detected: bool)
    ensures
        final(scene)@ == old(scene)@ + gps_head(detected),
{
    scene.back_button();
    scene.center("GPS", 270, 120, Font::Bold, BLACK);
    if !detected {
        scene.center("no module detected", 270, 400, Font::Small, 4);
    }
}

/// What lies over a picture, or stands in its place where it cannot be shown.
pub open spec fn over_image(shown: bool) -> Picture {
    if shown {
        seq![Shape::BackButton]
    } else {
        seq![
            centered("cannot display image"@, 270, 400, Font::Body, BLACK),
            Shape::BackButton,
        ]
    }
}

/// Paints what lies over a picture.
pub fn draw_over_image(scene: &mut Scene, shown: bool)
    ensures
        final(scene)@ == old(scene)@ + over_image(shown),
{
    if !shown {
        scene.center("cannot display image", 270, 400, Font::Body, BLACK);
    }
    scene.back_button();
}

/// What the reader shows beside a book: why it could not be opened.
pub open spec fn beside_book(failure: Option<Seq<char>>) -> Picture {
    match failure {
        None => seq![Shape::BackButton],
        Some(why) => seq![
            Shape::BackButton,
            centered("cannot open file"@, 270, 380, Font::Bold, BLACK),
            centered(why, 270, 420, Font::Body, 4),
        ],
    }
}

/// Paints what the reader shows beside a book.
pub fn draw_beside_book(scene: &mut Scene, failure: Option<&str>)
    ensures
        final(scene)@ == old(scene)@ + beside_book(
            match failure {
                Some(why) => Some(why@),
                None => None,
            },
        ),
{
    scene.back_button();
    match failure {
        Some(why) => {
            scene.center("cannot open file", 270, 380, Font::Bold, BLACK);
            scene.center(why, 270, 420, Font::Body, 4);
        },
        None => {},
    }
}

/// Paints that the clock is being set, before any page is up.
pub fn draw_setting_clock(scene: &mut Scene)
    ensures
        final(scene)@ == old(scene)@.push(
            centered("syncing clock over wifi..."@, 270, 400, Font::Body, BLACK),
        ),
{
    scene.center("syncing clock over wifi...", 270, 400, Font::Body, BLACK);
}

/// Every notice leaves the way back on the page, and says what is wrong where
/// something is: that no module was found, that an image cannot be shown, or
/// that a book cannot be opened and why, whole.
pub proof fn law_notices_say_what_is_wrong(detected: bool, shown: bool, why: Seq<char>)
    ensures
        gps_head(true).len() == 2,
        gps_head(false).len() == 3,
        gps_head(detected)[0] is BackButton,
        gps_head(detected)[1] == centered("GPS"@, 270, 120, Font::Bold, BLACK),
        gps_head(false)[2] == centered("no module detected"@, 270, 400, Font::Small, 4),
        over_image(true).len() == 1,
        over_image(false).len() == 2,
        over_image(shown).last() is BackButton,
        over_image(false)[0] == centered("cannot display image"@, 270, 400, Font::Body, BLACK),
        beside_book(None).len() == 1,
        beside_book(None)[0] is BackButton,
        beside_book(Some(why)).len() == 3,
        beside_book(Some(why))[0] is BackButton,
        beside_book(Some(why))[1] == centered(
            "cannot open file"@,
            270,
            380,
            Font::Bold,
            BLACK,
        ),
        beside_book(Some(why))[2] == centered(why, 270, 420, Font::Body, 4),
{
}

} // verus!
