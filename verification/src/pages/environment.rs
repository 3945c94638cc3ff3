//! The environment page: a card for each sensor.
use vstd::prelude::*;
use vstd::string::*;

use crate::bounded::{readings_in, readings_slice};
use crate::scene::{
    centered, filled, flush_right, label, Align, Font, Picture, Scene, Shape, BLACK, WHITE,
};
use crate::text::{dec, held, hold, own, push_dec};

verus! {

/// Sensors that one response may name.
pub const MAX_SENSORS: usize = 8;

/// Cards that fit on the page.
pub const MAX_VISIBLE: usize = 5;

/// The dissolved solids in water: whole parts per million, rounded towards
/// zero, and the text of the rounded number.
pub struct Solids {
    pub whole_ppm: i64,
    pub text: String,
}

/// The latest reading of a sensor. One of air has carbon dioxide and perhaps
/// humidity, one of water has dissolved solids.
pub struct Reading {
    pub id: String,
    pub co2: Option<u16>,
    pub tds: Option<Solids>,
    /// Degrees with one digit behind the point.
    pub temperature: String,
    /// Whole percent.
    pub humidity: Option<String>,
}

/// What the page shows.
pub enum EnvironmentView {
    Loading,
    Ready(heapless::Vec<Reading, 8>),
    Error,
}

/// Where the readings are fetched from.
pub fn path() -> (r: &'static str)
    ensures
        r@ == "/api/sensors"@,
{
    "/api/sensors"
}

/// The quality of air, by its carbon dioxide.
pub open spec fn air_quality(co2: int) -> Seq<char> {
    if co2 <= 800 {
        "fresh"@
    } else if co2 <= 1000 {
        "good"@
    } else if co2 <= 1400 {
        "fair"@
    } else if co2 <= 2000 {
        "stuffy"@
    } else {
        "poor"@
    }
}

/// The quality of air, by its carbon dioxide.
pub fn quality(co2: u16) -> (r: &'static str)
    ensures
        r@ == air_quality(co2 as int),
{
    if co2 <= 800 {
        "fresh"
    } else if co2 <= 1000 {
        "good"
    } else if co2 <= 1400 {
        "fair"
    } else if co2 <= 2000 {
        "stuffy"
    } else {
        "poor"
    }
}

/// The hardness of water, by its dissolved solids.
pub open spec fn water_hardness(whole_ppm: int) -> Seq<char> {
    if whole_ppm < 100 {
        "very soft"@
    } else if whole_ppm < 250 {
        "soft"@
    } else if whole_ppm < 450 {
        "moderate"@
    } else if whole_ppm < 700 {
        "hard"@
    } else {
        "very hard"@
    }
}

/// The hardness of water, by its dissolved solids.
pub fn hardness(whole_ppm: i64) -> (r: &'static str)
    ensures
        r@ == water_hardness(whole_ppm as int),
{
    if whole_ppm < 100 {
        "very soft"
    } else if whole_ppm < 250 {
        "soft"
    } else if whole_ppm < 450 {
        "moderate"
    } else if whole_ppm < 700 {
        "hard"
    } else {
        "very hard"
    }
}

/// What a sensor measures.
pub open spec fn kind_of(r: Reading) -> Seq<char> {
    if r.co2 is Some {
        "air"@
    } else if r.tds is Some {
        "water"@
    } else {
        "sensor"@
    }
}

/// The headline of a card, as far as there is room for it.
pub open spec fn headline(r: Reading) -> Seq<char> {
    held(whole_headline(r), 40)
}

/// The line under the headline of a card, as far as there is room for it.
pub open spec fn details(r: Reading) -> Seq<char> {
    held(whole_details(r), 32)
}

/// The headline of a card.
pub open spec fn whole_headline(r: Reading) -> Seq<char> {
    match r.co2 {
        Some(co2) => "CO2   "@ + dec(co2 as int) + " ppm ("@ + air_quality(co2 as int) + ")"@,
        None => match r.tds {
            Some(tds) => "TDS   "@ + tds.text@ + " ppm ("@ + water_hardness(
                tds.whole_ppm as int,
            ) + ")"@,
            None => r.temperature@ + " C"@,
        },
    }
}

/// The line under the headline of a card.
pub open spec fn whole_details(r: Reading) -> Seq<char> {
    if r.co2 is Some {
        r.temperature@ + " C"@ + (match r.humidity {
            Some(h) => "     "@ + h@ + " %RH"@,
            None => seq![],
        })
    } else if r.tds is Some {
        r.temperature@ + " C water"@
    } else {
        seq![]
    }
}

/// A sensor's card.
pub open spec fn card_picture(r: Reading, top: int) -> Picture {
    seq![
        label(r.id@, 40, top + 26, Font::Bold, BLACK),
        flush_right(kind_of(r), 500, top + 26, Font::Body, 4),
        label(headline(r), 40, top + 66, Font::Bold, BLACK),
        label(details(r), 40, top + 98, Font::Body, 4),
        filled(30, top + 132, 480, 2, 8),
    ]
}

/// Paints a sensor's card.
fn draw_card(scene: &mut Scene, reading: &Reading, top: i32)
    requires
        0 <= top <= 10_000,
    ensures
        final(scene)@ == old(scene)@ + card_picture(*reading, top as int),
{
    let ghost start = scene@;
    scene.text(reading.id.as_str(), 40, top + 26, Font::Bold, BLACK);
    let kind: &str = if reading.co2.is_some() {
        "air"
    } else if reading.tds.is_some() {
        "water"
    } else {
        "sensor"
    };
    scene.right(kind, 500, top + 26, Font::Body, 4);
    let mut primary: String = String::new();
    let mut secondary: String = String::new();
    match reading.co2 {
        Some(co2) => {
            primary.append("CO2   ");
            push_dec(&mut primary, co2 as u64);
            primary.append(" ppm (");
            primary.append(quality(co2));
            primary.append(")");
            secondary.append(reading.temperature.as_str());
            secondary.append(" C");
            if let Some(humidity) = &reading.humidity {
                secondary.append("     ");
                secondary.append(humidity.as_str());
                secondary.append(" %RH");
            }
        },
        None => {
            match &reading.tds {
                Some(tds) => {
                    primary.append("TDS   ");
                    primary.append(tds.text.as_str());
                    primary.append(" ppm (");
                    primary.append(hardness(tds.whole_ppm));
                    primary.append(")");
                    secondary.append(reading.temperature.as_str());
                    secondary.append(" C water");
                },
                None => {
                    primary.append(reading.temperature.as_str());
                    primary.append(" C");
                },
            }
        },
    }
    assert(primary@ =~= whole_headline(*reading));
    assert(secondary@ =~= whole_details(*reading));
    let primary: String = hold(primary, 40);
    let secondary: String = hold(secondary, 32);
    scene.text(primary.as_str(), 40, top + 66, Font::Bold, BLACK);
    scene.text(secondary.as_str(), 40, top + 98, Font::Body, 4);
    scene.fill(30, top + 132, 480, 2, 8);
    assert(scene@ =~= start + card_picture(*reading, top as int));
}

/// The first `n` cards.
pub open spec fn cards_picture(readings: Seq<Reading>, n: int) -> Picture
    decreases n,
{
    if n <= 0 {
        seq![]
    } else {
        cards_picture(readings, n - 1) + card_picture(readings[n - 1], 176 + 150 * (n - 1))
    }
}

/// The cards that fit, and how many more there are.
pub open spec fn readings_picture(readings: Seq<Reading>) -> Picture {
    let n = readings.len() as int;
    let shown = if n < 5 {
        n
    } else {
        5
    };
    if n == 0 {
        seq![centered("no sensors reporting"@, 270, 296, Font::Body, 4)]
    } else {
        cards_picture(readings, shown) + if n > shown {
            seq![
                centered(
                    "+"@ + dec(n - shown) + " more"@,
                    270,
                    194 + 150 * shown,
                    Font::Body,
                    4,
                ),
            ]
        } else {
            seq![]
        }
    }
}

/// What is under the title.
pub open spec fn body_picture(view: EnvironmentView) -> Picture {
    seq![filled(16, 164, 508, 784, WHITE)] + match view {
        EnvironmentView::Loading => seq![centered("loading..."@, 270, 296, Font::Body, 4)],
        EnvironmentView::Error => seq![centered("no readings available"@, 270, 296, Font::Body, 4)],
        EnvironmentView::Ready(readings) => readings_picture(readings_in(readings)),
    }
}

/// Paints the cards that fit, and how many more there are.
pub fn draw_readings(scene: &mut Scene, readings: &[Reading])
    ensures
        final(scene)@ == old(scene)@ + readings_picture(readings@),
{
    let ghost start = scene@;
    let n: usize = readings.len();
    if n == 0 {
        scene.center("no sensors reporting", 270, 296, Font::Body, 4);
        assert(scene@ =~= start + readings_picture(readings@));
        return ;
    }
    let shown: usize = if n < MAX_VISIBLE {
        n
    } else {
        MAX_VISIBLE
    };
    let mut top: i32 = 176;
    let mut i: usize = 0;
    while i < shown
        invariant
            i <= shown <= 5,
            shown <= readings@.len(),
            top == 176 + 150 * i,
            scene@ == start + cards_picture(readings@, i as int),
        decreases shown - i,
    {
        draw_card(scene, &readings[i], top);
        top = top + 150;
        i = i + 1;
        assert(scene@ =~= start + cards_picture(readings@, i as int));
    }
    if n > shown {
        let mut more: String = own("+");
        push_dec(&mut more, (n - shown) as u64);
        more.append(" more");
        assert(more@ =~= "+"@ + dec(n - shown) + " more"@);
        scene.center(more.as_str(), 270, top + 18, Font::Body, 4);
    }
    assert(scene@ =~= start + readings_picture(readings@));
}

/// Paints what is under the title.
fn draw_body(scene: &mut Scene, view: &EnvironmentView)
    ensures
        final(scene)@ == old(scene)@ + body_picture(*view),
{
    let ghost start = scene@;
    scene.fill(16, 164, 508, 784, WHITE);
    match view {
        EnvironmentView::Loading => scene.center("loading...", 270, 296, Font::Body, 4),
        EnvironmentView::Error => scene.center("no readings available", 270, 296, Font::Body, 4),
        EnvironmentView::Ready(readings) => draw_readings(scene, readings_slice(readings)),
    }
    assert(scene@ =~= start + body_picture(*view));
}

/// The page.
pub open spec fn screen_picture(view: EnvironmentView) -> Picture {
    seq![Shape::BackButton, centered("Environment"@, 270, 120, Font::Bold, BLACK)]
        + body_picture(view)
}

/// Paints the page.
pub fn draw_screen(scene: &mut Scene, view: &EnvironmentView)
    ensures
        final(scene)@ == old(scene)@ + screen_picture(*view),
{
    let ghost start = scene@;
    scene.back_button();
    scene.center("Environment", 270, 120, Font::Bold, BLACK);
    draw_body(scene, view);
    assert(scene@ =~= start + screen_picture(*view));
}

/// Every reading, up to five of them, has its card: its name, what it measures,
/// its headline and its details, one card below the other. Where there are
/// more, the line below says how many. Nothing else is shown.
pub proof fn law_every_reading_is_shown(readings: Seq<Reading>, i: int)
    requires
        0 <= i < readings.len(),
    ensures
        ({
            let shown = readings_picture(readings);
            let r = readings[i];
            let n = readings.len() as int;
            &&& n <= 5 ==> shown.len() == 5 * n
            &&& n > 5 ==> shown.len() == 26 && shown[25] == (Shape::Text {
                text: "+"@ + dec(n - 5) + " more"@,
                x: 270,
                y: 944,
                font: Font::Body,
                gray: 4,
                align: Align::Center,
            })
            &&& i < 5 ==> {
                &&& shown[5 * i] == (Shape::Text {
                    text: r.id@,
                    x: 40,
                    y: (202 + 150 * i) as i32,
                    font: Font::Bold,
                    gray: BLACK,
                    align: Align::Left,
                })
                &&& shown[5 * i + 1] == (Shape::Text {
                    text: kind_of(r),
                    x: 500,
                    y: (202 + 150 * i) as i32,
                    font: Font::Body,
                    gray: 4,
                    align: Align::Right,
                })
                &&& shown[5 * i + 2] == (Shape::Text {
                    text: headline(r),
                    x: 40,
                    y: (242 + 150 * i) as i32,
                    font: Font::Bold,
                    gray: BLACK,
                    align: Align::Left,
                })
                &&& shown[5 * i + 3] == (Shape::Text {
                    text: details(r),
                    x: 40,
                    y: (274 + 150 * i) as i32,
                    font: Font::Body,
                    gray: 4,
                    align: Align::Left,
                })
                &&& shown[5 * i + 4] == filled(30, 308 + 150 * i, 480, 2, 8)
            }
        }),
{
    let n = readings.len() as int;
    let count = if n < 5 {
        n
    } else {
        5
    };
    lemma_cards(readings, count, 0);
    if i < 5 {
        lemma_cards(readings, count, i);
        let cards = cards_picture(readings, count);
        let one = card_picture(readings[i], 176 + 150 * i);
        assert(cards.subrange(5 * i, 5 * i + 5)[0] == one[0]);
        assert(cards.subrange(5 * i, 5 * i + 5)[1] == one[1]);
        assert(cards.subrange(5 * i, 5 * i + 5)[2] == one[2]);
        assert(cards.subrange(5 * i, 5 * i + 5)[3] == one[3]);
        assert(cards.subrange(5 * i, 5 * i + 5)[4] == one[4]);
    }
}

/// Five shapes for each card.
proof fn lemma_cards(readings: Seq<Reading>, n: int, i: int)
    requires
        0 <= i < n,
    ensures
        cards_picture(readings, n).len() == 5 * n,
        cards_picture(readings, n).subrange(5 * i, 5 * i + 5) == card_picture(
            readings[i],
            176 + 150 * i,
        ),
    decreases n,
{
    let before = cards_picture(readings, n - 1);
    let whole = cards_picture(readings, n);
    if n == 1 {
        assert(before =~= seq![]);
    } else {
        lemma_cards(readings, n - 1, 0);
    }
    if i == n - 1 {
        assert(whole.subrange(5 * i, 5 * i + 5) =~= card_picture(readings[i], 176 + 150 * i));
    } else {
        lemma_cards(readings, n - 1, i);
        assert(whole.subrange(5 * i, 5 * i + 5) =~= before.subrange(5 * i, 5 * i + 5));
    }
}

/// What a card says. One with carbon dioxide is of air and says how much in
/// its headline, and temperature and humidity below; one with dissolved solids
/// is of water and says how much, and the temperature below; any other says
/// its temperature.
pub proof fn law_reading_is_described(r: Reading)
    ensures
        r.co2 matches Some(co2) ==> {
            &&& kind_of(r) == "air"@
            &&& headline(r) == held(
                "CO2   "@ + dec(co2 as int) + " ppm ("@ + air_quality(co2 as int) + ")"@,
                40,
            )
            &&& r.humidity is None ==> details(r) == held(r.temperature@ + " C"@, 32)
            &&& r.humidity matches Some(h) ==> details(r) == held(
                r.temperature@ + " C"@ + "     "@ + h@ + " %RH"@,
                32,
            )
        },
        r.co2 is None && r.tds is Some ==> {
            &&& kind_of(r) == "water"@
            &&& headline(r) == held(
                "TDS   "@ + r.tds->0.text@ + " ppm ("@ + water_hardness(
                    r.tds->0.whole_ppm as int,
                ) + ")"@,
                40,
            )
            &&& details(r) == held(r.temperature@ + " C water"@, 32)
        },
        r.co2 is None && r.tds is None ==> {
            &&& kind_of(r) == "sensor"@
            &&& headline(r) == held(r.temperature@ + " C"@, 40)
            &&& details(r).len() == 0
        },
{
    if r.co2 is Some && r.humidity is None {
        assert(whole_details(r) =~= r.temperature@ + " C"@);
    }
    if r.co2 is Some && r.humidity is Some {
        assert(whole_details(r) =~= r.temperature@ + " C"@ + "     "@ + (r.humidity->0)@
            + " %RH"@);
    }
}

/// The words for air and water change where they should and nowhere else: up to
/// 800, 1000, 1400 and 2000 ppm of carbon dioxide, and from 100, 250, 450 and
/// 700 ppm of dissolved solids on.
pub proof fn law_words_for_readings(ppm: int)
    ensures
        ppm <= 800 ==> air_quality(ppm) == "fresh"@,
        800 < ppm <= 1000 ==> air_quality(ppm) == "good"@,
        1000 < ppm <= 1400 ==> air_quality(ppm) == "fair"@,
        1400 < ppm <= 2000 ==> air_quality(ppm) == "stuffy"@,
        2000 < ppm ==> air_quality(ppm) == "poor"@,
        ppm < 100 ==> water_hardness(ppm) == "very soft"@,
        100 <= ppm < 250 ==> water_hardness(ppm) == "soft"@,
        250 <= ppm < 450 ==> water_hardness(ppm) == "moderate"@,
        450 <= ppm < 700 ==> water_hardness(ppm) == "hard"@,
        700 <= ppm ==> water_hardness(ppm) == "very hard"@,
{
}

/// The page shows its title and the way back whatever it has to show, and of
/// the readings all that there is to show of them.
pub proof fn law_page_shows_its_readings(view: EnvironmentView)
    ensures
        screen_picture(view)[0] is BackButton,
        screen_picture(view).len() >= 4,
        view matches EnvironmentView::Ready(readings) ==> screen_picture(view).skip(3)
            == readings_picture(readings_in(readings)),
        view is Loading ==> screen_picture(view)[3] == centered(
            "loading..."@,
            270,
            296,
            Font::Body,
            4,
        ),
        view is Error ==> screen_picture(view)[3] == centered(
            "no readings available"@,
            270,
            296,
            Font::Body,
            4,
        ),
        forall|readings: Seq<Reading>|
            readings.len() == 0 ==> #[trigger] readings_picture(readings) == seq![
                centered("no sensors reporting"@, 270, 296, Font::Body, 4),
            ],
{
    match view {
        EnvironmentView::Ready(readings) => {
            let all = readings_in(readings);
            if all.len() > 0 {
                law_every_reading_is_shown(all, 0);
            }
            assert(screen_picture(view).skip(3) =~= readings_picture(all));
        },
        _ => {},
    }
}

} // verus!
