//! The weather page: present conditions and a short forecast.
use vstd::prelude::*;
use vstd::string::*;
use vstd::utf8::*;

use crate::bounded::{codes_in, codes_slice, texts_in, texts_slice};
use crate::date::{day_abbreviation, day_name, is_date, weekday, weekday_of};
use crate::scene::{centered, filled, Align, Font, Picture, Scene, Shape, Sky, BLACK};
use crate::text::{
    self, all_digits, chars_of, dec, dec_padded, held, hold, law_held_text_fits,
    law_number_reads_back, law_zeros_do_not_count, lemma_encode_concat, lemma_numeral_grows,
    numeral_value, own, parse_numeral, parsed,
};

verus! {

/// The host that the forecast is fetched from.
pub const HOST: &'static str = "api.open-meteo.com";

/// Days of the forecast.
pub const FORECAST_DAYS: usize = 3;

/// The present conditions, with their numbers as rounded text.
pub struct Current {
    pub temperature: String,
    pub humidity: String,
    pub apparent: String,
    pub weather_code: u16,
    pub wind: String,
}

/// The forecast: parallel lists with an entry for each day.
pub struct Daily {
    pub time: heapless::Vec<String, 3>,
    pub weather_code: heapless::Vec<u16, 3>,
    pub highs: heapless::Vec<String, 3>,
    pub lows: heapless::Vec<String, 3>,
}

/// What the page shows of a response. The place is given by the sizes of its
/// coordinates, with three digits behind the point, and by the halves of the
/// globe.
pub struct Weather {
    pub latitude: String,
    pub north: bool,
    pub longitude: String,
    pub east: bool,
    pub current: Current,
    pub daily: Daily,
}

/// What the page shows.
pub enum WeatherView {
    Loading,
    /// No position to ask for yet.
    NoFix,
    Ready(Weather),
    Error,
}

impl Daily {
    /// Whether every day of the forecast has an entry in each list.
    pub open spec fn complete(&self) -> bool {
        let n = texts_in(self.time).len();
        &&& n <= codes_in(self.weather_code).len()
        &&& n <= texts_in(self.highs).len()
        &&& n <= texts_in(self.lows).len()
    }

    /// Whether every day of the forecast has an entry in each list.
    pub fn is_complete(&self) -> (r: bool)
        ensures
            r == self.complete(),
    {
        let n: usize = texts_slice(&self.time).len();
        n <= codes_slice(&self.weather_code).len() && n <= texts_slice(&self.highs).len() && n
            <= texts_slice(&self.lows).len()
    }
}

/// Where the forecast for a position is fetched from: the weather now, and that
/// of three days.
pub open spec fn forecast_path(latitude: Seq<char>, longitude: Seq<char>) -> Seq<char> {
    held(
        "/v1/forecast?latitude="@ + latitude + "&longitude="@ + longitude
            + "&current=temperature_2m,relative_humidity_2m,apparent_temperature,weather_code,wind_speed_10m"@
            + "&daily=weather_code,temperature_2m_max,temperature_2m_min"@
            + "&forecast_days=3&timezone=auto"@,
        288,
    )
}

/// Where the forecast for a position is fetched from, given its coordinates
/// with four digits behind the point.
pub fn path(latitude: &str, longitude: &str) -> (r: String)
    ensures
        r@ == forecast_path(latitude@, longitude@),
{
    let mut out: String = own("/v1/forecast?latitude=");
    out.append(latitude);
    out.append("&longitude=");
    out.append(longitude);
    out.append(
        "&current=temperature_2m,relative_humidity_2m,apparent_temperature,weather_code,wind_speed_10m",
    );
    out.append("&daily=weather_code,temperature_2m_max,temperature_2m_min");
    out.append("&forecast_days=3&timezone=auto");
    hold(out, 288)
}

/// The words for a weather code of the World Meteorological Organization.
pub open spec fn condition_text(code: int) -> Seq<char> {
    if code == 0 {
        "Clear"@
    } else if code == 1 {
        "Mainly clear"@
    } else if code == 2 {
        "Partly cloudy"@
    } else if code == 3 {
        "Overcast"@
    } else if code == 45 || code == 48 {
        "Fog"@
    } else if code == 51 || code == 53 || code == 55 {
        "Drizzle"@
    } else if code == 56 || code == 57 {
        "Freezing drizzle"@
    } else if code == 61 || code == 63 || code == 65 {
        "Rain"@
    } else if code == 66 || code == 67 {
        "Freezing rain"@
    } else if code == 71 || code == 73 || code == 75 {
        "Snow"@
    } else if code == 77 {
        "Snow grains"@
    } else if 80 <= code <= 82 {
        "Rain showers"@
    } else if code == 85 || code == 86 {
        "Snow showers"@
    } else if code == 95 {
        "Thunderstorm"@
    } else if code == 96 || code == 99 {
        "Thunderstorm, hail"@
    } else {
        "Unknown"@
    }
}

/// The words for a weather code.
pub fn condition(code: u16) -> (r: &'static str)
    ensures
        r@ == condition_text(code as int),
{
    match code {
        0 => "Clear",
        1 => "Mainly clear",
        2 => "Partly cloudy",
        3 => "Overcast",
        45 | 48 => "Fog",
        51 | 53 | 55 => "Drizzle",
        56 | 57 => "Freezing drizzle",
        61 | 63 | 65 => "Rain",
        66 | 67 => "Freezing rain",
        71 | 73 | 75 => "Snow",
        77 => "Snow grains",
        80..=82 => "Rain showers",
        85 | 86 => "Snow showers",
        95 => "Thunderstorm",
        96 | 99 => "Thunderstorm, hail",
        _ => "Unknown",
    }
}

/// The icon for a weather code.
pub open spec fn sky_of(code: int) -> Sky {
    if code == 0 || code == 1 {
        Sky::Clear
    } else if code == 2 {
        Sky::PartlyCloudy
    } else if code == 45 || code == 48 {
        Sky::Fog
    } else if 51 <= code <= 57 || 61 <= code <= 67 || 80 <= code <= 82 {
        Sky::Rain
    } else if 71 <= code <= 77 || code == 85 || code == 86 {
        Sky::Snow
    } else if 95 <= code <= 99 {
        Sky::Storm
    } else {
        Sky::Cloudy
    }
}

/// The icon for a weather code.
pub fn sky(code: u16) -> (r: Sky)
    ensures
        r == sky_of(code as int),
{
    match code {
        0 | 1 => Sky::Clear,
        2 => Sky::PartlyCloudy,
        3 => Sky::Cloudy,
        45 | 48 => Sky::Fog,
        51..=57 | 61..=67 | 80..=82 => Sky::Rain,
        71..=77 | 85 | 86 => Sky::Snow,
        95..=99 => Sky::Storm,
        _ => Sky::Cloudy,
    }
}

/// The text of the bytes from `a` up to `b`, where there are such and they are
/// whole characters.
pub open spec fn text_between(bytes: Seq<u8>, a: int, b: int) -> Option<Seq<char>> {
    if b <= bytes.len() && valid_utf8(bytes.subrange(a, b)) {
        Some(decode_utf8(bytes.subrange(a, b)))
    } else {
        None
    }
}

/// The number that a text writes, with or without a sign.
pub open spec fn signed_value(s: Seq<char>) -> Option<int> {
    if s.len() > 0 && s[0] == '-' {
        let digits = s.drop_first();
        if digits.len() == 0 || !all_digits(digits, 10) {
            None
        } else {
            Some(-numeral_value(digits, 10))
        }
    } else {
        parsed(s, 10, i64::MAX as int)
    }
}

/// The year, month and day in a text of the form YYYY-MM-DD, whatever stands
/// between them.
pub open spec fn date_parts(bytes: Seq<u8>) -> Option<(int, int, int)> {
    match (text_between(bytes, 0, 4), text_between(bytes, 5, 7), text_between(bytes, 8, 10)) {
        (Some(y), Some(m), Some(d)) => match (
            signed_value(y),
            parsed(m, 10, u32::MAX as int),
            parsed(d, 10, u32::MAX as int),
        ) {
            (Some(y), Some(m), Some(d)) => Some((y, m, d)),
            _ => None,
        },
        _ => None,
    }
}

/// The day of the week of a date, in short; nothing for what is no date.
pub open spec fn day_text(iso: Seq<char>) -> Seq<char> {
    match date_parts(encode_utf8(iso)) {
        Some((y, m, d)) => if is_date(y, m, d) {
            day_name(weekday_of(y, m, d))
        } else {
            ""@
        },
        None => ""@,
    }
}

/// The characters of the bytes from `a` up to `b`.
fn chars_between(bytes: &[u8], a: usize, b: usize) -> (r: Option<Vec<char>>)
    requires
        a <= b,
    ensures
        r is Some <==> text_between(bytes@, a as int, b as int) is Some,
        r matches Some(c) ==> text_between(bytes@, a as int, b as int) == Some(c@),
{
    if b > bytes.len() {
        return None;
    }
    let part: &[u8] = &bytes[a..b];
    assert(part@ =~= bytes@.subrange(a as int, b as int));
    match text::from_utf8(part) {
        Some(s) => {
            proof {
                encode_utf8_decode_utf8(s@);
            }
            Some(chars_of(s))
        },
        None => None,
    }
}

/// At most four digits write a number below ten thousand, and at most three one
/// below a thousand.
proof fn lemma_short_numeral(s: Seq<char>)
    requires
        s.len() <= 4,
        all_digits(s, 10),
    ensures
        0 <= numeral_value(s, 10) <= 9999,
        s.len() <= 3 ==> numeral_value(s, 10) <= 999,
{
    reveal_with_fuel(numeral_value, 5);
    lemma_numeral_grows(s, 10, 0);
    if s.len() >= 1 {
        assert(digit_fits(s, s.len() - 1));
    }
    if s.len() >= 2 {
        assert(digit_fits(s, s.len() - 2));
    }
    if s.len() >= 3 {
        assert(digit_fits(s, s.len() - 3));
    }
    if s.len() >= 4 {
        assert(digit_fits(s, s.len() - 4));
    }
}

/// Whether the character at `i` is a decimal digit.
spec fn digit_fits(s: Seq<char>, i: int) -> bool {
    text::digit_value(s[i]) < 10
}

/// A text of at most four bytes has at most four characters.
proof fn lemma_short_text(bytes: Seq<u8>)
    requires
        valid_utf8(bytes),
    ensures
        decode_utf8(bytes).len() <= bytes.len(),
{
    decode_utf8_encode_utf8(bytes);
    text::lemma_len_le_bytes(decode_utf8(bytes));
}

/// Reads a number of at most four characters, with or without a sign.
fn read_signed(chars: &[char]) -> (r: Option<i64>)
    requires
        chars@.len() <= 4,
    ensures
        r is Some <==> signed_value(chars@) is Some,
        r matches Some(n) ==> signed_value(chars@) == Some(n as int) && -999 <= n <= 9999,
{
    let n: usize = chars.len();
    if n > 0 && chars[0] == '-' {
        let ghost digits = chars@.drop_first();
        assert(digits =~= chars@.subrange(1, n as int));
        if n > 1 && chars[1] == '+' {
            assert(digits[0] == '+');
            assert(text::digit_value(digits[0]) == 16);
            return None;
        }
        match parse_numeral(chars, 1, n, 10, 999) {
            Some(v) => {
                Some(-(v as i64))
            },
            None => {
                proof {
                    if all_digits(digits, 10) {
                        lemma_short_numeral(digits);
                    }
                }
                None
            },
        }
    } else {
        assert(chars@.subrange(0, n as int) =~= chars@);
        proof {
            let digits = if chars@.len() > 0 && chars@[0] == '+' {
                chars@.drop_first()
            } else {
                chars@
            };
            if all_digits(digits, 10) {
                lemma_short_numeral(digits);
            }
        }
        match parse_numeral(chars, 0, n, 10, 9999) {
            Some(v) => Some(v as i64),
            None => None,
        }
    }
}

/// Reads a number without a minus sign.
fn read_unsigned(chars: &[char]) -> (r: Option<u32>)
    ensures
        r is Some <==> parsed(chars@, 10, u32::MAX as int) is Some,
        r matches Some(n) ==> parsed(chars@, 10, u32::MAX as int) == Some(n as int),
{
    assert(chars@.subrange(0, chars@.len() as int) =~= chars@);
    match parse_numeral(chars, 0, chars.len(), 10, u32::MAX as u64) {
        Some(v) => Some(v as u32),
        None => None,
    }
}

/// The day of the week of a date, in short; nothing for what is no date.
pub fn day_label(iso: &str) -> (r: &'static str)
    ensures
        r@ == day_text(iso@),
{
    let bytes: &[u8] = iso.as_bytes();
    let year: Option<i64> = match chars_between(bytes, 0, 4) {
        Some(c) => {
            proof {
                lemma_short_text(bytes@.subrange(0, 4));
            }
            read_signed(c.as_slice())
        },
        None => None,
    };
    let month: Option<u32> = match chars_between(bytes, 5, 7) {
        Some(c) => read_unsigned(c.as_slice()),
        None => None,
    };
    let day: Option<u32> = match chars_between(bytes, 8, 10) {
        Some(c) => read_unsigned(c.as_slice()),
        None => None,
    };
    match (year, month, day) {
        (Some(y), Some(m), Some(d)) => {
            match weekday(y, m, d) {
                Some(w) => day_abbreviation(w),
                None => "",
            }
        },
        _ => "",
    }
}

/// The text in the middle of the screen.
pub open spec fn in_middle(text: Seq<char>, y: int, font: Font, gray: u8) -> Shape<Seq<char>> {
    centered(text, 270, y, font, gray)
}

/// The place that a forecast is for.
pub open spec fn place_text(w: Weather) -> Seq<char> {
    held(
        w.latitude@ + (if w.north {
            " N, "@
        } else {
            " S, "@
        }) + w.longitude@ + (if w.east {
            " E"@
        } else {
            " W"@
        }),
        32,
    )
}

/// The place that a forecast is for.
fn place_label(w: &Weather) -> (r: String)
    ensures
        r@ == place_text(*w),
{
    let mut out: String = own(w.latitude.as_str());
    out.append(
        if w.north {
            " N, "
        } else {
            " S, "
        },
    );
    out.append(w.longitude.as_str());
    out.append(
        if w.east {
            " E"
        } else {
            " W"
        },
    );
    hold(out, 32)
}

/// The present conditions: icon, temperature, words, and three numbers below.
pub open spec fn current_picture(c: Current) -> Picture {
    seq![
        Shape::Icon { sky: sky_of(c.weather_code as int), small: false, x: 270, y: 232 },
        Shape::Text {
            text: held(c.temperature@ + "\u{b0}C"@, 12),
            x: 270,
            y: 346,
            font: Font::Hero,
            gray: BLACK,
            align: Align::Center,
        },
        in_middle(condition_text(c.weather_code as int), 390, Font::Bold, BLACK),
        centered("feels like"@, 90, 470, Font::Body, 4),
        centered(held(c.apparent@ + " C"@, 12), 90, 502, Font::Bold, BLACK),
        centered("humidity"@, 270, 470, Font::Body, 4),
        centered(held(c.humidity@ + " %"@, 12), 270, 502, Font::Bold, BLACK),
        centered("wind"@, 450, 470, Font::Body, 4),
        centered(held(c.wind@ + " km/h"@, 12), 450, 502, Font::Bold, BLACK),
    ]
}

/// A value with its unit behind it.
fn with_unit(value: &str, unit: &str) -> (r: String)
    ensures
        r@ == held(value@ + unit@, 12),
{
    let mut out: String = own(value);
    out.append(unit);
    hold(out, 12)
}

/// Paints the present conditions.
fn draw_current(scene: &mut Scene, c: &Current)
    ensures
        final(scene)@ == old(scene)@ + current_picture(*c),
{
    let ghost start = scene@;
    scene.icon(sky(c.weather_code), false, 270, 232);
    let temp: String = with_unit(c.temperature.as_str(), "\u{b0}C");
    scene.center(temp.as_str(), 270, 346, Font::Hero, BLACK);
    scene.center(condition(c.weather_code), 270, 390, Font::Bold, BLACK);
    let feels: String = with_unit(c.apparent.as_str(), " C");
    let hum: String = with_unit(c.humidity.as_str(), " %");
    let wind: String = with_unit(c.wind.as_str(), " km/h");
    scene.center("feels like", 90, 470, Font::Body, 4);
    scene.center(feels.as_str(), 90, 502, Font::Bold, BLACK);
    scene.center("humidity", 270, 470, Font::Body, 4);
    scene.center(hum.as_str(), 270, 502, Font::Bold, BLACK);
    scene.center("wind", 450, 470, Font::Body, 4);
    scene.center(wind.as_str(), 450, 502, Font::Bold, BLACK);
    assert(scene@ =~= start + current_picture(*c));
}

/// How far apart the columns of `days` days stand.
pub open spec fn column_step(days: int) -> int {
    if days <= 1 {
        270
    } else {
        540int / (days + 1)
    }
}

/// One day of the forecast.
pub open spec fn day_picture(
    date: Seq<char>,
    code: u16,
    high: Seq<char>,
    low: Seq<char>,
    cx: int,
) -> Picture {
    seq![
        centered(day_text(date), cx, 636, Font::Bold, BLACK),
        Shape::Icon { sky: sky_of(code as int), small: true, x: cx as i32, y: 680 },
        centered(held(high + " / "@ + low, 16), cx, 734, Font::Bold, BLACK),
    ]
}

/// The first `n` days of the forecast, `step` apart.
pub open spec fn days_picture(
    time: Seq<String>,
    codes: Seq<u16>,
    highs: Seq<String>,
    lows: Seq<String>,
    n: int,
    step: int,
) -> Picture
    decreases n,
{
    if n <= 0 {
        seq![]
    } else {
        days_picture(time, codes, highs, lows, n - 1, step) + day_picture(
            time[n - 1]@,
            codes[n - 1],
            highs[n - 1]@,
            lows[n - 1]@,
            step * n,
        )
    }
}

/// The forecast of lists of days under a divider.
pub open spec fn forecast_of(
    time: Seq<String>,
    codes: Seq<u16>,
    highs: Seq<String>,
    lows: Seq<String>,
) -> Picture {
    let days = if time.len() < 3 {
        time.len() as int
    } else {
        3
    };
    seq![filled(30, 560, 480, 2, 8), in_middle("forecast"@, 600, Font::Body, 4)] + days_picture(
        time,
        codes,
        highs,
        lows,
        days,
        column_step(days),
    )
}

/// The forecast under a divider.
pub open spec fn forecast_picture(d: Daily) -> Picture {
    forecast_of(
        texts_in(d.time),
        codes_in(d.weather_code),
        texts_in(d.highs),
        texts_in(d.lows),
    )
}

/// Paints the forecast of lists of days.
pub fn draw_days(
    scene: &mut Scene,
    time: &[String],
    codes: &[u16],
    highs: &[String],
    lows: &[String],
)
    requires
        time@.len() <= codes@.len(),
        time@.len() <= highs@.len(),
        time@.len() <= lows@.len(),
    ensures
        final(scene)@ == old(scene)@ + forecast_of(time@, codes@, highs@, lows@),
{
    let ghost start = scene@;
    scene.fill(30, 560, 480, 2, 8);
    scene.center("forecast", 270, 600, Font::Body, 4);
    let ghost headed = scene@;
    let days: usize = if time.len() < FORECAST_DAYS {
        time.len()
    } else {
        FORECAST_DAYS
    };
    let step: i32 = if days <= 1 {
        270
    } else if days == 2 {
        180
    } else {
        135
    };
    assert(step == column_step(days as int));
    let mut cx: i32 = 0;
    let mut i: usize = 0;
    while i < days
        invariant
            i <= days <= 3,
            days <= time@.len(),
            time@.len() <= codes@.len(),
            time@.len() <= highs@.len(),
            time@.len() <= lows@.len(),
            0 <= step <= 270,
            cx == step * i,
            0 <= cx <= 1000,
            scene@ == headed + days_picture(
                time@,
                codes@,
                highs@,
                lows@,
                i as int,
                step as int,
            ),
        decreases days - i,
    {
        assert(step * (i + 1) == step * i + step) by (nonlinear_arith);
        assert(step * (i + 1) <= 810) by (nonlinear_arith)
            requires
                0 <= step <= 270,
                0 <= i < 3,
        ;
        cx = cx + step;
        let ghost before = scene@;
        scene.center(day_label(time[i].as_str()), cx, 636, Font::Bold, BLACK);
        scene.icon(sky(codes[i]), true, cx, 680);
        let mut hilo: String = own(highs[i].as_str());
        hilo.append(" / ");
        hilo.append(lows[i].as_str());
        let hilo: String = hold(hilo, 16);
        scene.center(hilo.as_str(), cx, 734, Font::Bold, BLACK);
        assert(scene@ =~= before + day_picture(
            time@[i as int]@,
            codes@[i as int],
            highs@[i as int]@,
            lows@[i as int]@,
            cx as int,
        ));
        i = i + 1;
        assert(cx == step * i);
        assert(scene@ =~= headed + days_picture(
            time@,
            codes@,
            highs@,
            lows@,
            i as int,
            step as int,
        ));
    }
    assert(scene@ =~= start + forecast_of(time@, codes@, highs@, lows@));
}

/// Paints the forecast.
fn draw_forecast(scene: &mut Scene, daily: &Daily)
    requires
        daily.complete(),
    ensures
        final(scene)@ == old(scene)@ + forecast_picture(*daily),
{
    draw_days(
        scene,
        texts_slice(&daily.time),
        codes_slice(&daily.weather_code),
        texts_slice(&daily.highs),
        texts_slice(&daily.lows),
    );
}

/// The page.
pub open spec fn screen_picture(view: WeatherView) -> Picture {
    seq![Shape::BackButton, in_middle("Weather"@, 120, Font::Bold, BLACK)] + match view {
        WeatherView::Loading => seq![in_middle("loading..."@, 360, Font::Body, 4)],
        WeatherView::NoFix => seq![in_middle("waiting for GPS fix..."@, 360, Font::Body, 4)],
        WeatherView::Error => seq![
            in_middle("could not reach weather service"@, 360, Font::Body, 4),
        ],
        WeatherView::Ready(w) => seq![in_middle(place_text(w), 160, Font::Body, 4)]
            + current_picture(w.current) + forecast_picture(w.daily),
    }
}

/// Paints the page.
pub fn draw_screen(scene: &mut Scene, view: &WeatherView)
    requires
        view matches WeatherView::Ready(w) ==> w.daily.complete(),
    ensures
        final(scene)@ == old(scene)@ + screen_picture(*view),
{
    let ghost start = scene@;
    scene.back_button();
    scene.center("Weather", 270, 120, Font::Bold, BLACK);
    match view {
        WeatherView::Loading => scene.center("loading...", 270, 360, Font::Body, 4),
        WeatherView::NoFix => scene.center("waiting for GPS fix...", 270, 360, Font::Body, 4),
        WeatherView::Error => scene.center(
            "could not reach weather service",
            270,
            360,
            Font::Body,
            4,
        ),
        WeatherView::Ready(w) => {
            let place: String = place_label(w);
            scene.center(place.as_str(), 270, 160, Font::Body, 4);
            draw_current(scene, &w.current);
            draw_forecast(scene, &w.daily);
        },
    }
    assert(scene@ =~= start + screen_picture(*view));
}

/// Every day of the response, up to three of them, is in the forecast, and
/// nothing else below its heading: the day of the week, the icon of its
/// weather and its temperatures stand one below the other, in the column of
/// the day of as many evenly spaced ones as there are days.
pub proof fn law_every_day_is_shown(
    time: Seq<String>,
    codes: Seq<u16>,
    highs: Seq<String>,
    lows: Seq<String>,
    i: int,
)
    requires
        0 <= i < time.len(),
        i < 3,
        time.len() <= codes.len(),
        time.len() <= highs.len(),
        time.len() <= lows.len(),
    ensures
        ({
            let shown = forecast_of(time, codes, highs, lows);
            let days = if time.len() < 3 {
                time.len() as int
            } else {
                3
            };
            let x = ((i + 1) * (540int / (days + 1))) as i32;
            &&& shown.len() == 2 + 3 * days
            &&& 0 < x < 540
            &&& shown[2 + 3 * i] == (Shape::Text {
                text: day_text(time[i]@),
                x,
                y: 636,
                font: Font::Bold,
                gray: BLACK,
                align: Align::Center,
            })
            &&& shown[3 + 3 * i] == (Shape::<Seq<char>>::Icon {
                sky: sky_of(codes[i] as int),
                small: true,
                x,
                y: 680,
            })
            &&& shown[4 + 3 * i] == (Shape::Text {
                text: held(highs[i]@ + " / "@ + lows[i]@, 16),
                x,
                y: 734,
                font: Font::Bold,
                gray: BLACK,
                align: Align::Center,
            })
        }),
{
    let days = if time.len() < 3 {
        time.len() as int
    } else {
        3
    };
    let step = column_step(days);
    assert(540int / (days + 1) == if days == 1 {
        270int
    } else if days == 2 {
        180
    } else {
        135
    }) by (nonlinear_arith)
        requires
            1 <= days <= 3,
    ;
    lemma_days_in_columns(time, codes, highs, lows, days, step, i);
    assert(step * (i + 1) == (i + 1) * step) by (nonlinear_arith);
    assert(0 < (i + 1) * step < 540) by (nonlinear_arith)
        requires
            0 <= i < days,
            days == 1 && step == 270 || days == 2 && step == 180 || days == 3 && step == 135,
    ;
}

/// Three shapes for each day, those of a day in its column.
proof fn lemma_days_in_columns(
    time: Seq<String>,
    codes: Seq<u16>,
    highs: Seq<String>,
    lows: Seq<String>,
    n: int,
    step: int,
    i: int,
)
    requires
        0 <= i < n,
    ensures
        days_picture(time, codes, highs, lows, n, step).len() == 3 * n,
        days_picture(time, codes, highs, lows, n, step).subrange(3 * i, 3 * i + 3) == day_picture(
            time[i]@,
            codes[i],
            highs[i]@,
            lows[i]@,
            step * (i + 1),
        ),
    decreases n,
{
    let before = days_picture(time, codes, highs, lows, n - 1, step);
    let whole = days_picture(time, codes, highs, lows, n, step);
    if n == 1 {
        assert(before =~= seq![]);
    } else {
        lemma_days_in_columns(time, codes, highs, lows, n - 1, step, 0);
    }
    if i == n - 1 {
        assert(whole.subrange(3 * i, 3 * i + 3) =~= day_picture(
            time[i]@,
            codes[i],
            highs[i]@,
            lows[i]@,
            step * n,
        ));
    } else {
        lemma_days_in_columns(time, codes, highs, lows, n - 1, step, i);
        assert(whole.subrange(3 * i, 3 * i + 3) =~= before.subrange(3 * i, 3 * i + 3));
    }
}

/// A date of the response is shown as its day of the week, whatever the date.
pub proof fn law_date_is_shown_as_its_day(y: int, m: int, d: int)
    requires
        0 <= y <= 9999,
        is_date(y, m, d),
    ensures
        day_text(dec_padded(y, 4) + "-"@ + dec_padded(m, 2) + "-"@ + dec_padded(d, 2)) == day_name(
            weekday_of(y, m, d),
        ),
{
    reveal_strlit("-");
    let ys = dec_padded(y, 4);
    let ms = dec_padded(m, 2);
    let ds = dec_padded(d, 2);
    lemma_field(y, 4);
    lemma_field(m, 2);
    lemma_field(d, 2);
    let iso = ys + "-"@ + ms + "-"@ + ds;
    let bytes = encode_utf8(iso);
    lemma_encode_concat(ys + "-"@ + ms + "-"@, ds);
    lemma_encode_concat(ys + "-"@ + ms, "-"@);
    lemma_encode_concat(ys + "-"@, ms);
    lemma_encode_concat(ys, "-"@);
    is_ascii_chars_encode_utf8("-"@);
    assert(bytes.subrange(0, 4) =~= encode_utf8(ys));
    assert(bytes.subrange(5, 7) =~= encode_utf8(ms));
    assert(bytes.subrange(8, 10) =~= encode_utf8(ds));
}

/// A number that fills a field of a date is read from it as it was.
proof fn lemma_field(n: int, width: int)
    requires
        0 <= n,
        width == 4 && n <= 9999 || width == 2 && n <= 99,
    ensures
        dec_padded(n, width).len() == width,
        encode_utf8(dec_padded(n, width)).len() == width,
        valid_utf8(encode_utf8(dec_padded(n, width))),
        decode_utf8(encode_utf8(dec_padded(n, width))) == dec_padded(n, width),
        parsed(dec_padded(n, width), 10, u32::MAX as int) == Some(n),
        signed_value(dec_padded(n, width)) == Some(n),
{
    let s = dec_padded(n, width);
    reveal_with_fuel(dec, 4);
    law_number_reads_back(n);
    assert(s.len() == width);
    law_zeros_do_not_count(n, width - dec(n).len());
    assert(is_ascii_chars(s));
    is_ascii_chars_encode_utf8(s);
    encode_utf8_valid_utf8(s);
    encode_utf8_decode_utf8(s);
    assert(digit_fits(s, 0));
    assert(s[0] != '+' && s[0] != '-');
}

/// Every weather code has its words.
pub proof fn law_codes_have_their_words(code: int)
    ensures
        code == 0 ==> condition_text(code) == "Clear"@,
        code == 1 ==> condition_text(code) == "Mainly clear"@,
        code == 2 ==> condition_text(code) == "Partly cloudy"@,
        code == 3 ==> condition_text(code) == "Overcast"@,
        seq![45int, 48].contains(code) ==> condition_text(code) == "Fog"@,
        seq![51int, 53, 55].contains(code) ==> condition_text(code) == "Drizzle"@,
        seq![56int, 57].contains(code) ==> condition_text(code) == "Freezing drizzle"@,
        seq![61int, 63, 65].contains(code) ==> condition_text(code) == "Rain"@,
        seq![66int, 67].contains(code) ==> condition_text(code) == "Freezing rain"@,
        seq![71int, 73, 75].contains(code) ==> condition_text(code) == "Snow"@,
        code == 77 ==> condition_text(code) == "Snow grains"@,
        seq![80int, 81, 82].contains(code) ==> condition_text(code) == "Rain showers"@,
        seq![85int, 86].contains(code) ==> condition_text(code) == "Snow showers"@,
        code == 95 ==> condition_text(code) == "Thunderstorm"@,
        seq![96int, 99].contains(code) ==> condition_text(code) == "Thunderstorm, hail"@,
        !seq![
            0int, 1, 2, 3, 45, 48, 51, 53, 55, 56, 57, 61, 63, 65, 66, 67, 71, 73, 75, 77, 80, 81,
            82, 85, 86, 95, 96, 99,
        ].contains(code) ==> condition_text(code) == "Unknown"@,
{
    let all = seq![
        0int, 1, 2, 3, 45, 48, 51, 53, 55, 56, 57, 61, 63, 65, 66, 67, 71, 73, 75, 77, 80, 81, 82,
        85, 86, 95, 96, 99,
    ];
    if !all.contains(code) {
        assert(all[0] == 0 && all[1] == 1 && all[2] == 2 && all[3] == 3 && all[4] == 45 && all[5]
            == 48 && all[6] == 51 && all[7] == 53 && all[8] == 55 && all[9] == 56 && all[10] == 57
            && all[11] == 61 && all[12] == 63 && all[13] == 65 && all[14] == 66 && all[15] == 67
            && all[16] == 71 && all[17] == 73 && all[18] == 75 && all[19] == 77 && all[20] == 80
            && all[21] == 81 && all[22] == 82 && all[23] == 85 && all[24] == 86 && all[25] == 95
            && all[26] == 96 && all[27] == 99);
    }
}

/// The icon agrees with the words: a clear sky is shown as clear, fog as fog,
/// whatever rains as rain, snow as snow and thunder as a storm.
pub proof fn law_icons_agree_with_words(code: int)
    ensures
        condition_text(code) == "Clear"@ || condition_text(code) == "Mainly clear"@ ==> sky_of(
            code,
        ) == Sky::Clear,
        code == 2 ==> sky_of(code) == Sky::PartlyCloudy,
        code == 3 ==> sky_of(code) == Sky::Cloudy,
        code == 45 || code == 48 ==> sky_of(code) == Sky::Fog,
        50 < code < 58 || 60 < code < 68 || 79 < code < 83 ==> sky_of(code) == Sky::Rain,
        70 < code < 78 || 84 < code < 87 ==> sky_of(code) == Sky::Snow,
        94 < code < 100 ==> sky_of(code) == Sky::Storm,
        sky_of(code) == Sky::Rain <==> 50 < code < 58 || 60 < code < 68 || 79 < code < 83,
        sky_of(code) == Sky::Snow <==> 70 < code < 78 || 84 < code < 87,
        sky_of(code) == Sky::Storm <==> 94 < code < 100,
{
    reveal_strlit("Clear");
    reveal_strlit("Mainly clear");
    reveal_strlit("Partly cloudy");
    reveal_strlit("Overcast");
    reveal_strlit("Fog");
    reveal_strlit("Drizzle");
    reveal_strlit("Freezing drizzle");
    reveal_strlit("Rain");
    reveal_strlit("Freezing rain");
    reveal_strlit("Snow");
    reveal_strlit("Snow grains");
    reveal_strlit("Rain showers");
    reveal_strlit("Snow showers");
    reveal_strlit("Thunderstorm");
    reveal_strlit("Thunderstorm, hail");
    reveal_strlit("Unknown");
    let s = condition_text(code);
    if s == "Clear"@ || s == "Mainly clear"@ {
        assert(s.len() == 5 || s.len() == 12);
        assert(s[0] == 'C' || s[0] == 'M');
        assert("Rain showers"@[0] == 'R');
        assert("Snow showers"@[0] == 'S');
        assert("Thunderstorm"@[0] == 'T');
    }
}

/// The weather of the moment is shown with its icon, temperature and words, and
/// below them how it feels, how humid and how windy it is, each with its unit.
pub proof fn law_weather_of_the_moment_is_shown(c: Current)
    ensures
        ({
            let shown = current_picture(c);
            &&& shown.len() == 9
            &&& shown[0] == (Shape::<Seq<char>>::Icon {
                sky: sky_of(c.weather_code as int),
                small: false,
                x: 270,
                y: 232,
            })
            &&& shown[1] == centered(
                held(c.temperature@ + "\u{b0}C"@, 12),
                270,
                346,
                Font::Hero,
                BLACK,
            )
            &&& shown[2] == centered(
                condition_text(c.weather_code as int),
                270,
                390,
                Font::Bold,
                BLACK,
            )
            &&& shown[4] == centered(held(c.apparent@ + " C"@, 12), 90, 502, Font::Bold, BLACK)
            &&& shown[6] == centered(held(c.humidity@ + " %"@, 12), 270, 502, Font::Bold, BLACK)
            &&& shown[8] == centered(held(c.wind@ + " km/h"@, 12), 450, 502, Font::Bold, BLACK)
        }),
{
}

/// A response is shown whole: where it is for, the weather of the moment and
/// the forecast, below the title and the way back.
pub proof fn law_response_is_shown_whole(w: Weather)
    ensures
        ({
            let shown = screen_picture(WeatherView::Ready(w));
            let days = forecast_of(
                texts_in(w.daily.time),
                codes_in(w.daily.weather_code),
                texts_in(w.daily.highs),
                texts_in(w.daily.lows),
            );
            &&& shown[0] is BackButton
            &&& shown[2] == centered(
                held(
                    w.latitude@ + (if w.north {
                        " N, "@
                    } else {
                        " S, "@
                    }) + w.longitude@ + (if w.east {
                        " E"@
                    } else {
                        " W"@
                    }),
                    32,
                ),
                270,
                160,
                Font::Body,
                4,
            )
            &&& shown.subrange(3, 12) == current_picture(w.current)
            &&& shown.skip(12) == days
        }),
{
    let shown = screen_picture(WeatherView::Ready(w));
    assert(shown.subrange(3, 12) =~= current_picture(w.current));
    assert(shown.skip(12) =~= forecast_picture(w.daily));
}

/// The forecast is asked for with the place as it was given, whole, as long as
/// the request fits.
pub proof fn law_forecast_is_asked_for_the_place(latitude: Seq<char>, longitude: Seq<char>)
    requires
        encode_utf8(latitude).len() + encode_utf8(longitude).len() <= 60,
    ensures
        ({
            let path = forecast_path(latitude, longitude);
            let at = latitude.len() as int;
            &&& path.take(22) == "/v1/forecast?latitude="@
            &&& path.subrange(22, 22 + at) == latitude
            &&& path.subrange(22 + at, 33 + at) == "&longitude="@
            &&& path.subrange(33 + at, 33 + at + longitude.len()) == longitude
            &&& path.skip(33 + at + longitude.len())
                == "&current=temperature_2m,relative_humidity_2m,apparent_temperature,weather_code,wind_speed_10m"@
                + "&daily=weather_code,temperature_2m_max,temperature_2m_min"@
                + "&forecast_days=3&timezone=auto"@
        }),
{
    reveal_strlit("/v1/forecast?latitude=");
    reveal_strlit("&longitude=");
    reveal_strlit(
        "&current=temperature_2m,relative_humidity_2m,apparent_temperature,weather_code,wind_speed_10m",
    );
    reveal_strlit("&daily=weather_code,temperature_2m_max,temperature_2m_min");
    reveal_strlit("&forecast_days=3&timezone=auto");
    let a = "/v1/forecast?latitude="@;
    let b = "&longitude="@;
    let c = "&current=temperature_2m,relative_humidity_2m,apparent_temperature,weather_code,wind_speed_10m"@;
    let d = "&daily=weather_code,temperature_2m_max,temperature_2m_min"@;
    let e = "&forecast_days=3&timezone=auto"@;
    let whole = a + latitude + b + longitude + c + d + e;
    is_ascii_chars_encode_utf8(a);
    is_ascii_chars_encode_utf8(b);
    is_ascii_chars_encode_utf8(c);
    is_ascii_chars_encode_utf8(d);
    is_ascii_chars_encode_utf8(e);
    lemma_encode_concat(a + latitude + b + longitude + c + d, e);
    lemma_encode_concat(a + latitude + b + longitude + c, d);
    lemma_encode_concat(a + latitude + b + longitude, c);
    lemma_encode_concat(a + latitude + b, longitude);
    lemma_encode_concat(a + latitude, b);
    lemma_encode_concat(a, latitude);
    assert(encode_utf8(whole).len() <= 288);
    law_held_text_fits(whole, 288);
    let at = latitude.len() as int;
    assert(whole.take(22) =~= a);
    assert(whole.subrange(22, 22 + at) =~= latitude);
    assert(whole.subrange(22 + at, 33 + at) =~= b);
    assert(whole.subrange(33 + at, 33 + at + longitude.len()) =~= longitude);
    assert(whole.skip(33 + at + longitude.len()) =~= c + d + e);
}

/// What is written in the form of a date but is none has no day of the week.
pub proof fn law_no_day_without_a_date(y: int, m: int, d: int)
    requires
        0 <= y <= 9999,
        0 <= m <= 99,
        0 <= d <= 99,
        !is_date(y, m, d),
    ensures
        day_text(dec_padded(y, 4) + "-"@ + dec_padded(m, 2) + "-"@ + dec_padded(d, 2)) == ""@,
{
    reveal_strlit("-");
    let ys = dec_padded(y, 4);
    let ms = dec_padded(m, 2);
    let ds = dec_padded(d, 2);
    lemma_field(y, 4);
    lemma_field(m, 2);
    lemma_field(d, 2);
    let iso = ys + "-"@ + ms + "-"@ + ds;
    let bytes = encode_utf8(iso);
    lemma_encode_concat(ys + "-"@ + ms + "-"@, ds);
    lemma_encode_concat(ys + "-"@ + ms, "-"@);
    lemma_encode_concat(ys + "-"@, ms);
    lemma_encode_concat(ys, "-"@);
    is_ascii_chars_encode_utf8("-"@);
    assert(bytes.subrange(0, 4) =~= encode_utf8(ys));
    assert(bytes.subrange(5, 7) =~= encode_utf8(ms));
    assert(bytes.subrange(8, 10) =~= encode_utf8(ds));
}

/// A response is complete where every day has its weather and its
/// temperatures.
pub proof fn law_complete_response(d: Daily)
    ensures
        d.complete() <==> forall|i: int|
            0 <= i < texts_in(d.time).len() ==> #[trigger] has_day(d, i),
{
    if d.complete() {
        assert(forall|i: int| 0 <= i < texts_in(d.time).len() ==> #[trigger] has_day(d, i));
    } else {
        let n = texts_in(d.time).len() as int;
        assert(n > 0);
        assert(!has_day(d, n - 1));
    }
}

/// Whether a day has its weather and its temperatures.
pub open spec fn has_day(d: Daily, i: int) -> bool {
    &&& i < codes_in(d.weather_code).len()
    &&& i < texts_in(d.highs).len()
    &&& i < texts_in(d.lows).len()
}

/// The page says why there is no weather to show.
pub proof fn law_missing_weather_is_explained()
    ensures
        screen_picture(WeatherView::Loading)[2] == centered(
            "loading..."@,
            270,
            360,
            Font::Body,
            4,
        ),
        screen_picture(WeatherView::NoFix)[2] == centered(
            "waiting for GPS fix..."@,
            270,
            360,
            Font::Body,
            4,
        ),
        screen_picture(WeatherView::Error)[2] == centered(
            "could not reach weather service"@,
            270,
            360,
            Font::Body,
            4,
        ),
{
}

/// The forecast has its divider and its heading, and nothing else where no day
/// is told.
pub proof fn law_forecast_has_its_heading(
    time: Seq<String>,
    codes: Seq<u16>,
    highs: Seq<String>,
    lows: Seq<String>,
)
    ensures
        ({
            let shown = forecast_of(time, codes, highs, lows);
            &&& shown.len() >= 2
            &&& shown[0] == filled(30, 560, 480, 2, 8)
            &&& shown[1] == centered("forecast"@, 270, 600, Font::Body, 4)
            &&& time.len() == 0 ==> shown.len() == 2
        }),
{
}

} // verus!
