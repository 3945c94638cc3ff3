//! The info page: the state of the battery, the charger and the clock.
use vstd::prelude::*;
use vstd::string::*;

use crate::layout::{native_of, screen_to_native_rect, NativeRect};
use crate::scene::{
    centered, filled, label, Align, Font, Picture, Scene, Shape, BLACK, WHITE,
};
use crate::text::{
    dec, dec_padded, dec_signed, held, hold, own, push_dec, push_dec_padded, push_int,
};

verus! {

/// Passes of the main loop between refreshes of the page.
pub const INFO_REFRESH_TICKS: u16 = 40;

/// Where the charger gets its power from.
#[derive(Clone, Copy, Debug, PartialEq, Eq, Structural)]
pub enum VbusStatus {
    NoInput,
    UsbHost,
    Adapter,
    Otg,
    Unknown,
}

/// What the charger does.
#[derive(Clone, Copy, Debug, PartialEq, Eq, Structural)]
pub enum ChargeStatus {
    NotCharging,
    PreCharge,
    FastCharge,
    Done,
}

/// The state of the charger.
#[derive(Clone, Copy)]
pub struct Charger {
    pub vbus: VbusStatus,
    pub vbus_mv: u16,
    pub charge_ma: u16,
    pub charge: ChargeStatus,
}

/// What the fuel gauge says.
#[derive(Clone, Copy)]
pub struct Gauge {
    pub remaining_mah: u16,
    pub full_charge_mah: u16,
}

/// What the page shows.
#[derive(Clone, Copy)]
pub struct Info {
    /// Whole volts of the battery, and hundredths.
    pub volts: u32,
    pub centivolts: u32,
    pub temp: i8,
    /// Seconds since the device was started.
    pub uptime: u64,
    /// Seconds since the clock was set, where it was.
    pub since_sync: Option<u64>,
    pub charger: Option<Charger>,
    /// Seconds until the battery is full, where it is being charged.
    pub full_in: Option<u64>,
    pub gauge: Option<Gauge>,
}

/// Seconds since the clock was set, where it was set and not later than now.
pub open spec fn age_of_sync(now_secs: int, last_sync: int) -> Option<int> {
    if last_sync > 0 && now_secs >= last_sync {
        Some(now_secs - last_sync)
    } else {
        None
    }
}

/// What the page shows, given what was read; a battery and a panel that could
/// not be read show as zero.
pub fn read_info(
    volts: Option<(u32, u32)>,
    temp: Option<i8>,
    uptime_us: u64,
    now_us: u64,
    last_sync: u64,
    charger: Option<Charger>,
    full_in: Option<u64>,
    gauge: Option<Gauge>,
) -> (r: Info)
    ensures
        (r.volts, r.centivolts) == match volts {
            Some(v) => v,
            None => (0u32, 0u32),
        },
        r.temp == match temp {
            Some(t) => t,
            None => 0,
        },
        r.uptime == uptime_us / 1_000_000,
        match r.since_sync {
            Some(s) => age_of_sync(now_us as int / 1_000_000, last_sync as int) == Some(s as int),
            None => age_of_sync(now_us as int / 1_000_000, last_sync as int) is None,
        },
        r.charger == charger,
        r.full_in == full_in,
        r.gauge == gauge,
{
    let (whole, hundredths) = match volts {
        Some(v) => v,
        None => (0u32, 0u32),
    };
    let temp: i8 = match temp {
        Some(t) => t,
        None => 0,
    };
    let now_secs: u64 = now_us / 1_000_000;
    let since_sync: Option<u64> = if last_sync > 0 && now_secs >= last_sync {
        Some(now_secs - last_sync)
    } else {
        None
    };
    Info {
        volts: whole,
        centivolts: hundredths,
        temp,
        uptime: uptime_us / 1_000_000,
        since_sync,
        charger,
        full_in,
        gauge,
    }
}

/// A duration: hours and minutes, minutes and seconds, or seconds.
pub open spec fn duration_text(secs: int) -> Seq<char> {
    let h = secs / 3600;
    let m = (secs % 3600) / 60;
    let s = secs % 60;
    if h > 0 {
        dec(h) + "h "@ + dec(m) + "m"@
    } else if m > 0 {
        dec(m) + "m "@ + dec(s) + "s"@
    } else {
        dec(s) + "s"@
    }
}

/// A duration: hours and minutes, minutes and seconds, or seconds.
pub fn format_duration(secs: u64) -> (r: String)
    ensures
        r@ == duration_text(secs as int),
{
    let h: u64 = secs / 3600;
    let m: u64 = (secs % 3600) / 60;
    let s: u64 = secs % 60;
    let mut out: String = String::new();
    if h > 0 {
        push_dec(&mut out, h);
        out.append("h ");
        push_dec(&mut out, m);
        out.append("m");
    } else if m > 0 {
        push_dec(&mut out, m);
        out.append("m ");
        push_dec(&mut out, s);
        out.append("s");
    } else {
        push_dec(&mut out, s);
        out.append("s");
    }
    assert(out@ =~= duration_text(secs as int));
    out
}

/// The name of a source of power.
pub open spec fn source_text(v: VbusStatus) -> Seq<char> {
    match v {
        VbusStatus::NoInput => "none"@,
        VbusStatus::UsbHost => "USB"@,
        VbusStatus::Adapter => "adapter"@,
        VbusStatus::Otg => "OTG"@,
        VbusStatus::Unknown => "unknown"@,
    }
}

/// What the charger does, in words.
pub open spec fn charge_text(c: Option<Charger>) -> Seq<char> {
    match c {
        Some(c) => match c.charge {
            ChargeStatus::NotCharging => "not charging"@,
            ChargeStatus::PreCharge => "pre-charge"@,
            ChargeStatus::FastCharge => "fast charge"@,
            ChargeStatus::Done => "done"@,
        },
        None => "-"@,
    }
}

/// Where the charger gets its power from, and at how many volts.
pub open spec fn input_text(c: Option<Charger>) -> Seq<char> {
    match c {
        Some(c) => if c.vbus_mv > 0 {
            source_text(c.vbus) + " "@ + dec(c.vbus_mv as int / 1000) + "."@ + dec_padded(
                (c.vbus_mv as int % 1000) / 10,
                2,
            ) + " V"@
        } else {
            source_text(c.vbus)
        },
        None => "-"@,
    }
}

/// The current into the battery.
pub open spec fn current_text(c: Option<Charger>) -> Seq<char> {
    match c {
        Some(c) => dec(c.charge_ma as int) + " mA"@,
        None => "-"@,
    }
}

/// The voltage of the battery.
pub open spec fn voltage_text(volts: int, centivolts: int) -> Seq<char> {
    held(dec(volts) + "."@ + dec_padded(centivolts, 2) + " V"@, 16)
}

/// How long ago the clock was set.
pub open spec fn synced_text(since: Option<u64>) -> Seq<char> {
    match since {
        Some(s) => held(duration_text(s as int) + " ago"@, 24),
        None => "never"@,
    }
}

/// How long until the battery is full.
pub open spec fn full_text(full_in: Option<u64>) -> Seq<char> {
    match full_in {
        Some(s) => duration_text(s as int),
        None => "-"@,
    }
}

/// What is in the battery and what it holds.
pub open spec fn capacity_text(g: Option<Gauge>) -> Seq<char> {
    match g {
        Some(g) => dec(g.remaining_mah as int) + "/"@ + dec(g.full_charge_mah as int) + " mAh"@,
        None => "-"@,
    }
}

/// The rows of the page: a name and a value each.
pub open spec fn info_rows(i: Info) -> Seq<(Seq<char>, Seq<char>)> {
    seq![
        ("Model"@, "LilyGo T5 S3 Paper Pro"@),
        ("Battery"@, voltage_text(i.volts as int, i.centivolts as int)),
        ("Temp"@, dec_signed(i.temp as int) + " C"@),
        ("Uptime"@, duration_text(i.uptime as int)),
        ("Synced"@, synced_text(i.since_sync)),
        ("Charge"@, charge_text(i.charger)),
        ("Input"@, input_text(i.charger)),
        ("Current"@, current_text(i.charger)),
        ("Full in"@, full_text(i.full_in)),
        ("Capacity"@, capacity_text(i.gauge)),
    ]
}

/// The first `n` rows, 48 pixels apart.
pub open spec fn rows_picture(rows: Seq<(Seq<char>, Seq<char>)>, n: int) -> Picture
    decreases n,
{
    if n <= 0 {
        seq![]
    } else {
        rows_picture(rows, n - 1) + seq![
            label(rows[n - 1].0, 70, 246 + 48 * (n - 1), Font::Body, BLACK),
            label(rows[n - 1].1, 250, 246 + 48 * (n - 1), Font::Bold, BLACK),
        ]
    }
}

/// The values of the page, over a white ground.
pub open spec fn values_picture(i: Info) -> Picture {
    seq![filled(40, 210, 460, 480, WHITE)] + rows_picture(info_rows(i), 10)
}

/// The current into the battery.
fn current_label(c: Option<Charger>) -> (r: String)
    ensures
        r@ == current_text(c),
{
    match c {
        Some(c) => {
            let mut out: String = String::new();
            push_dec(&mut out, c.charge_ma as u64);
            out.append(" mA");
            out
        },
        None => own("-"),
    }
}

/// Where the charger gets its power from, and at how many volts.
fn input_label(c: Option<Charger>) -> (r: String)
    ensures
        r@ == input_text(c),
{
    match c {
        Some(c) => {
            let mut out: String = own(
                match c.vbus {
                    VbusStatus::NoInput => "none",
                    VbusStatus::UsbHost => "USB",
                    VbusStatus::Adapter => "adapter",
                    VbusStatus::Otg => "OTG",
                    VbusStatus::Unknown => "unknown",
                },
            );
            if c.vbus_mv > 0 {
                out.append(" ");
                push_dec(&mut out, (c.vbus_mv / 1000) as u64);
                out.append(".");
                push_dec_padded(&mut out, ((c.vbus_mv % 1000) / 10) as u64, 2);
                out.append(" V");
            }
            assert(out@ =~= input_text(Some(c)));
            out
        },
        None => own("-"),
    }
}

/// What the charger does, in words.
fn charge_label(c: Option<Charger>) -> (r: &'static str)
    ensures
        r@ == charge_text(c),
{
    match c {
        Some(c) => match c.charge {
            ChargeStatus::NotCharging => "not charging",
            ChargeStatus::PreCharge => "pre-charge",
            ChargeStatus::FastCharge => "fast charge",
            ChargeStatus::Done => "done",
        },
        None => "-",
    }
}

/// Paints one row.
fn draw_row(scene: &mut Scene, name: &str, value: &str, y: i32)
    ensures
        final(scene)@ == old(scene)@ + seq![
            label(name@, 70, y as int, Font::Body, BLACK),
            label(value@, 250, y as int, Font::Bold, BLACK),
        ],
{
    let ghost start = scene@;
    scene.text(name, 70, y, Font::Body, BLACK);
    scene.text(value, 250, y, Font::Bold, BLACK);
    assert(scene@ =~= start + seq![
        label(name@, 70, y as int, Font::Body, BLACK),
        label(value@, 250, y as int, Font::Bold, BLACK),
    ]);
}

/// Paints the values of the page.
pub fn draw_info_values(scene: &mut Scene, info: &Info)
    ensures
        final(scene)@ == old(scene)@ + values_picture(*info),
{
    let ghost start = scene@;
    let ghost rows = info_rows(*info);
    scene.fill(40, 210, 460, 480, WHITE);
    let ghost ground = scene@;
    let mut volt: String = String::new();
    push_dec(&mut volt, info.volts as u64);
    volt.append(".");
    push_dec_padded(&mut volt, info.centivolts as u64, 2);
    volt.append(" V");
    assert(volt@ =~= dec(info.volts as int) + "."@ + dec_padded(info.centivolts as int, 2)
        + " V"@);
    let volt: String = hold(volt, 16);
    assert(volt@ == rows[1].1);
    let mut tmp: String = String::new();
    push_int(&mut tmp, info.temp as i64);
    tmp.append(" C");
    assert(tmp@ =~= rows[2].1);
    let uptime: String = format_duration(info.uptime);
    let synced: String = match info.since_sync {
        Some(s) => {
            let mut b: String = format_duration(s);
            b.append(" ago");
            hold(b, 24)
        },
        None => own("never"),
    };
    assert(synced@ =~= rows[4].1);
    let input: String = input_label(info.charger);
    let current: String = current_label(info.charger);
    let full_in: String = match info.full_in {
        Some(s) => format_duration(s),
        None => own("-"),
    };
    let capacity: String = match info.gauge {
        Some(g) => {
            let mut out: String = String::new();
            push_dec(&mut out, g.remaining_mah as u64);
            out.append("/");
            push_dec(&mut out, g.full_charge_mah as u64);
            out.append(" mAh");
            out
        },
        None => own("-"),
    };
    assert(capacity@ =~= rows[9].1);
    assert(rows_picture(rows, 0) =~= seq![]);
    draw_row(scene, "Model", "LilyGo T5 S3 Paper Pro", 246);
    assert(scene@ =~= ground + rows_picture(rows, 1));
    draw_row(scene, "Battery", volt.as_str(), 294);
    assert(scene@ =~= ground + rows_picture(rows, 2));
    draw_row(scene, "Temp", tmp.as_str(), 342);
    assert(scene@ =~= ground + rows_picture(rows, 3));
    draw_row(scene, "Uptime", uptime.as_str(), 390);
    assert(scene@ =~= ground + rows_picture(rows, 4));
    draw_row(scene, "Synced", synced.as_str(), 438);
    assert(scene@ =~= ground + rows_picture(rows, 5));
    draw_row(scene, "Charge", charge_label(info.charger), 486);
    assert(scene@ =~= ground + rows_picture(rows, 6));
    draw_row(scene, "Input", input.as_str(), 534);
    assert(scene@ =~= ground + rows_picture(rows, 7));
    draw_row(scene, "Current", current.as_str(), 582);
    assert(scene@ =~= ground + rows_picture(rows, 8));
    draw_row(scene, "Full in", full_in.as_str(), 630);
    assert(scene@ =~= ground + rows_picture(rows, 9));
    draw_row(scene, "Capacity", capacity.as_str(), 678);
    assert(scene@ =~= ground + rows_picture(rows, 10));
    assert(scene@ =~= start + values_picture(*info));
}

/// The page.
pub open spec fn screen_picture(i: Info) -> Picture {
    seq![Shape::BackButton, centered("Info"@, 270, 120, Font::Bold, BLACK)] + values_picture(i)
}

/// Paints the page.
pub fn draw_info_screen(scene: &mut Scene, info: &Info)
    ensures
        final(scene)@ == old(scene)@ + screen_picture(*info),
{
    let ghost start = scene@;
    scene.back_button();
    scene.center("Info", 270, 120, Font::Bold, BLACK);
    draw_info_values(scene, info);
    assert(scene@ =~= start + screen_picture(*info));
}

/// The part of the panel that the values fill.
pub fn info_values_rect() -> (r: NativeRect)
    ensures
        r == native_of(40, 210, 460, 480),
{
    screen_to_native_rect(40, 210, 460, 480)
}

/// A duration is told in its two largest units: hours and minutes, or minutes
/// and seconds, or seconds.
pub proof fn law_duration_is_told(h: int, m: int, s: int)
    requires
        0 <= h,
        0 <= m < 60,
        0 <= s < 60,
    ensures
        h > 0 ==> duration_text(3600 * h + 60 * m + s) == dec(h) + "h "@ + dec(m) + "m"@,
        h == 0 && m > 0 ==> duration_text(60 * m + s) == dec(m) + "m "@ + dec(s) + "s"@,
        h == 0 && m == 0 ==> duration_text(s) == dec(s) + "s"@,
{
    let secs = 3600 * h + 60 * m + s;
    assert(secs / 3600 == h);
    assert(secs % 3600 == 60 * m + s);
    assert((60 * m + s) / 60 == m);
    assert(secs % 60 == s);
}

/// The time since the clock was set is what went by since, and unknown where it
/// was never set or is set back.
pub proof fn law_age_of_sync(last: int, went_by: int)
    requires
        0 < last,
        0 <= went_by,
    ensures
        age_of_sync(last + went_by, last) == Some(went_by),
        age_of_sync(went_by, 0) is None,
        went_by > 0 ==> age_of_sync(last, last + went_by) is None,
{
}

/// The voltage at the input is told in volts with two digits behind the point,
/// whatever falls below them cut off; none where there is none.
pub proof fn law_input_voltage_is_told(c: Charger, volts: int, hundredths: int, rest: int)
    requires
        0 <= volts,
        0 <= hundredths < 100,
        0 <= rest < 10,
        c.vbus_mv == 1000 * volts + 10 * hundredths + rest,
    ensures
        c.vbus_mv > 0 ==> input_text(Some(c)) == source_text(c.vbus) + " "@ + dec(volts) + "."@
            + dec_padded(hundredths, 2) + " V"@,
        c.vbus_mv == 0 ==> input_text(Some(c)) == source_text(c.vbus),
        input_text(None) == "-"@,
{
    let mv = c.vbus_mv as int;
    assert(mv / 1000 == volts);
    assert(mv % 1000 == 10 * hundredths + rest);
    assert((10 * hundredths + rest) / 10 == hundredths);
}

/// All ten values are shown, each behind its name in a row of its own, 48
/// pixels apart.
pub proof fn law_every_value_is_shown(i: Info, k: int)
    requires
        0 <= k < 10,
    ensures
        ({
            let shown = values_picture(i);
            let names = seq![
                "Model"@,
                "Battery"@,
                "Temp"@,
                "Uptime"@,
                "Synced"@,
                "Charge"@,
                "Input"@,
                "Current"@,
                "Full in"@,
                "Capacity"@,
            ];
            let values = seq![
                "LilyGo T5 S3 Paper Pro"@,
                held(
                    dec(i.volts as int) + "."@ + dec_padded(i.centivolts as int, 2) + " V"@,
                    16,
                ),
                dec_signed(i.temp as int) + " C"@,
                duration_text(i.uptime as int),
                match i.since_sync {
                    Some(s) => held(duration_text(s as int) + " ago"@, 24),
                    None => "never"@,
                },
                charge_text(i.charger),
                input_text(i.charger),
                match i.charger {
                    Some(c) => dec(c.charge_ma as int) + " mA"@,
                    None => "-"@,
                },
                match i.full_in {
                    Some(s) => duration_text(s as int),
                    None => "-"@,
                },
                match i.gauge {
                    Some(g) => dec(g.remaining_mah as int) + "/"@ + dec(g.full_charge_mah as int)
                        + " mAh"@,
                    None => "-"@,
                },
            ];
            &&& shown.len() == 21
            &&& shown[1 + 2 * k] == (Shape::Text {
                text: names[k],
                x: 70,
                y: (246 + 48 * k) as i32,
                font: Font::Body,
                gray: BLACK,
                align: Align::Left,
            })
            &&& shown[2 + 2 * k] == (Shape::Text {
                text: values[k],
                x: 250,
                y: (246 + 48 * k) as i32,
                font: Font::Bold,
                gray: BLACK,
                align: Align::Left,
            })
        }),
{
    lemma_rows_of_values(info_rows(i), 10, k);
}

/// Two shapes for each row.
proof fn lemma_rows_of_values(rows: Seq<(Seq<char>, Seq<char>)>, n: int, k: int)
    requires
        0 <= k < n,
    ensures
        rows_picture(rows, n).len() == 2 * n,
        rows_picture(rows, n)[2 * k] == label(rows[k].0, 70, 246 + 48 * k, Font::Body, BLACK),
        rows_picture(rows, n)[2 * k + 1] == label(
            rows[k].1,
            250,
            246 + 48 * k,
            Font::Bold,
            BLACK,
        ),
    decreases n,
{
    if n > 1 {
        lemma_rows_of_values(rows, n - 1, 0);
        if k < n - 1 {
            lemma_rows_of_values(rows, n - 1, k);
        }
    } else {
        assert(rows_picture(rows, 0).len() == 0);
    }
}

/// What charges the battery and how far it is, in words.
pub proof fn law_charger_is_told(c: Charger)
    ensures
        source_text(VbusStatus::NoInput) == "none"@,
        source_text(VbusStatus::UsbHost) == "USB"@,
        source_text(VbusStatus::Adapter) == "adapter"@,
        source_text(VbusStatus::Otg) == "OTG"@,
        source_text(VbusStatus::Unknown) == "unknown"@,
        c.charge == ChargeStatus::NotCharging ==> charge_text(Some(c)) == "not charging"@,
        c.charge == ChargeStatus::PreCharge ==> charge_text(Some(c)) == "pre-charge"@,
        c.charge == ChargeStatus::FastCharge ==> charge_text(Some(c)) == "fast charge"@,
        c.charge == ChargeStatus::Done ==> charge_text(Some(c)) == "done"@,
        charge_text(None) == "-"@,
{
}

/// The page is its title, the way back and the values.
pub proof fn law_info_page_shows_the_values(i: Info)
    ensures
        screen_picture(i)[0] is BackButton,
        screen_picture(i)[1] == centered("Info"@, 270, 120, Font::Bold, BLACK),
        screen_picture(i).skip(2) == values_picture(i),
{
    assert(screen_picture(i).skip(2) =~= values_picture(i));
}

} // verus!
