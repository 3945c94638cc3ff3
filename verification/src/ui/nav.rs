//! Screens, and moving between them.
use vstd::prelude::*;

verus! {

/// The screens.
#[derive(Clone, Copy, Debug, PartialEq, Eq, Structural)]
pub enum Screen {
    Home,
    Gps,
    Lora,
    Frontlight,
    Sleep,
    Info,
    Files,
    Image,
    Reader,
    Settings,
    SettingsSystem,
    SettingsReader,
    SettingsWifi,
    Music,
    Notes,
    NoteEdit,
    Environment,
    Weather,
    Library,
    MapFull,
}

impl Screen {
    /// The number that a screen is remembered by over a deep sleep.
    pub open spec fn index(self) -> u8 {
        match self {
            Screen::Home => 0,
            Screen::Gps => 1,
            Screen::Lora => 2,
            Screen::Frontlight => 3,
            Screen::Sleep => 4,
            Screen::Info => 5,
            Screen::Files => 6,
            Screen::Image => 7,
            Screen::Reader => 8,
            Screen::Settings => 9,
            Screen::SettingsSystem => 10,
            Screen::SettingsReader => 11,
            Screen::SettingsWifi => 12,
            Screen::Music => 13,
            Screen::Notes => 14,
            Screen::NoteEdit => 15,
            Screen::Environment => 16,
            Screen::Weather => 17,
            Screen::Library => 18,
            Screen::MapFull => 19,
        }
    }

    /// The number that a screen is remembered by over a deep sleep.
    pub fn to_index(self) -> (r: u8)
        ensures
            r == self.index(),
    {
        match self {
            Screen::Home => 0,
            Screen::Gps => 1,
            Screen::Lora => 2,
            Screen::Frontlight => 3,
            Screen::Sleep => 4,
            Screen::Info => 5,
            Screen::Files => 6,
            Screen::Image => 7,
            Screen::Reader => 8,
            Screen::Settings => 9,
            Screen::SettingsSystem => 10,
            Screen::SettingsReader => 11,
            Screen::SettingsWifi => 12,
            Screen::Music => 13,
            Screen::Notes => 14,
            Screen::NoteEdit => 15,
            Screen::Environment => 16,
            Screen::Weather => 17,
            Screen::Library => 18,
            Screen::MapFull => 19,
        }
    }

    /// The screen that a number stands for; the home screen for one that
    /// stands for none.
    pub fn from_index(i: u8) -> (r: Self)
        ensures
            i <= 19 ==> r.index() == i,
            i > 19 ==> r == Screen::Home,
    {
        match i {
            1 => Screen::Gps,
            2 => Screen::Lora,
            3 => Screen::Frontlight,
            4 => Screen::Sleep,
            5 => Screen::Info,
            6 => Screen::Files,
            7 => Screen::Image,
            8 => Screen::Reader,
            9 => Screen::Settings,
            10 => Screen::SettingsSystem,
            11 => Screen::SettingsReader,
            12 => Screen::SettingsWifi,
            13 => Screen::Music,
            14 => Screen::Notes,
            15 => Screen::NoteEdit,
            16 => Screen::Environment,
            17 => Screen::Weather,
            18 => Screen::Library,
            19 => Screen::MapFull,
            _ => Screen::Home,
        }
    }

    /// Whether the screen is one of the settings.
    pub open spec fn of_settings(self) -> bool {
        self == Screen::Settings || self == Screen::SettingsSystem || self
            == Screen::SettingsReader || self == Screen::SettingsWifi
    }

    /// Whether the screen leaves no room for the status bar.
    pub open spec fn whole(self) -> bool {
        self == Screen::Image || self == Screen::MapFull
    }

    /// Whether the screen leaves no room for the status bar.
    pub fn hides_status_bar(self) -> (r: bool)
        ensures
            r == self.whole(),
    {
        self == Screen::Image || self == Screen::MapFull
    }
}

/// No two screens are remembered by the same number, so that a device wakes on
/// the screen it went to sleep on.
pub proof fn law_screens_are_remembered(a: Screen, b: Screen)
    requires
        a.index() == b.index(),
    ensures
        a == b,
{
}

/// The screen to begin with: the one that was up when a deep sleep began, and
/// the home screen after any other reset.
pub fn first_screen(woke: bool, remembered: u8) -> (r: Screen)
    ensures
        !woke ==> r == Screen::Home,
        woke && remembered <= 19 ==> r.index() == remembered,
        woke && remembered > 19 ==> r == Screen::Home,
{
    if woke {
        Screen::from_index(remembered)
    } else {
        Screen::Home
    }
}

/// The screen that is up, and whether it is to be painted anew.
#[derive(Clone, Copy, Debug, PartialEq, Eq, Structural)]
pub struct Nav {
    pub screen: Screen,
    pub needs_redraw: bool,
}

/// What is saved when a screen is left.
#[derive(Clone, Copy, Debug, PartialEq, Eq, Structural)]
pub enum Save {
    Nothing,
    /// How far the open book was read.
    Progress,
    /// The note that is being edited.
    Note,
}

/// What is saved when a screen is left by a button.
pub open spec fn saved_on_leaving(screen: Screen) -> Save {
    match screen {
        Screen::Reader => Save::Progress,
        Screen::NoteEdit => Save::Note,
        _ => Save::Nothing,
    }
}

impl Nav {
    /// Goes to a screen and paints it.
    pub fn go(&mut self, screen: Screen)
        ensures
            *final(self) == (Nav { screen, needs_redraw: true }),
    {
        self.screen = screen;
        self.needs_redraw = true;
    }

    /// Acts on the home button, and says what to save.
    pub fn home_button(&mut self, pressed: bool) -> (r: Save)
        ensures
            (r, *final(self)) == home_pressed(*old(self), pressed),
            pressed && old(self).screen != Screen::Home ==> r == saved_on_leaving(
                old(self).screen,
            ) && *final(self) == (Nav { screen: Screen::Home, needs_redraw: true }),
            !pressed || old(self).screen == Screen::Home ==> r == Save::Nothing
                && *final(self) == *old(self),
    {
        if pressed && self.screen != Screen::Home {
            let save: Save = what_to_save(self.screen);
            self.go(Screen::Home);
            save
        } else {
            Save::Nothing
        }
    }
}

/// What is saved when a screen is left by a button or for a sleep.
pub fn what_to_save(screen: Screen) -> (r: Save)
    ensures
        r == saved_on_leaving(screen),
{
    match screen {
        Screen::Reader => Save::Progress,
        Screen::NoteEdit => Save::Note,
        _ => Save::Nothing,
    }
}

/// A button or a finger that acts when it goes down, and not again before it
/// went up.
#[derive(Clone, Copy, Debug, PartialEq, Eq, Structural)]
pub struct Edge {
    pub active: bool,
}

/// How often a run of samples acts, from a button that is up or down.
pub open spec fn presses(active: bool, samples: Seq<bool>) -> int
    decreases samples.len(),
{
    if samples.len() == 0 {
        0
    } else {
        (if samples[0] && !active {
            1int
        } else {
            0int
        }) + presses(samples[0], samples.drop_first())
    }
}

impl Edge {
    /// A button that is up.
    pub fn new() -> (r: Self)
        ensures
            !r.active,
    {
        Edge { active: false }
    }

    /// Takes a sample, and says whether to act on it.
    pub fn sample(&mut self, down: bool) -> (r: bool)
        ensures
            r == (down && !old(self).active),
            final(self).active == down,
    {
        let act: bool = down && !self.active;
        self.active = down;
        act
    }
}

/// However long a button is held, it acts once.
pub proof fn law_held_button_acts_once(samples: Seq<bool>)
    requires
        samples.len() > 0,
        forall|i: int| 0 <= i < samples.len() ==> samples[i],
    ensures
        presses(false, samples) == 1,
        presses(true, samples) == 0,
    decreases samples.len(),
{
    let rest = samples.drop_first();
    if rest.len() > 0 {
        assert forall|i: int| 0 <= i < rest.len() implies rest[i] by {
            assert(rest[i] == samples[i + 1]);
        }
        law_held_button_acts_once(rest);
    } else {
        assert(presses(true, rest) == 0);
    }
}

/// What the auxiliary button does.
#[derive(Clone, Copy, Debug, PartialEq, Eq, Structural)]
pub enum AuxAction {
    Nothing,
    /// Turns the page of the open book.
    TurnPage,
    /// Does what the settings say.
    Dispatch,
}

/// Takes a sample of the auxiliary button.
pub fn aux_button(edge: &mut Edge, down: bool, screen: Screen) -> (r: AuxAction)
    ensures
        final(edge).active == down,
        r == aux_pressed(old(edge).active, down, screen),
        r == if down && !old(edge).active {
            if screen == Screen::Reader {
                AuxAction::TurnPage
            } else {
                AuxAction::Dispatch
            }
        } else {
            AuxAction::Nothing
        },
{
    if edge.sample(down) {
        if screen == Screen::Reader {
            AuxAction::TurnPage
        } else {
            AuxAction::Dispatch
        }
    } else {
        AuxAction::Nothing
    }
}

/// Counts passes of the main loop.
#[derive(Clone, Copy, Debug, PartialEq, Eq, Structural)]
pub struct Ticker {
    pub count: u16,
}

impl Ticker {
    /// Counts a pass; after `limit` of them says so and begins anew.
    pub fn tick(&mut self, limit: u16) -> (r: bool)
        ensures
            r == (old(self).count + 1 >= limit),
            final(self).count as int == ticked(old(self).count as int, limit as int),
            final(self).count == if r {
                0
            } else {
                old(self).count + 1
            },
    {
        if limit == 0 || self.count >= limit - 1 {
            self.count = 0;
            true
        } else {
            self.count = self.count + 1;
            false
        }
    }

    /// Begins anew.
    pub fn reset(&mut self)
        ensures
            final(self).count == 0,
    {
        self.count = 0;
    }
}

/// What opening a page from the home screen sets off.
#[derive(Clone, Copy, Debug, PartialEq, Eq, Structural)]
pub enum Opening {
    /// The page is painted.
    Paint,
    /// The listing of the card is loaded, and then the page painted.
    LoadFiles,
    /// The list of notes is loaded, and then the page painted.
    LoadNotes,
    /// The page is painted as loading, and then its contents fetched.
    Refresh,
}

/// What opening a page from the home screen sets off.
pub open spec fn opening_of(screen: Screen) -> Opening {
    match screen {
        Screen::Files => Opening::LoadFiles,
        Screen::Notes => Opening::LoadNotes,
        Screen::Music => Opening::Refresh,
        Screen::Environment => Opening::Refresh,
        Screen::Weather => Opening::Refresh,
        Screen::Library => Opening::Refresh,
        Screen::Gps => Opening::Refresh,
        _ => Opening::Paint,
    }
}

/// Opens a page from the home screen. The lists of files and of notes are not
/// painted before they are loaded.
pub fn open_from_home(nav: &mut Nav, screen: Screen) -> (r: Opening)
    ensures
        r == opening_of(screen),
        *final(nav) == opened(*old(nav), screen),
        final(nav).screen == screen,
        final(nav).needs_redraw == (old(nav).needs_redraw || (r != Opening::LoadFiles && r
            != Opening::LoadNotes)),
{
    nav.screen = screen;
    match screen {
        Screen::Files => Opening::LoadFiles,
        Screen::Notes => Opening::LoadNotes,
        Screen::Music | Screen::Environment | Screen::Weather | Screen::Library | Screen::Gps => {
            nav.needs_redraw = true;
            Opening::Refresh
        },
        _ => {
            nav.needs_redraw = true;
            Opening::Paint
        },
    }
}

/// Settings that were changed are written once, when the settings are left:
/// flash wears.
pub fn settings_to_save(dirty: &mut bool, screen: Screen) -> (r: bool)
    ensures
        (r, *final(dirty)) == saving_due(*old(dirty), screen),
        r == (*old(dirty) && !screen.of_settings()),
        *final(dirty) == (*old(dirty) && screen.of_settings()),
{
    let inside: bool = match screen {
        Screen::Settings
        | Screen::SettingsSystem
        | Screen::SettingsReader
        | Screen::SettingsWifi => true,
        _ => false,
    };
    if *dirty && !inside {
        *dirty = false;
        true
    } else {
        false
    }
}

/// The level of the front light one step lower, down to none.
pub open spec fn dimmed(brightness: int, step: int) -> int {
    if brightness >= step {
        brightness - step
    } else {
        0
    }
}

/// The level of the front light one step higher, up to all of it.
pub open spec fn brightened(brightness: int, step: int) -> int {
    if brightness + step <= 100 {
        brightness + step
    } else {
        100
    }
}

/// The level of the front light after a touch of its page.
pub fn dim(brightness: u8, step: u8) -> (r: u8)
    ensures
        r == dimmed(brightness as int, step as int),
        r == if brightness >= step {
            brightness - step
        } else {
            0
        },
{
    if brightness >= step {
        brightness - step
    } else {
        0
    }
}

/// The level of the front light after a touch of its page: a percentage.
pub fn brighten(brightness: u8, step: u8) -> (r: u8)
    ensures
        r == brightened(brightness as int, step as int),
        r == if brightness + step <= 100 {
            brightness + step
        } else {
            100
        },
{
    if brightness >= 100 || step > 100 - brightness {
        100
    } else {
        brightness + step
    }
}

/// What is typed or read is saved when its page is left, and nothing is saved
/// for any other page; a page that shows what must be fetched first fetches it
/// when it is opened.
pub proof fn law_pages_save_and_load(screen: Screen)
    ensures
        saved_on_leaving(screen) == Save::Progress <==> screen == Screen::Reader,
        saved_on_leaving(screen) == Save::Note <==> screen == Screen::NoteEdit,
        opening_of(screen) == Opening::LoadFiles <==> screen == Screen::Files,
        opening_of(screen) == Opening::LoadNotes <==> screen == Screen::Notes,
        opening_of(screen) == Opening::Refresh <==> screen == Screen::Music || screen
            == Screen::Environment || screen == Screen::Weather || screen == Screen::Library
            || screen == Screen::Gps,
        screen.index() < 20,
{
}

/// A button acts once for every time that it goes down, and not while it is
/// held.
pub proof fn law_every_press_acts(active: bool, samples: Seq<bool>)
    ensures
        presses(active, samples.push(false)) == presses(active, samples),
        presses(active, samples.push(true)) == presses(active, samples) + if samples.len() == 0 {
            if active {
                0int
            } else {
                1
            }
        } else if samples.last() {
            0
        } else {
            1
        },
    decreases samples.len(),
{
    let down = samples.push(true);
    let up = samples.push(false);
    if samples.len() == 0 {
        assert(down.drop_first() =~= Seq::<bool>::empty());
        assert(up.drop_first() =~= Seq::<bool>::empty());
        assert(presses(true, Seq::<bool>::empty()) == 0);
        assert(presses(false, Seq::<bool>::empty()) == 0);
    } else {
        let rest = samples.drop_first();
        law_every_press_acts(samples[0], rest);
        assert(down.drop_first() =~= rest.push(true));
        assert(up.drop_first() =~= rest.push(false));
        if rest.len() > 0 {
            assert(rest.last() == samples.last());
        } else {
            assert(samples.last() == samples[0]);
        }
    }
}

/// The front light stays between nothing and a hundred percent, and a step back
/// takes back a step, except at the ends.
pub proof fn law_light_stays_in_range(brightness: int, step: int)
    requires
        0 <= brightness <= 100,
        0 <= step <= 100,
    ensures
        0 <= dimmed(brightness, step) <= brightness,
        brightness <= brightened(brightness, step) <= 100,
        brightness + step <= 100 ==> brightened(brightness, step) == brightness + step && dimmed(
            brightened(brightness, step),
            step,
        ) == brightness,
        brightness >= step ==> dimmed(brightness, step) == brightness - step && brightened(
            dimmed(brightness, step),
            step,
        ) == brightness,
        brightness + step > 100 ==> brightened(brightness, step) == 100,
        brightness < step ==> dimmed(brightness, step) == 0,
{
}

/// Only an image and the map on the whole screen hide the status bar; the
/// settings are four pages.
pub proof fn law_kinds_of_pages(screen: Screen)
    ensures
        screen.whole() <==> screen == Screen::Image || screen == Screen::MapFull,
        screen.of_settings() <==> screen == Screen::Settings || screen == Screen::SettingsSystem
            || screen == Screen::SettingsReader || screen == Screen::SettingsWifi,
{
}

/// What the home button saves, and where it leads.
pub open spec fn home_pressed(nav: Nav, pressed: bool) -> (Save, Nav) {
    if pressed && nav.screen != Screen::Home {
        (saved_on_leaving(nav.screen), Nav { screen: Screen::Home, needs_redraw: true })
    } else {
        (Save::Nothing, nav)
    }
}

/// What the other button does.
pub open spec fn aux_pressed(active: bool, down: bool, screen: Screen) -> AuxAction {
    if !down || active {
        AuxAction::Nothing
    } else if screen == Screen::Reader {
        AuxAction::TurnPage
    } else {
        AuxAction::Dispatch
    }
}

/// The home button leads home from every page and saves what the page has to
/// save; at home, or not pressed, it does nothing. The other button acts when it
/// goes down and not while it is held: it turns the page of a book, and on any
/// other page does what the settings say.
pub proof fn law_buttons(nav: Nav, screen: Screen)
    ensures
        nav.screen != Screen::Home ==> {
            let (save, after) = home_pressed(nav, true);
            &&& save == saved_on_leaving(nav.screen)
            &&& after.screen == Screen::Home
            &&& after.needs_redraw
            &&& home_pressed(after, true) == (Save::Nothing, after)
        },
        home_pressed(nav, false) == (Save::Nothing, nav),
        aux_pressed(true, true, screen) == AuxAction::Nothing,
        aux_pressed(false, false, screen) == AuxAction::Nothing,
        aux_pressed(true, false, screen) == AuxAction::Nothing,
        aux_pressed(false, true, screen) == AuxAction::TurnPage <==> screen == Screen::Reader,
        aux_pressed(false, true, screen) == AuxAction::Dispatch <==> screen != Screen::Reader,
{
}

/// A count after a pass.
pub open spec fn ticked(count: int, limit: int) -> int {
    if count + 1 >= limit {
        0
    } else {
        count + 1
    }
}

/// A count comes round after as many passes as its limit, and at no pass in
/// between.
pub proof fn law_counts_come_round(limit: int, passes: nat)
    requires
        0 < limit,
    ensures
        ticks(limit, passes) == passes as int % limit,
    decreases passes,
{
    if passes > 0 {
        law_counts_come_round(limit, (passes - 1) as nat);
        let k = passes as int;
        let c = (k - 1) % limit;
        if c + 1 >= limit {
            assert(k % limit == 0) by (nonlinear_arith)
                requires
                    c == (k - 1) % limit,
                    c == limit - 1,
                    limit > 0,
            ;
        } else {
            assert(k % limit == c + 1) by (nonlinear_arith)
                requires
                    c == (k - 1) % limit,
                    c + 1 < limit,
                    limit > 0,
            ;
        }
    } else {
        assert(0int % limit == 0) by (nonlinear_arith)
            requires
                limit > 0,
        ;
    }
}

/// A count from zero on after some passes.
pub open spec fn ticks(limit: int, passes: nat) -> int
    decreases passes,
{
    if passes == 0 {
        0
    } else {
        ticked(ticks(limit, (passes - 1) as nat), limit)
    }
}

/// The page after it was opened from the home screen.
pub open spec fn opened(nav: Nav, screen: Screen) -> Nav {
    Nav {
        screen,
        needs_redraw: nav.needs_redraw || (opening_of(screen) != Opening::LoadFiles && opening_of(
            screen,
        ) != Opening::LoadNotes),
    }
}

/// Whether the settings are saved now, and whether they still have to be.
pub open spec fn saving_due(dirty: bool, screen: Screen) -> (bool, bool) {
    (dirty && !screen.of_settings(), dirty && screen.of_settings())
}

/// A page that is opened is up, and is painted at once unless its list is read
/// first. Settings that were changed are saved once, as soon as no page of the
/// settings is up any more.
pub proof fn law_opening_and_saving(nav: Nav, screen: Screen, dirty: bool)
    ensures
        opened(nav, screen).screen == screen,
        screen != Screen::Files && screen != Screen::Notes ==> opened(nav, screen).needs_redraw,
        screen == Screen::Files || screen == Screen::Notes ==> opened(nav, screen).needs_redraw
            == nav.needs_redraw,
        saving_due(false, screen) == (false, false),
        screen == Screen::Home ==> saving_due(true, screen) == (true, false),
        screen == Screen::SettingsSystem ==> saving_due(true, screen) == (false, true),
        saving_due(dirty, screen).0 ==> saving_due(saving_due(dirty, screen).1, screen) == (
            false,
            false,
        ),
{
}

} // verus!
