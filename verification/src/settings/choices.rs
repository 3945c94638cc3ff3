//! The choices that the settings pages cycle through, each with the byte it is
//! stored as.
use vstd::prelude::*;
use vstd::string::*;

verus! {

/// Reader text size. All three are monospace-metric faces; only the cell size
/// changes.
#[derive(Clone, Copy, Debug, PartialEq, Eq, Structural)]
pub enum FontSize {
    Small,
    Medium,
    Large,
}

impl FontSize {
    /// Its place in the cycle, which is also the byte it is stored as.
    pub open spec fn code(self) -> u8 {
        match self {
            FontSize::Small => 0,
            FontSize::Medium => 1,
            FontSize::Large => 2,
        }
    }

    /// What a stored byte stands for; a byte that stands for none is
    /// `Medium`.
    pub open spec fn of_code(b: u8) -> FontSize {
        if b == 0 {
            FontSize::Small
        } else if b == 2 {
            FontSize::Large
        } else {
            FontSize::Medium
        }
    }

    /// The choice after this one, the first one again after the last.
    pub open spec fn following(self) -> FontSize {
        FontSize::of_code(((self.code() + 1) % 3) as u8)
    }

    /// The next choice, the first one again after the last.
    pub fn next(self) -> (r: Self)
        ensures
            r == self.following(),
    {
        match self {
            FontSize::Small => FontSize::Medium,
            FontSize::Medium => FontSize::Large,
            FontSize::Large => FontSize::Small,
        }
    }

    /// What the choice is called on screen.
    pub open spec fn name(self) -> Seq<char> {
        match self {
            FontSize::Small => "Small"@,
            FontSize::Medium => "Medium"@,
            FontSize::Large => "Large"@,
        }
    }

    /// What the choice is called on screen.
    pub fn label(self) -> (r: &'static str)
        ensures
            r@ == self.name(),
    {
        match self {
            FontSize::Small => "Small",
            FontSize::Medium => "Medium",
            FontSize::Large => "Large",
        }
    }

    /// The byte the choice is stored as.
    pub fn to_byte(self) -> (r: u8)
        ensures
            r == self.code(),
    {
        match self {
            FontSize::Small => 0,
            FontSize::Medium => 1,
            FontSize::Large => 2,
        }
    }

    /// The choice that a stored byte stands for.
    pub fn from_byte(b: u8) -> (r: Self)
        ensures
            r == Self::of_code(b),
    {
        match b {
            0 => FontSize::Small,
            2 => FontSize::Large,
            _ => FontSize::Medium,
        }
    }
}

/// Reader typeface: proportional sans, proportional serif, or monospace.
#[derive(Clone, Copy, Debug, PartialEq, Eq, Structural)]
pub enum FontFamily {
    Sans,
    Serif,
    Mono,
}

impl FontFamily {
    /// Its place in the cycle, which is also the byte it is stored as.
    pub open spec fn code(self) -> u8 {
        match self {
            FontFamily::Sans => 0,
            FontFamily::Serif => 1,
            FontFamily::Mono => 2,
        }
    }

    /// What a stored byte stands for; a byte that stands for none is
    /// `Sans`.
    pub open spec fn of_code(b: u8) -> FontFamily {
        if b == 1 {
            FontFamily::Serif
        } else if b == 2 {
            FontFamily::Mono
        } else {
            FontFamily::Sans
        }
    }

    /// The choice after this one, the first one again after the last.
    pub open spec fn following(self) -> FontFamily {
        FontFamily::of_code(((self.code() + 1) % 3) as u8)
    }

    /// The next choice, the first one again after the last.
    pub fn next(self) -> (r: Self)
        ensures
            r == self.following(),
    {
        match self {
            FontFamily::Sans => FontFamily::Serif,
            FontFamily::Serif => FontFamily::Mono,
            FontFamily::Mono => FontFamily::Sans,
        }
    }

    /// What the choice is called on screen.
    pub open spec fn name(self) -> Seq<char> {
        match self {
            FontFamily::Sans => "Sans"@,
            FontFamily::Serif => "Serif"@,
            FontFamily::Mono => "Mono"@,
        }
    }

    /// What the choice is called on screen.
    pub fn label(self) -> (r: &'static str)
        ensures
            r@ == self.name(),
    {
        match self {
            FontFamily::Sans => "Sans",
            FontFamily::Serif => "Serif",
            FontFamily::Mono => "Mono",
        }
    }

    /// The byte the choice is stored as.
    pub fn to_byte(self) -> (r: u8)
        ensures
            r == self.code(),
    {
        match self {
            FontFamily::Sans => 0,
            FontFamily::Serif => 1,
            FontFamily::Mono => 2,
        }
    }

    /// The choice that a stored byte stands for.
    pub fn from_byte(b: u8) -> (r: Self)
        ensures
            r == Self::of_code(b),
    {
        match b {
            1 => FontFamily::Serif,
            2 => FontFamily::Mono,
            _ => FontFamily::Sans,
        }
    }
}

/// Reader line spacing, scaling the line height of each size.
#[derive(Clone, Copy, Debug, PartialEq, Eq, Structural)]
pub enum LineSpacing {
    Compact,
    Normal,
    Relaxed,
}

impl LineSpacing {
    /// Its place in the cycle, which is also the byte it is stored as.
    pub open spec fn code(self) -> u8 {
        match self {
            LineSpacing::Compact => 0,
            LineSpacing::Normal => 1,
            LineSpacing::Relaxed => 2,
        }
    }

    /// What a stored byte stands for; a byte that stands for none is
    /// `Normal`.
    pub open spec fn of_code(b: u8) -> LineSpacing {
        if b == 0 {
            LineSpacing::Compact
        } else if b == 2 {
            LineSpacing::Relaxed
        } else {
            LineSpacing::Normal
        }
    }

    /// The choice after this one, the first one again after the last.
    pub open spec fn following(self) -> LineSpacing {
        LineSpacing::of_code(((self.code() + 1) % 3) as u8)
    }

    /// The next choice, the first one again after the last.
    pub fn next(self) -> (r: Self)
        ensures
            r == self.following(),
    {
        match self {
            LineSpacing::Compact => LineSpacing::Normal,
            LineSpacing::Normal => LineSpacing::Relaxed,
            LineSpacing::Relaxed => LineSpacing::Compact,
        }
    }

    /// What the choice is called on screen.
    pub open spec fn name(self) -> Seq<char> {
        match self {
            LineSpacing::Compact => "Compact"@,
            LineSpacing::Normal => "Normal"@,
            LineSpacing::Relaxed => "Relaxed"@,
        }
    }

    /// What the choice is called on screen.
    pub fn label(self) -> (r: &'static str)
        ensures
            r@ == self.name(),
    {
        match self {
            LineSpacing::Compact => "Compact",
            LineSpacing::Normal => "Normal",
            LineSpacing::Relaxed => "Relaxed",
        }
    }

    /// The byte the choice is stored as.
    pub fn to_byte(self) -> (r: u8)
        ensures
            r == self.code(),
    {
        match self {
            LineSpacing::Compact => 0,
            LineSpacing::Normal => 1,
            LineSpacing::Relaxed => 2,
        }
    }

    /// The choice that a stored byte stands for.
    pub fn from_byte(b: u8) -> (r: Self)
        ensures
            r == Self::of_code(b),
    {
        match b {
            0 => LineSpacing::Compact,
            2 => LineSpacing::Relaxed,
            _ => LineSpacing::Normal,
        }
    }
}

/// Home-screen icon set: thin-line or solid-filled.
#[derive(Clone, Copy, Debug, PartialEq, Eq, Structural)]
pub enum IconStyle {
    Lucide,
    Material,
}

impl IconStyle {
    /// Its place in the cycle, which is also the byte it is stored as.
    pub open spec fn code(self) -> u8 {
        match self {
            IconStyle::Lucide => 0,
            IconStyle::Material => 1,
        }
    }

    /// What a stored byte stands for; a byte that stands for none is
    /// `Lucide`.
    pub open spec fn of_code(b: u8) -> IconStyle {
        if b == 1 {
            IconStyle::Material
        } else {
            IconStyle::Lucide
        }
    }

    /// The choice after this one, the first one again after the last.
    pub open spec fn following(self) -> IconStyle {
        IconStyle::of_code(((self.code() + 1) % 2) as u8)
    }

    /// The next choice, the first one again after the last.
    pub fn next(self) -> (r: Self)
        ensures
            r == self.following(),
    {
        match self {
            IconStyle::Lucide => IconStyle::Material,
            IconStyle::Material => IconStyle::Lucide,
        }
    }

    /// What the choice is called on screen.
    pub open spec fn name(self) -> Seq<char> {
        match self {
            IconStyle::Lucide => "Lucide"@,
            IconStyle::Material => "Material"@,
        }
    }

    /// What the choice is called on screen.
    pub fn label(self) -> (r: &'static str)
        ensures
            r@ == self.name(),
    {
        match self {
            IconStyle::Lucide => "Lucide",
            IconStyle::Material => "Material",
        }
    }

    /// The byte the choice is stored as.
    pub fn to_byte(self) -> (r: u8)
        ensures
            r == self.code(),
    {
        match self {
            IconStyle::Lucide => 0,
            IconStyle::Material => 1,
        }
    }

    /// The choice that a stored byte stands for.
    pub fn from_byte(b: u8) -> (r: Self)
        ensures
            r == Self::of_code(b),
    {
        match b {
            1 => IconStyle::Material,
            _ => IconStyle::Lucide,
        }
    }
}

/// Home-screen icon size.
#[derive(Clone, Copy, Debug, PartialEq, Eq, Structural)]
pub enum IconSize {
    Small,
    Regular,
}

impl IconSize {
    /// Its place in the cycle, which is also the byte it is stored as.
    pub open spec fn code(self) -> u8 {
        match self {
            IconSize::Small => 0,
            IconSize::Regular => 1,
        }
    }

    /// What a stored byte stands for; a byte that stands for none is
    /// `Regular`.
    pub open spec fn of_code(b: u8) -> IconSize {
        if b == 0 {
            IconSize::Small
        } else {
            IconSize::Regular
        }
    }

    /// The choice after this one, the first one again after the last.
    pub open spec fn following(self) -> IconSize {
        IconSize::of_code(((self.code() + 1) % 2) as u8)
    }

    /// The next choice, the first one again after the last.
    pub fn next(self) -> (r: Self)
        ensures
            r == self.following(),
    {
        match self {
            IconSize::Small => IconSize::Regular,
            IconSize::Regular => IconSize::Small,
        }
    }

    /// What the choice is called on screen.
    pub open spec fn name(self) -> Seq<char> {
        match self {
            IconSize::Small => "Small"@,
            IconSize::Regular => "Regular"@,
        }
    }

    /// What the choice is called on screen.
    pub fn label(self) -> (r: &'static str)
        ensures
            r@ == self.name(),
    {
        match self {
            IconSize::Small => "Small",
            IconSize::Regular => "Regular",
        }
    }

    /// The byte the choice is stored as.
    pub fn to_byte(self) -> (r: u8)
        ensures
            r == self.code(),
    {
        match self {
            IconSize::Small => 0,
            IconSize::Regular => 1,
        }
    }

    /// The choice that a stored byte stands for.
    pub fn from_byte(b: u8) -> (r: Self)
        ensures
            r == Self::of_code(b),
    {
        match b {
            0 => IconSize::Small,
            _ => IconSize::Regular,
        }
    }
}

/// What the auxiliary button does when pressed.
#[derive(Clone, Copy, Debug, PartialEq, Eq, Structural)]
pub enum Io48Action {
    Sleep,
    Backlight,
    LoraReceive,
    Nothing,
}

impl Io48Action {
    /// Its place in the cycle, which is also the byte it is stored as.
    pub open spec fn code(self) -> u8 {
        match self {
            Io48Action::Sleep => 0,
            Io48Action::Backlight => 1,
            Io48Action::LoraReceive => 2,
            Io48Action::Nothing => 3,
        }
    }

    /// What a stored byte stands for; a byte that stands for none is
    /// `Sleep`.
    pub open spec fn of_code(b: u8) -> Io48Action {
        if b == 1 {
            Io48Action::Backlight
        } else if b == 2 {
            Io48Action::LoraReceive
        } else if b == 3 {
            Io48Action::Nothing
        } else {
            Io48Action::Sleep
        }
    }

    /// The choice after this one, the first one again after the last.
    pub open spec fn following(self) -> Io48Action {
        Io48Action::of_code(((self.code() + 1) % 4) as u8)
    }

    /// The next choice, the first one again after the last.
    pub fn next(self) -> (r: Self)
        ensures
            r == self.following(),
    {
        match self {
            Io48Action::Sleep => Io48Action::Backlight,
            Io48Action::Backlight => Io48Action::LoraReceive,
            Io48Action::LoraReceive => Io48Action::Nothing,
            Io48Action::Nothing => Io48Action::Sleep,
        }
    }

    /// What the choice is called on screen.
    pub open spec fn name(self) -> Seq<char> {
        match self {
            Io48Action::Sleep => "Sleep"@,
            Io48Action::Backlight => "Backlight"@,
            Io48Action::LoraReceive => "LoRa RX"@,
            Io48Action::Nothing => "Nothing"@,
        }
    }

    /// What the choice is called on screen.
    pub fn label(self) -> (r: &'static str)
        ensures
            r@ == self.name(),
    {
        match self {
            Io48Action::Sleep => "Sleep",
            Io48Action::Backlight => "Backlight",
            Io48Action::LoraReceive => "LoRa RX",
            Io48Action::Nothing => "Nothing",
        }
    }

    /// The byte the choice is stored as.
    pub fn to_byte(self) -> (r: u8)
        ensures
            r == self.code(),
    {
        match self {
            Io48Action::Sleep => 0,
            Io48Action::Backlight => 1,
            Io48Action::LoraReceive => 2,
            Io48Action::Nothing => 3,
        }
    }

    /// The choice that a stored byte stands for.
    pub fn from_byte(b: u8) -> (r: Self)
        ensures
            r == Self::of_code(b),
    {
        match b {
            1 => Io48Action::Backlight,
            2 => Io48Action::LoraReceive,
            3 => Io48Action::Nothing,
            _ => Io48Action::Sleep,
        }
    }
}

/// A choice is read back from the byte it is stored as.
pub proof fn law_choice_codes(
    size: FontSize,
    family: FontFamily,
    spacing: LineSpacing,
    style: IconStyle,
    icon: IconSize,
    action: Io48Action,
)
    ensures
        FontSize::of_code(size.code()) == size,
        FontFamily::of_code(family.code()) == family,
        LineSpacing::of_code(spacing.code()) == spacing,
        IconStyle::of_code(style.code()) == style,
        IconSize::of_code(icon.code()) == icon,
        Io48Action::of_code(action.code()) == action,
{
}

/// Stepping from choice to choice never stays in place, and comes back to
/// where it began after as many steps as there are choices.
pub proof fn law_choices_cycle(
    size: FontSize,
    family: FontFamily,
    spacing: LineSpacing,
    style: IconStyle,
    icon: IconSize,
    action: Io48Action,
)
    ensures
        size.following() != size,
        size.following().following() != size,
        size.following().following().following() == size,
        family.following() != family,
        family.following().following() != family,
        family.following().following().following() == family,
        spacing.following() != spacing,
        spacing.following().following() != spacing,
        spacing.following().following().following() == spacing,
        style.following() != style,
        style.following().following() == style,
        icon.following() != icon,
        icon.following().following() == icon,
        action.following() != action,
        action.following().following() != action,
        action.following().following().following() != action,
        action.following().following().following().following() == action,
{
}

/// The numbers by which choices are stored, which earlier images hold too.
pub proof fn law_stored_choices()
    ensures
        FontSize::of_code(0) == FontSize::Small,
        FontSize::of_code(1) == FontSize::Medium,
        FontSize::of_code(2) == FontSize::Large,
        FontFamily::of_code(0) == FontFamily::Sans,
        FontFamily::of_code(1) == FontFamily::Serif,
        FontFamily::of_code(2) == FontFamily::Mono,
        LineSpacing::of_code(0) == LineSpacing::Compact,
        LineSpacing::of_code(1) == LineSpacing::Normal,
        LineSpacing::of_code(2) == LineSpacing::Relaxed,
        IconStyle::of_code(0) == IconStyle::Lucide,
        IconStyle::of_code(1) == IconStyle::Material,
        IconSize::of_code(0) == IconSize::Small,
        IconSize::of_code(1) == IconSize::Regular,
        Io48Action::of_code(0) == Io48Action::Sleep,
        Io48Action::of_code(1) == Io48Action::Backlight,
        Io48Action::of_code(2) == Io48Action::LoraReceive,
        Io48Action::of_code(3) == Io48Action::Nothing,
{
}

/// A number that stands for no choice is read as the default one.
pub proof fn law_unknown_choices_are_defaults(b: u8)
    requires
        b > 3,
    ensures
        FontSize::of_code(b) == FontSize::Medium,
        FontFamily::of_code(b) == FontFamily::Sans,
        LineSpacing::of_code(b) == LineSpacing::Normal,
        IconStyle::of_code(b) == IconStyle::Lucide,
        IconSize::of_code(b) == IconSize::Regular,
        Io48Action::of_code(b) == Io48Action::Sleep,
{
}

/// Each choice is shown by its name.
pub proof fn law_choices_have_their_names()
    ensures
        FontSize::Small.name() == "Small"@,
        FontSize::Medium.name() == "Medium"@,
        FontSize::Large.name() == "Large"@,
        FontFamily::Sans.name() == "Sans"@,
        FontFamily::Serif.name() == "Serif"@,
        FontFamily::Mono.name() == "Mono"@,
        LineSpacing::Compact.name() == "Compact"@,
        LineSpacing::Normal.name() == "Normal"@,
        LineSpacing::Relaxed.name() == "Relaxed"@,
        IconStyle::Lucide.name() == "Lucide"@,
        IconStyle::Material.name() == "Material"@,
        IconSize::Small.name() == "Small"@,
        IconSize::Regular.name() == "Regular"@,
        Io48Action::Sleep.name() == "Sleep"@,
        Io48Action::Backlight.name() == "Backlight"@,
        Io48Action::LoraReceive.name() == "LoRa RX"@,
        Io48Action::Nothing.name() == "Nothing"@,
{
}

/// A touch goes to the next choice, in the order of their numbers, and from the
/// last one to the first.
pub proof fn law_choices_follow_their_numbers(
    size: FontSize,
    family: FontFamily,
    spacing: LineSpacing,
    style: IconStyle,
    icon: IconSize,
    action: Io48Action,
)
    ensures
        size.following().code() == if size.code() < 2 {
            size.code() + 1
        } else {
            0
        },
        family.following().code() == if family.code() < 2 {
            family.code() + 1
        } else {
            0
        },
        spacing.following().code() == if spacing.code() < 2 {
            spacing.code() + 1
        } else {
            0
        },
        style.following().code() == 1 - style.code(),
        icon.following().code() == 1 - icon.code(),
        action.following().code() == if action.code() < 3 {
            action.code() + 1
        } else {
            0
        },
{
}

} // verus!
