//! The widget vocabulary of the interface: tabs, button and icon kinds, theme levels,
//! elevations with their shadow geometry, and the segmented control's options.

use vstd::prelude::*;

verus! {

/// The tab shown in the main panel.
#[derive(Debug, Clone, Copy, PartialEq, Eq, Structural)]
pub enum TabView {
    /// File tree view
    Files,
    /// Output preview view
    Output,
}

/// Button variant types for consistent styling.
#[derive(Debug, Clone, Copy, PartialEq, Eq, Structural)]
pub enum ButtonVariant {
    /// Primary filled button (main actions)
    Primary,
    /// Secondary outlined button (secondary actions)
    Secondary,
    /// Ghost-style button (subtle actions)
    GhostStyle,
    /// Danger button (destructive actions)
    Danger,
}

/// Button size variants.
#[derive(Debug, Clone, Copy, PartialEq, Eq, Structural)]
pub enum ButtonSize {
    /// Small button
    Small,
    /// Medium button
    Medium,
    /// Large button
    Large,
}

/// Position of the icon relative to the text of a button.
#[derive(Debug, Clone, Copy, PartialEq, Eq, Structural)]
pub enum IconPosition {
    /// Icon on the left side of text
    Left,
    /// Icon on the right side of text
    Right,
    /// Icon only, no text
    Only,
}

/// Icon types used throughout the application.
#[derive(Debug, Clone, Copy, Hash, PartialEq, Eq, Structural)]
pub enum IconType {
    /// Closed folder icon
    Folder,
    /// Open folder icon
    FolderOpen,
    /// File icon
    File,
    /// Right chevron arrow
    ChevronRight,
    /// Down chevron arrow
    ChevronDown,
    /// Settings gear icon
    Settings,
    /// Generate/rocket icon
    Generate,
    /// Copy to clipboard icon
    Copy,
    /// Save to disk icon
    Save,
    /// Close/X icon
    Close,
    /// Refresh/reload icon
    Refresh,
    /// Code file icon
    Code,
    /// Configuration file icon
    Config,
    /// Document/text file icon
    Document,
    /// Image file icon
    Image,
    /// Archive/zip file icon
    Archive,
    /// Success checkmark icon
    Success,
    /// Warning triangle icon
    Warning,
    /// Error X icon
    Error,
    /// Information icon
    Info,
    /// Theme/palette icon
    Theme,
    /// Search magnifying glass icon
    Search,
    /// Filter dropdown icon
    Filter,
}

/// Icon size variants.
#[derive(Debug, Clone, Copy, PartialEq, Eq, Structural)]
pub enum IconSize {
    /// Small icon
    Small,
    /// Medium icon
    Medium,
    /// Large icon
    Large,
    /// Extra large icon
    XLarge,
}

/// The icon size that goes with a button size.
pub open spec fn icon_size_for(size: ButtonSize) -> IconSize {
    match size {
        ButtonSize::Small => IconSize::Small,
        ButtonSize::Medium => IconSize::Medium,
        ButtonSize::Large => IconSize::Large,
    }
}

impl ButtonSize {
    /// Returns the icon size for the button size.
    pub fn icon_size(self) -> (r: IconSize)
        ensures
            r == icon_size_for(self),
    {
        match self {
            ButtonSize::Small => IconSize::Small,
            ButtonSize::Medium => IconSize::Medium,
            ButtonSize::Large => IconSize::Large,
        }
    }
}

/// The emoji that stands for each icon until vector icons are drawn.
pub open spec fn emoji_for(icon: IconType) -> Seq<char> {
    match icon {
        IconType::Folder => "\u{1F4C1}"@,
        IconType::FolderOpen => "\u{1F4C2}"@,
        IconType::File => "\u{1F4C4}"@,
        IconType::ChevronRight => "\u{25B6}"@,
        IconType::ChevronDown => "\u{25BC}"@,
        IconType::Settings | IconType::Config => "\u{2699}"@,
        IconType::Generate => "\u{1F680}"@,
        IconType::Copy => "\u{1F4CB}"@,
        IconType::Save => "\u{1F4BE}"@,
        IconType::Close => "\u{D7}"@,
        IconType::Refresh => "\u{1F504}"@,
        IconType::Code => "\u{1F4DD}"@,
        IconType::Document => "\u{1F4DA}"@,
        IconType::Image => "\u{1F5BC}"@,
        IconType::Archive => "\u{1F4E6}"@,
        IconType::Success => "\u{2713}"@,
        IconType::Warning => "\u{26A0}"@,
        IconType::Error => "\u{2715}"@,
        IconType::Info => "\u{2139}"@,
        IconType::Theme => "\u{1F3A8}"@,
        IconType::Search => "\u{1F50D}"@,
        IconType::Filter => "\u{1F53D}"@,
    }
}

/// Icon manager; icons are drawn as emoji for now.
#[derive(Debug)]
pub struct IconManager {
    placeholder: (),
}

impl IconManager {
    /// Creates a new icon manager.
    pub fn new() -> (r: Self) {
        IconManager { placeholder: () }
    }

    /// The emoji drawn for an icon type.
    pub fn fallback_emoji(icon_type: IconType) -> (r: &'static str)
        ensures
            r@ == emoji_for(icon_type),
    {
        match icon_type {
            IconType::Folder => "\u{1F4C1}",
            IconType::FolderOpen => "\u{1F4C2}",
            IconType::File => "\u{1F4C4}",
            IconType::ChevronRight => "\u{25B6}",
            IconType::ChevronDown => "\u{25BC}",
            IconType::Settings | IconType::Config => "\u{2699}",
            IconType::Generate => "\u{1F680}",
            IconType::Copy => "\u{1F4CB}",
            IconType::Save => "\u{1F4BE}",
            IconType::Close => "\u{D7}",
            IconType::Refresh => "\u{1F504}",
            IconType::Code => "\u{1F4DD}",
            IconType::Document => "\u{1F4DA}",
            IconType::Image => "\u{1F5BC}",
            IconType::Archive => "\u{1F4E6}",
            IconType::Success => "\u{2713}",
            IconType::Warning => "\u{26A0}",
            IconType::Error => "\u{2715}",
            IconType::Info => "\u{2139}",
            IconType::Theme => "\u{1F3A8}",
            IconType::Search => "\u{1F50D}",
            IconType::Filter => "\u{1F53D}",
        }
    }
}

/// Text emphasis levels.
#[derive(Debug, Clone, Copy, PartialEq, Eq, Structural)]
pub enum TextEmphasis {
    /// Primary text (high contrast)
    Primary,
    /// Secondary text (medium contrast)
    Secondary,
    /// Tertiary text (low contrast)
    Tertiary,
}

/// Background color levels.
#[derive(Debug, Clone, Copy, PartialEq, Eq, Structural)]
pub enum BgLevel {
    /// Primary background
    Primary,
    /// Secondary background
    Secondary,
    /// Tertiary background
    Tertiary,
}

/// Material Design elevation levels.
#[derive(Debug, Clone, Copy, PartialEq, Eq, Structural)]
pub enum Elevation {
    /// No elevation
    Level0,
    /// Level 1 elevation - cards at rest
    Level1,
    /// Level 2 elevation - raised buttons, search bars
    Level2,
    /// Level 3 elevation - snackbars
    Level3,
    /// Level 4 elevation - menus, cards on hover
    Level4,
    /// Level 5 elevation - app bars, elevated buttons
    Level5,
}

/// Easing functions for animations.
#[derive(Debug, Clone, Copy, PartialEq, Eq, Structural)]
pub enum EasingFunction {
    /// Constant speed
    Linear,
    /// Fast start, slow end
    EaseOut,
    /// Slow start and end
    EaseInOut,
    /// Overshooting curve
    Bounce,
}

/// The geometry of a drop shadow: offset, blur and spread in points, and the alpha of
/// its black color. The shadow of no elevation is all zero, which is the empty shadow.
#[derive(Debug, Clone, Copy, PartialEq, Eq, Structural)]
pub struct ShadowSpec {
    /// Horizontal offset
    pub offset_x: i8,
    /// Vertical offset
    pub offset_y: i8,
    /// Blur radius
    pub blur: u8,
    /// Spread
    pub spread: u8,
    /// Alpha of the black shadow color
    pub alpha: u8,
}

/// The vertical offset, blur and alpha step of each elevation level above none.
pub open spec fn elevation_rank(e: Elevation) -> int {
    match e {
        Elevation::Level0 => 0,
        Elevation::Level1 => 1,
        Elevation::Level2 => 2,
        Elevation::Level3 => 3,
        Elevation::Level4 => 4,
        Elevation::Level5 => 5,
    }
}

/// The shadow of an elevation: none at level 0; otherwise offset `(0, o)`, blur `3 o`
/// and alpha `base + 5 (k - 1)` at level `k`, where `o` is 1, 2, 4, 6, 8 by level and
/// the base alpha is 80 in dark mode and 25 in light mode.
pub open spec fn shadow_of(e: Elevation, dark_mode: bool) -> ShadowSpec {
    let base: int = if dark_mode { 80 } else { 25 };
    let o: int = match e {
        Elevation::Level0 => 0,
        Elevation::Level1 => 1,
        Elevation::Level2 => 2,
        Elevation::Level3 => 4,
        Elevation::Level4 => 6,
        Elevation::Level5 => 8,
    };
    if e == Elevation::Level0 {
        ShadowSpec { offset_x: 0, offset_y: 0, blur: 0, spread: 0, alpha: 0 }
    } else {
        ShadowSpec {
            offset_x: 0,
            offset_y: o as i8,
            blur: (3 * o) as u8,
            spread: 0,
            alpha: (base + 5 * (elevation_rank(e) - 1)) as u8,
        }
    }
}

impl Elevation {
    /// The shadow drawn for this elevation level.
    pub fn shadow(self, dark_mode: bool) -> (r: ShadowSpec)
        ensures
            r == shadow_of(self, dark_mode),
    {
        let base: u8 = if dark_mode { 80 } else { 25 };
        match self {
            Elevation::Level0 => ShadowSpec { offset_x: 0, offset_y: 0, blur: 0, spread: 0, alpha: 0 },
            Elevation::Level1 => ShadowSpec { offset_x: 0, offset_y: 1, blur: 3, spread: 0, alpha: base },
            Elevation::Level2 => ShadowSpec {
                offset_x: 0,
                offset_y: 2,
                blur: 6,
                spread: 0,
                alpha: base + 5,
            },
            Elevation::Level3 => ShadowSpec {
                offset_x: 0,
                offset_y: 4,
                blur: 12,
                spread: 0,
                alpha: base + 10,
            },
            Elevation::Level4 => ShadowSpec {
                offset_x: 0,
                offset_y: 6,
                blur: 18,
                spread: 0,
                alpha: base + 15,
            },
            Elevation::Level5 => ShadowSpec {
                offset_x: 0,
                offset_y: 8,
                blur: 24,
                spread: 0,
                alpha: base + 20,
            },
        }
    }
}

/// The elevation of a button: none when disabled, level 2 while pressed, and otherwise
/// one level higher for primary buttons (3 hovered, 2 at rest) than for the others
/// (2 hovered, 1 at rest).
pub open spec fn button_elevation_of(variant: ButtonVariant, enabled: bool, pressed: bool, hovered: bool) -> Elevation {
    if !enabled {
        Elevation::Level0
    } else if pressed {
        Elevation::Level2
    } else if hovered {
        if variant == ButtonVariant::Primary { Elevation::Level3 } else { Elevation::Level2 }
    } else {
        if variant == ButtonVariant::Primary { Elevation::Level2 } else { Elevation::Level1 }
    }
}

/// The elevation a button is drawn at, from its variant and interaction state.
pub fn button_elevation(variant: ButtonVariant, enabled: bool, pressed: bool, hovered: bool) -> (r: Elevation)
    ensures
        r == button_elevation_of(variant, enabled, pressed, hovered),
{
    if !enabled {
        Elevation::Level0
    } else if pressed {
        Elevation::Level2
    } else if hovered {
        match variant {
            ButtonVariant::Primary => Elevation::Level3,
            _ => Elevation::Level2,
        }
    } else {
        match variant {
            ButtonVariant::Primary => Elevation::Level2,
            _ => Elevation::Level1,
        }
    }
}

/// A segmented control: a row of labelled options, one of them selected.
#[derive(Debug)]
pub struct SegmentedControl<T> {
    options: Vec<(T, String, Option<IconType>)>,
    selected: T,
    size: ButtonSize,
}

impl<T> SegmentedControl<T> {
    /// The options in the order they were added, each with its label text and icon.
    pub closed spec fn option_list(&self) -> Seq<(T, Seq<char>, Option<IconType>)> {
        self.options@.map_values(|o: (T, String, Option<IconType>)| (o.0, o.1@, o.2))
    }

    /// The selected value.
    pub closed spec fn chosen(&self) -> T {
        self.selected
    }

    /// The size the control is drawn at.
    pub closed spec fn button_size(&self) -> ButtonSize {
        self.size
    }

    /// Creates a segmented control with no options, at medium size.
    pub fn new(selected: T) -> (r: Self)
        ensures
            r.option_list().len() == 0,
            r.chosen() == selected,
            r.button_size() == ButtonSize::Medium,
    {
        SegmentedControl { options: Vec::new(), selected, size: ButtonSize::Medium }
    }

    /// Adds an option after the others.
    pub fn option(self, value: T, label: String, icon: Option<IconType>) -> (r: Self)
        ensures
            r.option_list() == self.option_list().push((value, label@, icon)),
            r.chosen() == self.chosen(),
            r.button_size() == self.button_size(),
    {
        let mut s = self;
        let ghost before = s.options@;
        s.options.push((value, label, icon));
        proof {
            let f = |o: (T, String, Option<IconType>)| (o.0, o.1@, o.2);
            assert(s.options@.map_values(f) =~= before.map_values(f).push((value, label@, icon)));
        }
        s
    }

    /// Sets the size of the control.
    pub fn size(self, size: ButtonSize) -> (r: Self)
        ensures
            r.option_list() == self.option_list(),
            r.chosen() == self.chosen(),
            r.button_size() == size,
    {
        let mut s = self;
        s.size = size;
        s
    }

    /// The options, in the order they were added.
    pub fn options(&self) -> (r: &[(T, String, Option<IconType>)])
        ensures
            r@.map_values(|o: (T, String, Option<IconType>)| (o.0, o.1@, o.2)) == self.option_list(),
    {
        self.options.as_slice()
    }

    /// The selected value.
    pub fn selected(&self) -> (r: &T)
        ensures
            *r == self.chosen(),
    {
        &self.selected
    }

    /// The size the control is drawn at.
    pub fn control_size(&self) -> (r: ButtonSize)
        ensures
            r == self.button_size(),
    {
        self.size
    }
}

} // verus!
