//! User settings, their defaults, the overlay anchor and the rule by which a
//! stored configuration is accepted or replaced by the defaults.

use vstd::prelude::*;

verus! {

/// Width of the overlay window, in logical pixels.
pub const OVERLAY_WIDTH: u32 = 380;

/// Height of the overlay window, in logical pixels.
pub const OVERLAY_HEIGHT: u32 = 130;

/// Bit pattern of the `f32` value 1.0, the default sensitivity.
pub const DEFAULT_SENSITIVITY_BITS: u32 = 0x3f80_0000;

/// Persistent user settings.
///
/// `position` names a screen corner ("bottom-right", "bottom-left",
/// "top-right", "top-left"); `theme` names a theme ("frosted-card",
/// "minimal-hud", "dynamic-island", "cyber-neon", or a custom one).
/// `sensitivity_bits` is the IEEE-754 bit pattern of the `f32` sensitivity
/// (0.5 to 2.0), carried through unchanged. `auto_hide_seconds` is 0 to keep
/// the standby card visible, or the seconds after which it fades out.
#[derive(Clone, Debug)]
pub struct AppConfig {
    pub position: String,
    pub click_through: bool,
    pub theme: String,
    pub sensitivity_bits: u32,
    pub auto_hide_seconds: u32,
    pub margin_x: i32,
    pub margin_y: i32,
}

/// The mathematical value of an [`AppConfig`].
pub struct AppConfigView {
    pub position: Seq<char>,
    pub click_through: bool,
    pub theme: Seq<char>,
    pub sensitivity_bits: u32,
    pub auto_hide_seconds: u32,
    pub margin_x: i32,
    pub margin_y: i32,
}

impl View for AppConfig {
    type V = AppConfigView;

    open spec fn view(&self) -> AppConfigView {
        AppConfigView {
            position: self.position@,
            click_through: self.click_through,
            theme: self.theme@,
            sensitivity_bits: self.sensitivity_bits,
            auto_hide_seconds: self.auto_hide_seconds,
            margin_x: self.margin_x,
            margin_y: self.margin_y,
        }
    }
}

/// The settings used when none are stored.
pub open spec fn default_config() -> AppConfigView {
    AppConfigView {
        position: "bottom-right"@,
        click_through: false,
        theme: "frosted-card"@,
        sensitivity_bits: DEFAULT_SENSITIVITY_BITS,
        auto_hide_seconds: 0,
        margin_x: 24,
        margin_y: 24,
    }
}

impl Default for AppConfig {
    fn default() -> (res: Self)
        ensures
            res@ == default_config(),
    {
        AppConfig {
            position: String::from_str("bottom-right"),
            click_through: false,
            theme: String::from_str("frosted-card"),
            sensitivity_bits: DEFAULT_SENSITIVITY_BITS,
            auto_hide_seconds: 0,
            margin_x: 24,
            margin_y: 24,
        }
    }
}

/// The screen corner the overlay is anchored to.
#[derive(Clone, Copy, Debug, PartialEq, Eq, Structural)]
pub enum Anchor {
    BottomRight,
    BottomLeft,
    TopRight,
    TopLeft,
}

/// The anchor named by a position setting; any name other than
/// "bottom-left", "top-right" or "top-left" means the bottom-right corner.
pub open spec fn anchor_of(position: Seq<char>) -> Anchor {
    if position == "bottom-left"@ {
        Anchor::BottomLeft
    } else if position == "top-right"@ {
        Anchor::TopRight
    } else if position == "top-left"@ {
        Anchor::TopLeft
    } else {
        Anchor::BottomRight
    }
}

/// The canonical name of an anchor, as stored in the settings.
pub open spec fn anchor_name(anchor: Anchor) -> Seq<char> {
    match anchor {
        Anchor::BottomRight => "bottom-right"@,
        Anchor::BottomLeft => "bottom-left"@,
        Anchor::TopRight => "top-right"@,
        Anchor::TopLeft => "top-left"@,
    }
}

impl Anchor {
    /// Reads a position setting.
    pub fn from_position(position: &str) -> (res: Anchor)
        ensures
            res == anchor_of(position@),
    {
        if crate::text::str_equal(position, "bottom-left") {
            Anchor::BottomLeft
        } else if crate::text::str_equal(position, "top-right") {
            Anchor::TopRight
        } else if crate::text::str_equal(position, "top-left") {
            Anchor::TopLeft
        } else {
            Anchor::BottomRight
        }
    }

    /// The canonical name of this anchor.
    pub fn name(&self) -> (res: String)
        ensures
            res@ == anchor_name(*self),
    {
        match self {
            Anchor::BottomRight => String::from_str("bottom-right"),
            Anchor::BottomLeft => String::from_str("bottom-left"),
            Anchor::TopRight => String::from_str("top-right"),
            Anchor::TopLeft => String::from_str("top-left"),
        }
    }

    /// Whether the overlay hugs the left screen edge (else the right one).
    pub fn is_left(&self) -> (res: bool)
        ensures
            res == (*self == Anchor::BottomLeft || *self == Anchor::TopLeft),
    {
        match self {
            Anchor::BottomLeft | Anchor::TopLeft => true,
            _ => false,
        }
    }

    /// Whether the overlay hugs the top screen edge (else the bottom one).
    pub fn is_top(&self) -> (res: bool)
        ensures
            res == (*self == Anchor::TopRight || *self == Anchor::TopLeft),
    {
        match self {
            Anchor::TopRight | Anchor::TopLeft => true,
            _ => false,
        }
    }
}

/// Reading the canonical name of an anchor gives that anchor back.
pub proof fn lemma_anchor_name_round_trip(anchor: Anchor)
    ensures
        anchor_of(anchor_name(anchor)) == anchor,
{
    reveal_strlit("bottom-right");
    reveal_strlit("bottom-left");
    reveal_strlit("top-right");
    reveal_strlit("top-left");
    // Names differ at their first or eighth character.
    assert("bottom-right"@[7] != "bottom-left"@[7]);
    assert("bottom-right"@[0] != "top-right"@[0]);
    assert("bottom-right"@[0] != "top-left"@[0]);
    assert("bottom-left"@[0] != "top-right"@[0]);
    assert("bottom-left"@[0] != "top-left"@[0]);
    assert("top-right"@[4] != "top-left"@[4]);
}

/// The name of each corner says which edges the overlay hugs: names of the
/// top corners begin with "top-", those of the bottom corners with
/// "bottom-"; names of the left corners end with "left", those of the right
/// corners with "right"; and `is_top`/`is_left` agree.
pub proof fn lemma_anchor_names_match_edges(anchor: Anchor)
    ensures
        crate::text::has_prefix(anchor_name(anchor), "top-"@) <==> (anchor == Anchor::TopRight || anchor
            == Anchor::TopLeft),
        crate::text::has_prefix(anchor_name(anchor), "bottom-"@) <==> (anchor == Anchor::BottomRight || anchor
            == Anchor::BottomLeft),
        anchor_name(anchor).len() >= 4 && (anchor_name(anchor).subrange(
            anchor_name(anchor).len() - 4,
            anchor_name(anchor).len() as int,
        ) == "left"@) <==> (anchor == Anchor::BottomLeft || anchor == Anchor::TopLeft),
{
    reveal_strlit("bottom-right");
    reveal_strlit("bottom-left");
    reveal_strlit("top-right");
    reveal_strlit("top-left");
    reveal_strlit("top-");
    reveal_strlit("bottom-");
    reveal_strlit("left");
    let n = anchor_name(anchor);
    match anchor {
        Anchor::BottomRight => {
            assert(n.subrange(0, 7) =~= "bottom-"@);
            assert(n.subrange(0, 4)[0] != "top-"@[0]);
            assert(n.subrange(n.len() - 4, n.len() as int)[0] != "left"@[0]);
        },
        Anchor::BottomLeft => {
            assert(n.subrange(0, 7) =~= "bottom-"@);
            assert(n.subrange(0, 4)[0] != "top-"@[0]);
            assert(n.subrange(n.len() - 4, n.len() as int) =~= "left"@);
        },
        Anchor::TopRight => {
            assert(n.subrange(0, 4) =~= "top-"@);
            assert(n.subrange(0, 7)[0] != "bottom-"@[0]);
            assert(n.subrange(n.len() - 4, n.len() as int)[0] != "left"@[0]);
        },
        Anchor::TopLeft => {
            assert(n.subrange(0, 4) =~= "top-"@);
            assert(n.subrange(0, 7)[0] != "bottom-"@[0]);
            assert(n.subrange(n.len() - 4, n.len() as int) =~= "left"@);
        },
    }
}

/// The default settings put the overlay in the bottom-right corner, without
/// click-through, with a margin of 24 on both axes, a sensitivity of 1.0 and
/// the standby card kept visible.
pub proof fn lemma_default_config()
    ensures
        anchor_of(default_config().position) == Anchor::BottomRight,
        !default_config().click_through,
        default_config().margin_x == 24 && default_config().margin_y == 24,
        default_config().sensitivity_bits == 0x3f80_0000,
        default_config().auto_hide_seconds == 0,
{
    lemma_anchor_name_round_trip(Anchor::BottomRight);
}

/// Where user settings are loaded from and saved to.
pub struct ConfigManager;

impl ConfigManager {
    /// Decides the outcome of loading: settings that were read and parsed
    /// are used as they are; otherwise the defaults are used and are to be
    /// written back. The second component says whether to write them.
    pub fn resolve_load(stored: Option<AppConfig>) -> (res: (AppConfig, bool))
        ensures
            match stored {
                Some(c) => res.0@ == c@ && !res.1,
                None => res.0@ == default_config() && res.1,
            },
    {
        match stored {
            Some(c) => (c, false),
            None => (AppConfig::default(), true),
        }
    }
}

} // verus!
