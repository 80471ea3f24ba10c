//! Decisions of the system-tray menu: which command a menu entry stands for,
//! how it changes the settings, and what has to happen afterwards.

use vstd::prelude::*;
use crate::config::{AppConfig, AppConfigView, Anchor, anchor_name, anchor_of};
use crate::text::str_equal;

verus! {

/// The themes that come with the application.
#[derive(Clone, Copy, Debug, PartialEq, Eq, Structural)]
pub enum BuiltinTheme {
    FrostedCard,
    MinimalHud,
    DynamicIsland,
    CyberNeon,
}

/// The identifier under which a built-in theme is stored in the settings.
pub open spec fn theme_id(theme: BuiltinTheme) -> Seq<char> {
    match theme {
        BuiltinTheme::FrostedCard => "frosted-card"@,
        BuiltinTheme::MinimalHud => "minimal-hud"@,
        BuiltinTheme::DynamicIsland => "dynamic-island"@,
        BuiltinTheme::CyberNeon => "cyber-neon"@,
    }
}

impl BuiltinTheme {
    /// The identifier under which this theme is stored in the settings.
    pub fn id(&self) -> (res: String)
        ensures
            res@ == theme_id(*self),
    {
        match self {
            BuiltinTheme::FrostedCard => String::from_str("frosted-card"),
            BuiltinTheme::MinimalHud => String::from_str("minimal-hud"),
            BuiltinTheme::DynamicIsland => String::from_str("dynamic-island"),
            BuiltinTheme::CyberNeon => String::from_str("cyber-neon"),
        }
    }
}

/// What a tray menu entry asks for.
#[derive(Clone, Copy, Debug, PartialEq, Eq, Structural)]
pub enum TrayCommand {
    ToggleClickThrough,
    MoveTo(Anchor),
    UseTheme(BuiltinTheme),
    OpenThemesFolder,
    Quit,
    Ignore,
}

/// The command of the menu entry with identifier `id`.
pub open spec fn menu_command(id: Seq<char>) -> TrayCommand {
    if id == "toggle_click_through"@ {
        TrayCommand::ToggleClickThrough
    } else if id == "pos_br"@ {
        TrayCommand::MoveTo(Anchor::BottomRight)
    } else if id == "pos_bl"@ {
        TrayCommand::MoveTo(Anchor::BottomLeft)
    } else if id == "pos_tr"@ {
        TrayCommand::MoveTo(Anchor::TopRight)
    } else if id == "pos_tl"@ {
        TrayCommand::MoveTo(Anchor::TopLeft)
    } else if id == "theme_frosted"@ {
        TrayCommand::UseTheme(BuiltinTheme::FrostedCard)
    } else if id == "theme_minimal"@ {
        TrayCommand::UseTheme(BuiltinTheme::MinimalHud)
    } else if id == "theme_island"@ {
        TrayCommand::UseTheme(BuiltinTheme::DynamicIsland)
    } else if id == "theme_neon"@ {
        TrayCommand::UseTheme(BuiltinTheme::CyberNeon)
    } else if id == "open_themes"@ {
        TrayCommand::OpenThemesFolder
    } else if id == "quit"@ {
        TrayCommand::Quit
    } else {
        TrayCommand::Ignore
    }
}

impl TrayCommand {
    /// The command of the menu entry with identifier `id`; entries without a
    /// command (the title, separators) give `Ignore`.
    pub fn from_menu_id(id: &str) -> (res: TrayCommand)
        ensures
            res == menu_command(id@),
    {
        if str_equal(id, "toggle_click_through") {
            TrayCommand::ToggleClickThrough
        } else if str_equal(id, "pos_br") {
            TrayCommand::MoveTo(Anchor::BottomRight)
        } else if str_equal(id, "pos_bl") {
            TrayCommand::MoveTo(Anchor::BottomLeft)
        } else if str_equal(id, "pos_tr") {
            TrayCommand::MoveTo(Anchor::TopRight)
        } else if str_equal(id, "pos_tl") {
            TrayCommand::MoveTo(Anchor::TopLeft)
        } else if str_equal(id, "theme_frosted") {
            TrayCommand::UseTheme(BuiltinTheme::FrostedCard)
        } else if str_equal(id, "theme_minimal") {
            TrayCommand::UseTheme(BuiltinTheme::MinimalHud)
        } else if str_equal(id, "theme_island") {
            TrayCommand::UseTheme(BuiltinTheme::DynamicIsland)
        } else if str_equal(id, "theme_neon") {
            TrayCommand::UseTheme(BuiltinTheme::CyberNeon)
        } else if str_equal(id, "open_themes") {
            TrayCommand::OpenThemesFolder
        } else if str_equal(id, "quit") {
            TrayCommand::Quit
        } else {
            TrayCommand::Ignore
        }
    }
}

/// What has to happen after a tray command was applied to the settings.
#[derive(Clone, Copy, Debug, PartialEq, Eq, Structural)]
pub enum TrayEffect {
    /// Save the settings, set click-through to the value, notify the window.
    ClickThroughChanged(bool),
    /// Save the settings, move the overlay to the corner, notify the window.
    Repositioned(Anchor),
    /// Save the settings and notify the window.
    ThemeChanged,
    /// Open the custom themes folder.
    OpenThemesFolder,
    /// Exit the application with status 0.
    Quit,
    /// Nothing.
    Nothing,
}

impl TrayEffect {
    /// Whether the settings are to be saved.
    pub fn saves_config(&self) -> (res: bool)
        ensures
            res == (*self is ClickThroughChanged || *self is Repositioned || *self is ThemeChanged),
    {
        match self {
            TrayEffect::ClickThroughChanged(_) | TrayEffect::Repositioned(_) | TrayEffect::ThemeChanged => true,
            _ => false,
        }
    }
}

/// The settings after a tray command.
pub open spec fn config_after(config: AppConfigView, command: TrayCommand) -> AppConfigView {
    match command {
        TrayCommand::ToggleClickThrough => AppConfigView { click_through: !config.click_through, ..config },
        TrayCommand::MoveTo(anchor) => AppConfigView { position: anchor_name(anchor), ..config },
        TrayCommand::UseTheme(theme) => AppConfigView { theme: theme_id(theme), ..config },
        _ => config,
    }
}

/// What follows a tray command applied to `config`.
pub open spec fn effect_of(config: AppConfigView, command: TrayCommand) -> TrayEffect {
    match command {
        TrayCommand::ToggleClickThrough => TrayEffect::ClickThroughChanged(!config.click_through),
        TrayCommand::MoveTo(anchor) => TrayEffect::Repositioned(anchor),
        TrayCommand::UseTheme(_) => TrayEffect::ThemeChanged,
        TrayCommand::OpenThemesFolder => TrayEffect::OpenThemesFolder,
        TrayCommand::Quit => TrayEffect::Quit,
        TrayCommand::Ignore => TrayEffect::Nothing,
    }
}

/// Applies a tray command to the settings and says what has to follow.
pub fn apply_tray_command(config: AppConfig, command: TrayCommand) -> (res: (AppConfig, TrayEffect))
    ensures
        res.0@ == config_after(config@, command),
        res.1 == effect_of(config@, command),
{
    let mut config = config;
    match command {
        TrayCommand::ToggleClickThrough => {
            config.click_through = !config.click_through;
            let now = config.click_through;
            (config, TrayEffect::ClickThroughChanged(now))
        },
        TrayCommand::MoveTo(anchor) => {
            config.position = anchor.name();
            (config, TrayEffect::Repositioned(anchor))
        },
        TrayCommand::UseTheme(theme) => {
            config.theme = theme.id();
            (config, TrayEffect::ThemeChanged)
        },
        TrayCommand::OpenThemesFolder => (config, TrayEffect::OpenThemesFolder),
        TrayCommand::Quit => (config, TrayEffect::Quit),
        TrayCommand::Ignore => (config, TrayEffect::Nothing),
    }
}

/// Every command of the tray menu is reached by one of its entries: the
/// click-through toggle, each of the four corners, each of the four themes,
/// opening the themes folder and quitting.
pub proof fn lemma_menu_reaches_every_command(anchor: Anchor, theme: BuiltinTheme)
    ensures
        exists|id: Seq<char>| menu_command(id) == TrayCommand::ToggleClickThrough,
        exists|id: Seq<char>| menu_command(id) == TrayCommand::MoveTo(anchor),
        exists|id: Seq<char>| menu_command(id) == TrayCommand::UseTheme(theme),
        exists|id: Seq<char>| menu_command(id) == TrayCommand::OpenThemesFolder,
        exists|id: Seq<char>| menu_command(id) == TrayCommand::Quit,
{
    reveal_strlit("toggle_click_through");
    reveal_strlit("pos_br");
    reveal_strlit("pos_bl");
    reveal_strlit("pos_tr");
    reveal_strlit("pos_tl");
    reveal_strlit("theme_frosted");
    reveal_strlit("theme_minimal");
    reveal_strlit("theme_island");
    reveal_strlit("theme_neon");
    reveal_strlit("open_themes");
    reveal_strlit("quit");
    assert(menu_command("toggle_click_through"@) == TrayCommand::ToggleClickThrough);
    assert("pos_br"@[0] != "toggle_click_through"@[0]);
    assert(menu_command("pos_br"@) == TrayCommand::MoveTo(Anchor::BottomRight));
    assert("pos_bl"@[0] != "toggle_click_through"@[0] && "pos_bl"@[5] != "pos_br"@[5]);
    assert(menu_command("pos_bl"@) == TrayCommand::MoveTo(Anchor::BottomLeft));
    assert("pos_tr"@[0] != "toggle_click_through"@[0] && "pos_tr"@[4] != "pos_br"@[4] && "pos_tr"@[4]
        != "pos_bl"@[4]);
    assert(menu_command("pos_tr"@) == TrayCommand::MoveTo(Anchor::TopRight));
    assert("pos_tl"@[0] != "toggle_click_through"@[0] && "pos_tl"@[4] != "pos_br"@[4] && "pos_tl"@[4]
        != "pos_bl"@[4] && "pos_tl"@[5] != "pos_tr"@[5]);
    assert(menu_command("pos_tl"@) == TrayCommand::MoveTo(Anchor::TopLeft));
    assert("theme_frosted"@[1] != "toggle_click_through"@[1]);
    assert("theme_frosted"@[0] != "pos_br"@[0] && "theme_frosted"@[0] != "pos_bl"@[0]);
    assert("theme_frosted"@[0] != "pos_tr"@[0] && "theme_frosted"@[0] != "pos_tl"@[0]);
    assert(menu_command("theme_frosted"@) == TrayCommand::UseTheme(BuiltinTheme::FrostedCard));
    assert("theme_minimal"@[1] != "toggle_click_through"@[1]);
    assert("theme_minimal"@[0] != "pos_br"@[0] && "theme_minimal"@[0] != "pos_bl"@[0]);
    assert("theme_minimal"@[0] != "pos_tr"@[0] && "theme_minimal"@[0] != "pos_tl"@[0]);
    assert("theme_minimal"@[6] != "theme_frosted"@[6]);
    assert(menu_command("theme_minimal"@) == TrayCommand::UseTheme(BuiltinTheme::MinimalHud));
    assert("theme_island"@[1] != "toggle_click_through"@[1]);
    assert("theme_island"@[0] != "pos_br"@[0] && "theme_island"@[0] != "pos_bl"@[0]);
    assert("theme_island"@[0] != "pos_tr"@[0] && "theme_island"@[0] != "pos_tl"@[0]);
    assert("theme_island"@[6] != "theme_frosted"@[6] && "theme_island"@[6] != "theme_minimal"@[6]);
    assert(menu_command("theme_island"@) == TrayCommand::UseTheme(BuiltinTheme::DynamicIsland));
    assert("theme_neon"@[1] != "toggle_click_through"@[1]);
    assert("theme_neon"@[0] != "pos_br"@[0] && "theme_neon"@[0] != "pos_bl"@[0]);
    assert("theme_neon"@[0] != "pos_tr"@[0] && "theme_neon"@[0] != "pos_tl"@[0]);
    assert("theme_neon"@[6] != "theme_frosted"@[6] && "theme_neon"@[6] != "theme_minimal"@[6]
        && "theme_neon"@[6] != "theme_island"@[6]);
    assert(menu_command("theme_neon"@) == TrayCommand::UseTheme(BuiltinTheme::CyberNeon));
    assert("open_themes"@[0] != "toggle_click_through"@[0] && "open_themes"@[0] != "pos_br"@[0]);
    assert("open_themes"@[0] != "pos_bl"@[0] && "open_themes"@[0] != "pos_tr"@[0] && "open_themes"@[0]
        != "pos_tl"@[0]);
    assert("open_themes"@[0] != "theme_frosted"@[0] && "open_themes"@[0] != "theme_minimal"@[0]);
    assert("open_themes"@[0] != "theme_island"@[0] && "open_themes"@[0] != "theme_neon"@[0]);
    assert(menu_command("open_themes"@) == TrayCommand::OpenThemesFolder);
    assert("quit"@[0] != "toggle_click_through"@[0] && "quit"@[0] != "pos_br"@[0]);
    assert("quit"@[0] != "pos_bl"@[0] && "quit"@[0] != "pos_tr"@[0] && "quit"@[0] != "pos_tl"@[0]);
    assert("quit"@[0] != "theme_frosted"@[0] && "quit"@[0] != "theme_minimal"@[0]);
    assert("quit"@[0] != "theme_island"@[0] && "quit"@[0] != "theme_neon"@[0]);
    assert("quit"@[0] != "open_themes"@[0]);
    assert(menu_command("quit"@) == TrayCommand::Quit);
}

/// The default theme is the frosted card.
pub proof fn lemma_default_theme()
    ensures
        crate::config::default_config().theme == theme_id(BuiltinTheme::FrostedCard),
{
}

/// Toggling click-through twice from the tray gives the settings back
/// unchanged, and the two toggles report opposite values.
pub proof fn lemma_toggle_twice_restores(config: AppConfigView)
    ensures
        config_after(config_after(config, TrayCommand::ToggleClickThrough), TrayCommand::ToggleClickThrough)
            == config,
        effect_of(config, TrayCommand::ToggleClickThrough) == TrayEffect::ClickThroughChanged(!config.click_through),
        effect_of(config_after(config, TrayCommand::ToggleClickThrough), TrayCommand::ToggleClickThrough)
            == TrayEffect::ClickThroughChanged(config.click_through),
{
}

/// After moving the overlay from the tray, the stored position reads back as
/// the chosen corner, and nothing else in the settings changed.
pub proof fn lemma_move_reads_back(config: AppConfigView, anchor: Anchor)
    ensures
        anchor_of(config_after(config, TrayCommand::MoveTo(anchor)).position) == anchor,
        config_after(config, TrayCommand::MoveTo(anchor)).click_through == config.click_through,
        config_after(config, TrayCommand::MoveTo(anchor)).theme == config.theme,
        config_after(config, TrayCommand::MoveTo(anchor)).margin_x == config.margin_x,
        config_after(config, TrayCommand::MoveTo(anchor)).margin_y == config.margin_y,
        effect_of(config, TrayCommand::MoveTo(anchor)) == TrayEffect::Repositioned(anchor),
        effect_of(config, TrayCommand::MoveTo(anchor)) == TrayEffect::Repositioned(
            anchor_of(config_after(config, TrayCommand::MoveTo(anchor)).position),
        ),
{
    crate::config::lemma_anchor_name_round_trip(anchor);
}

/// Choosing a theme from the tray stores that theme's identifier, asks for
/// a save and a notification, and leaves the rest of the settings as they
/// were; the four themes have four different identifiers.
pub proof fn lemma_theme_choice(config: AppConfigView, theme: BuiltinTheme, other: BuiltinTheme)
    ensures
        config_after(config, TrayCommand::UseTheme(theme)).theme == theme_id(theme),
        config_after(config, TrayCommand::UseTheme(theme)).position == config.position,
        config_after(config, TrayCommand::UseTheme(theme)).click_through == config.click_through,
        effect_of(config, TrayCommand::UseTheme(theme)) == TrayEffect::ThemeChanged,
        theme != other ==> theme_id(theme) != theme_id(other),
{
    reveal_strlit("frosted-card");
    reveal_strlit("minimal-hud");
    reveal_strlit("dynamic-island");
    reveal_strlit("cyber-neon");
    assert("frosted-card"@[0] != "minimal-hud"@[0]);
    assert("frosted-card"@[0] != "dynamic-island"@[0]);
    assert("frosted-card"@[0] != "cyber-neon"@[0]);
    assert("minimal-hud"@[0] != "dynamic-island"@[0]);
    assert("minimal-hud"@[0] != "cyber-neon"@[0]);
    assert("dynamic-island"@[0] != "cyber-neon"@[0]);
}

/// Toggling click-through from the tray flips the setting, reports the new
/// value, and changes nothing else.
pub proof fn lemma_toggle_flips(config: AppConfigView)
    ensures
        config_after(config, TrayCommand::ToggleClickThrough).click_through == !config.click_through,
        config_after(config, TrayCommand::ToggleClickThrough).position == config.position,
        config_after(config, TrayCommand::ToggleClickThrough).theme == config.theme,
        effect_of(config, TrayCommand::ToggleClickThrough) == TrayEffect::ClickThroughChanged(
            config_after(config, TrayCommand::ToggleClickThrough).click_through,
        ),
{
}

/// Applying the same tray command twice changes the settings no more than
/// applying it once, for every command but the click-through toggle.
pub proof fn lemma_commands_idempotent(config: AppConfigView, command: TrayCommand)
    requires
        command != TrayCommand::ToggleClickThrough,
    ensures
        config_after(config_after(config, command), command) == config_after(config, command),
{
}

/// A tray command saves the settings exactly when it may change them.
pub proof fn lemma_saves_exactly_changing_commands(config: AppConfigView, command: TrayCommand)
    ensures
        (effect_of(config, command) is ClickThroughChanged || effect_of(config, command) is Repositioned
            || effect_of(config, command) is ThemeChanged) <==> (command is ToggleClickThrough
            || command is MoveTo || command is UseTheme),
        !(command is ToggleClickThrough || command is MoveTo || command is UseTheme)
            ==> config_after(config, command) == config,
{
}

} // verus!
