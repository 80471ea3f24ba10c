use music_motion::config::{Anchor, AppConfig, ConfigManager, OVERLAY_HEIGHT, OVERLAY_WIDTH};
use music_motion::tray::{apply_tray_command, BuiltinTheme, TrayCommand, TrayEffect};
use music_motion::window::Win32WindowHelper;

#[test]
fn default_config_values() {
    let c = AppConfig::default();
    assert_eq!(c.position, "bottom-right");
    assert!(!c.click_through);
    assert_eq!(c.theme, "frosted-card");
    assert_eq!(f32::from_bits(c.sensitivity_bits), 1.0f32);
    assert_eq!(c.auto_hide_seconds, 0);
    assert_eq!(c.margin_x, 24);
    assert_eq!(c.margin_y, 24);
}

#[test]
fn overlay_size() {
    assert_eq!((OVERLAY_WIDTH, OVERLAY_HEIGHT), (380, 130));
}

#[test]
fn anchor_from_position_names() {
    assert_eq!(Anchor::from_position("bottom-right"), Anchor::BottomRight);
    assert_eq!(Anchor::from_position("bottom-left"), Anchor::BottomLeft);
    assert_eq!(Anchor::from_position("top-right"), Anchor::TopRight);
    assert_eq!(Anchor::from_position("top-left"), Anchor::TopLeft);
}

#[test]
fn anchor_unknown_position_is_bottom_right() {
    assert_eq!(Anchor::from_position(""), Anchor::BottomRight);
    assert_eq!(Anchor::from_position("center"), Anchor::BottomRight);
    assert_eq!(Anchor::from_position("Top-Left"), Anchor::BottomRight);
    assert_eq!(Anchor::from_position("top-left "), Anchor::BottomRight);
}

#[test]
fn anchor_name_round_trip() {
    for a in [Anchor::BottomRight, Anchor::BottomLeft, Anchor::TopRight, Anchor::TopLeft] {
        assert_eq!(Anchor::from_position(a.name().as_str()), a);
    }
}

#[test]
fn anchor_edges() {
    assert!(!Anchor::BottomRight.is_left() && !Anchor::BottomRight.is_top());
    assert!(Anchor::BottomLeft.is_left() && !Anchor::BottomLeft.is_top());
    assert!(!Anchor::TopRight.is_left() && Anchor::TopRight.is_top());
    assert!(Anchor::TopLeft.is_left() && Anchor::TopLeft.is_top());
}

#[test]
fn load_keeps_stored_settings() {
    let mut stored = AppConfig::default();
    stored.theme = "cyber-neon".to_string();
    stored.margin_x = 40;
    let (c, write_back) = ConfigManager::resolve_load(Some(stored));
    assert!(!write_back);
    assert_eq!(c.theme, "cyber-neon");
    assert_eq!(c.margin_x, 40);
}

#[test]
fn load_without_settings_writes_defaults() {
    let (c, write_back) = ConfigManager::resolve_load(None);
    assert!(write_back);
    assert_eq!(c.position, "bottom-right");
    assert_eq!(c.theme, "frosted-card");
}

#[test]
fn menu_ids() {
    assert_eq!(TrayCommand::from_menu_id("toggle_click_through"), TrayCommand::ToggleClickThrough);
    assert_eq!(TrayCommand::from_menu_id("pos_br"), TrayCommand::MoveTo(Anchor::BottomRight));
    assert_eq!(TrayCommand::from_menu_id("pos_bl"), TrayCommand::MoveTo(Anchor::BottomLeft));
    assert_eq!(TrayCommand::from_menu_id("pos_tr"), TrayCommand::MoveTo(Anchor::TopRight));
    assert_eq!(TrayCommand::from_menu_id("pos_tl"), TrayCommand::MoveTo(Anchor::TopLeft));
    assert_eq!(TrayCommand::from_menu_id("theme_frosted"), TrayCommand::UseTheme(BuiltinTheme::FrostedCard));
    assert_eq!(TrayCommand::from_menu_id("theme_minimal"), TrayCommand::UseTheme(BuiltinTheme::MinimalHud));
    assert_eq!(TrayCommand::from_menu_id("theme_island"), TrayCommand::UseTheme(BuiltinTheme::DynamicIsland));
    assert_eq!(TrayCommand::from_menu_id("theme_neon"), TrayCommand::UseTheme(BuiltinTheme::CyberNeon));
    assert_eq!(TrayCommand::from_menu_id("open_themes"), TrayCommand::OpenThemesFolder);
    assert_eq!(TrayCommand::from_menu_id("quit"), TrayCommand::Quit);
    assert_eq!(TrayCommand::from_menu_id("title"), TrayCommand::Ignore);
    assert_eq!(TrayCommand::from_menu_id(""), TrayCommand::Ignore);
}

#[test]
fn theme_ids() {
    assert_eq!(BuiltinTheme::FrostedCard.id(), "frosted-card");
    assert_eq!(BuiltinTheme::MinimalHud.id(), "minimal-hud");
    assert_eq!(BuiltinTheme::DynamicIsland.id(), "dynamic-island");
    assert_eq!(BuiltinTheme::CyberNeon.id(), "cyber-neon");
}

#[test]
fn toggle_twice_restores() {
    let (c1, e1) = apply_tray_command(AppConfig::default(), TrayCommand::ToggleClickThrough);
    assert!(c1.click_through);
    assert_eq!(e1, TrayEffect::ClickThroughChanged(true));
    let (c2, e2) = apply_tray_command(c1, TrayCommand::ToggleClickThrough);
    assert!(!c2.click_through);
    assert_eq!(e2, TrayEffect::ClickThroughChanged(false));
    assert_eq!(c2.position, "bottom-right");
    assert_eq!(c2.theme, "frosted-card");
}

#[test]
fn move_sets_position() {
    let (c, e) = apply_tray_command(AppConfig::default(), TrayCommand::MoveTo(Anchor::TopLeft));
    assert_eq!(c.position, "top-left");
    assert_eq!(e, TrayEffect::Repositioned(Anchor::TopLeft));
    assert!(e.saves_config());
    assert_eq!(Anchor::from_position(&c.position), Anchor::TopLeft);
    assert!(!c.click_through);
}

#[test]
fn theme_sets_theme() {
    let (c, e) = apply_tray_command(AppConfig::default(), TrayCommand::UseTheme(BuiltinTheme::MinimalHud));
    assert_eq!(c.theme, "minimal-hud");
    assert_eq!(e, TrayEffect::ThemeChanged);
    assert!(e.saves_config());
    assert_eq!(c.position, "bottom-right");
}

#[test]
fn other_commands_keep_settings() {
    for (cmd, eff) in [
        (TrayCommand::OpenThemesFolder, TrayEffect::OpenThemesFolder),
        (TrayCommand::Quit, TrayEffect::Quit),
        (TrayCommand::Ignore, TrayEffect::Nothing),
    ] {
        let (c, e) = apply_tray_command(AppConfig::default(), cmd);
        assert_eq!(e, eff);
        assert!(!e.saves_config());
        assert_eq!(c.position, "bottom-right");
        assert_eq!(c.theme, "frosted-card");
        assert!(!c.click_through);
    }
}

#[test]
fn work_area_from_rect() {
    assert_eq!(Win32WindowHelper::work_area_from_rect(0, 0, 0, 0), (1920, 1040));
    assert_eq!(Win32WindowHelper::work_area_from_rect(0, 0, 2560, 1400), (2560, 1400));
    assert_eq!(Win32WindowHelper::work_area_from_rect(100, 50, 1380, 770), (1280, 720));
    assert_eq!(Win32WindowHelper::work_area_from_rect(-1920, 0, 0, 1040), (1920, 1040));
}
