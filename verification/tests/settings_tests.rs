use onet_agent_core::settings::{GlobalCurrentUser, GlobalProxySettings};
use onet_agent_core::fonts::{grid_monospace_font, installed_grid_monospace_font};
use onet_agent_core::fonts::{
    default_grid_font_fallback_families, default_grid_monospace_font_family,
    is_installed_font_family, is_supported_grid_monospace_font,
    normalize_grid_monospace_font_family, resolve_installed_grid_monospace_font_family, Platform,
};
use onet_agent_core::settings::{
    default_terminal_scrollback_lines, effective_theme_mode, normalize_accent_color,
    normalize_terminal_scrollback_lines, normalize_terminal_theme, normalize_theme_mode,
    LargeTextCellEditorOpenMode, McpPermissionMode, ThemeMode, ToolExposureToolsetSettings,
};

#[test]
fn large_text_editor_open_mode_defaults_to_sidebar_preview() {
    assert_eq!(
        LargeTextCellEditorOpenMode::from_str("unknown"),
        LargeTextCellEditorOpenMode::SidebarPreview
    );
}

#[test]
fn large_text_editor_open_mode_parses_dialog() {
    assert_eq!(
        LargeTextCellEditorOpenMode::from_str("dialog"),
        LargeTextCellEditorOpenMode::Dialog
    );
}

#[test]
fn mcp_permission_modes_expose_unified_profile_ids() {
    assert_eq!("safe", McpPermissionMode::Deny.profile_id());
    assert_eq!("confirm", McpPermissionMode::Ask.profile_id());
    assert_eq!("auto", McpPermissionMode::Allow.profile_id());
}

#[test]
fn resolve_installed_grid_font_rejects_missing_requested_family() {
    let default = default_grid_monospace_font_family(Platform::Other);
    let installed = vec![default.to_string(), "PingFang SC".to_string()];

    assert_eq!(
        default,
        resolve_installed_grid_monospace_font_family("Fira Code", &installed, Platform::Other)
    );
    assert_eq!(
        default,
        resolve_installed_grid_monospace_font_family("PingFang SC", &installed, Platform::Other)
    );
}

#[test]
fn resolve_installed_grid_font_keeps_installed_requested_family() {
    let installed = vec!["Menlo".to_string(), "JetBrains Mono".to_string()];

    assert_eq!(
        "JetBrains Mono",
        resolve_installed_grid_monospace_font_family("JetBrains Mono", &installed, Platform::Other)
    );
}

#[test]
fn installed_font_family_matches_case_insensitively() {
    let installed = vec!["Menlo".to_string(), "JetBrains Mono".to_string()];

    assert!(is_installed_font_family(" jetbrains mono ", &installed));
    assert!(!is_installed_font_family("Fira Code", &installed));
}

#[test]
fn default_grid_font_fallbacks_include_cjk_before_symbol_fonts() {
    for platform in [Platform::MacOs, Platform::Windows, Platform::Other] {
        let fallbacks = default_grid_font_fallback_families(platform);
        let cjk_index = fallbacks
            .iter()
            .position(|font| font == "Noto Sans CJK SC" || font == "Microsoft YaHei")
            .expect("grid font fallback should include a CJK font");

        for symbol_font in ["Apple Color Emoji", "Apple Symbols", "Noto Color Emoji"] {
            if let Some(symbol_index) = fallbacks.iter().position(|font| font == symbol_font) {
                assert!(cjk_index < symbol_index);
            }
        }
    }
}

#[test]
fn grid_font_normalization_replaces_proportional_families_with_default() {
    let default = default_grid_monospace_font_family(Platform::Other);
    assert_eq!(
        default,
        normalize_grid_monospace_font_family("Noto Sans Mono CJK SC", Platform::Other)
    );
    assert_eq!(default, normalize_grid_monospace_font_family("PingFang SC", Platform::Other));
    assert_eq!(default, normalize_grid_monospace_font_family("Microsoft YaHei", Platform::Other));
    assert_eq!("JetBrains Mono", normalize_grid_monospace_font_family("JetBrains Mono", Platform::Other));
    assert_eq!("Custom Mono", normalize_grid_monospace_font_family("Custom Mono", Platform::Other));
    assert!(!is_supported_grid_monospace_font("PingFang SC"));
    assert!(is_supported_grid_monospace_font("Table Safe Mono"));
}

#[test]
fn default_grid_font_follows_the_platform() {
    assert_eq!("Menlo", default_grid_monospace_font_family(Platform::MacOs));
    assert_eq!("Consolas", default_grid_monospace_font_family(Platform::Windows));
    assert_eq!("DejaVu Sans Mono", default_grid_monospace_font_family(Platform::Other));
}

#[test]
fn mcp_toolset_defaults_differ_for_public_server_and_agent() {
    let mcp = ToolExposureToolsetSettings::public_mcp_default();
    assert!(mcp.terminal);
    assert!(mcp.terminal_ssh_exec);
    assert!(mcp.terminal_exec);
    assert!(mcp.connections);
    assert!(!mcp.database);
    assert!(!mcp.redis);
    assert!(!mcp.sftp);
    let agent = ToolExposureToolsetSettings::agent_default();
    assert!(agent.terminal);
    assert!(agent.database);
    assert!(agent.redis);
    assert!(agent.sftp);
}

#[test]
fn terminal_scrollback_lines_default_and_normalization_are_safe() {
    assert_eq!(100_000, default_terminal_scrollback_lines());
    assert_eq!(1_000, normalize_terminal_scrollback_lines(10));
    assert_eq!(1_000_000, normalize_terminal_scrollback_lines(2_000_000));
    assert_eq!(5_000, normalize_terminal_scrollback_lines(5_000));
}

#[test]
fn appearance_mode_and_accent_are_normalized() {
    assert_eq!("light", normalize_theme_mode(false, "unknown"));
    assert_eq!("dark", normalize_theme_mode(false, "dark"));
    assert_eq!("system", normalize_theme_mode(true, "light"));
    assert_eq!("#3b82f6", normalize_accent_color(""));
    assert_eq!("#ff0000", normalize_accent_color("#ff0000"));
}

#[test]
fn terminal_theme_normalization_trims_and_defaults_empty_values() {
    assert_eq!("ocean", normalize_terminal_theme("  ocean  "));
    assert_eq!("application", normalize_terminal_theme("   "));
}

#[test]
fn appearance_settings_resolve_light_dark_and_system_modes() {
    assert_eq!(ThemeMode::Light, effective_theme_mode(false, "light", ThemeMode::Dark));
    assert_eq!(ThemeMode::Dark, effective_theme_mode(false, "dark", ThemeMode::Light));
    assert_eq!(ThemeMode::Dark, effective_theme_mode(false, "system", ThemeMode::Dark));
    assert_eq!(ThemeMode::Dark, effective_theme_mode(true, "light", ThemeMode::Dark));
}

#[test]
fn grid_fonts_carry_the_platform_fallbacks() {
    let font = grid_monospace_font("JetBrains Mono", Platform::Windows);
    assert_eq!("JetBrains Mono", font.family);
    assert_eq!(default_grid_font_fallback_families(Platform::Windows), font.fallbacks);

    let installed = vec!["Menlo".to_string()];
    let resolved = installed_grid_monospace_font("Fira Code", &installed, Platform::MacOs);
    assert_eq!(
        resolve_installed_grid_monospace_font_family("Fira Code", &installed, Platform::MacOs),
        resolved.family
    );
    assert_eq!(default_grid_font_fallback_families(Platform::MacOs), resolved.fallbacks);
}

#[test]
fn current_user_is_set_and_cleared() {
    let mut current: GlobalCurrentUser<String> = GlobalCurrentUser::new();
    assert_eq!(None, current.get_user());
    current.set_user(Some("alice".to_string()));
    assert_eq!(Some(&"alice".to_string()), current.get_user());
    current.set_user(None);
    assert_eq!(None, current.get_user());
}

#[test]
fn proxy_credentials_trim_the_user_and_skip_empty_values() {
    let mut proxy = GlobalProxySettings::default();
    proxy.enabled = true;
    proxy.host = " 127.0.0.1 ".to_string();
    proxy.port = 1080;
    proxy.username = "  bob ".to_string();
    proxy.password = "s3cret".to_string();
    assert_eq!(
        (Some("bob".to_string()), Some("s3cret".to_string())),
        proxy.proxy_credentials()
    );
    assert_eq!(Ok(Some("socks5://127.0.0.1:1080".to_string())), proxy.proxy_url_base());

    proxy.username = "   ".to_string();
    proxy.password = String::new();
    assert_eq!((None, None), proxy.proxy_credentials());
}

#[test]
fn new_settings_follow_the_system_locale() {
    assert_eq!("system", onet_agent_core::settings::default_locale());
}
