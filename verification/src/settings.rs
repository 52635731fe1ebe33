//! Application settings: the persisted choice enums and their string forms,
//! proxy validation, tool exposure defaults and the normalisation rules that
//! keep settings loaded from disk usable.
use vstd::prelude::*;

use crate::fonts::{Platform, default_grid_font, default_grid_monospace_font_family};
use crate::message_text::{decimal, push_decimal};
use crate::text::{str_eq, trim, trim_spec, is_blank_str, is_blank, lemma_blank_trims_to_empty, lemma_trim_keeps_non_ws};

verus! {

/// How a database is opened.
#[derive(Debug, Clone, Copy, PartialEq, Eq, Structural, Default)]
pub enum DatabaseOpenMode {
    /// One tab per database.
    #[default]
    Single,
    /// Databases of a workspace share a tab.
    Workspace,
}

#[derive(Debug, Clone, Copy, PartialEq, Eq, Structural, Default)]
pub enum LargeTextCellEditorOpenMode {
    #[default]
    SidebarPreview,
    Dialog,
}

#[derive(Debug, Clone, Copy, PartialEq, Eq, Structural, Default)]
pub enum StartupDefaultPage {
    #[default]
    Home,
    AiWorkbench,
}

#[derive(Debug, Clone, Copy, PartialEq, Eq, Structural, Default)]
pub enum HomeConnectionLayout {
    #[default]
    Card,
    List,
}

#[derive(Debug, Clone, Copy, PartialEq, Eq, Structural, Default)]
pub enum HomePageStyle {
    Legacy,
    #[default]
    Modern,
}

impl HomePageStyle {
    pub fn as_str(self) -> (r: &'static str)
        ensures
            r@ == (match self {
                HomePageStyle::Legacy => "legacy"@,
                HomePageStyle::Modern => "modern"@,
            }),
    {
        match self {
            HomePageStyle::Legacy => "legacy",
            HomePageStyle::Modern => "modern",
        }
    }

    /// Unknown values fall back to the modern style.
    pub fn from_value(value: &str) -> (r: Self)
        ensures
            r == (if value@ == "legacy"@ {
                HomePageStyle::Legacy
            } else {
                HomePageStyle::Modern
            }),
    {
        if str_eq(value, "legacy") {
            HomePageStyle::Legacy
        } else {
            HomePageStyle::Modern
        }
    }

    pub fn uses_persistent_sidebar(self) -> (r: bool)
        ensures
            r == (self == HomePageStyle::Modern),
    {
        self == HomePageStyle::Modern
    }
}

impl HomeConnectionLayout {
    pub fn as_str(self) -> (r: &'static str)
        ensures
            r@ == (match self {
                HomeConnectionLayout::Card => "card"@,
                HomeConnectionLayout::List => "list"@,
            }),
    {
        match self {
            HomeConnectionLayout::Card => "card",
            HomeConnectionLayout::List => "list",
        }
    }

    /// Unknown values fall back to the card layout.
    pub fn from_value(value: &str) -> (r: Self)
        ensures
            r == (if value@ == "list"@ {
                HomeConnectionLayout::List
            } else {
                HomeConnectionLayout::Card
            }),
    {
        if str_eq(value, "list") {
            HomeConnectionLayout::List
        } else {
            HomeConnectionLayout::Card
        }
    }
}

impl StartupDefaultPage {
    pub fn as_str(&self) -> (r: &'static str)
        ensures
            r@ == (match *self {
                StartupDefaultPage::Home => "home"@,
                StartupDefaultPage::AiWorkbench => "ai_workbench"@,
            }),
    {
        match self {
            StartupDefaultPage::Home => "home",
            StartupDefaultPage::AiWorkbench => "ai_workbench",
        }
    }

    /// Anything but `"home"` opens the AI workbench.
    pub fn from_str(value: &str) -> (r: Self)
        ensures
            r == (if value@ == "home"@ {
                StartupDefaultPage::Home
            } else {
                StartupDefaultPage::AiWorkbench
            }),
    {
        if str_eq(value, "home") {
            StartupDefaultPage::Home
        } else {
            StartupDefaultPage::AiWorkbench
        }
    }
}

impl LargeTextCellEditorOpenMode {
    pub fn as_str(&self) -> (r: &'static str)
        ensures
            r@ == (match *self {
                LargeTextCellEditorOpenMode::SidebarPreview => "sidebar_preview"@,
                LargeTextCellEditorOpenMode::Dialog => "dialog"@,
            }),
    {
        match self {
            LargeTextCellEditorOpenMode::SidebarPreview => "sidebar_preview",
            LargeTextCellEditorOpenMode::Dialog => "dialog",
        }
    }

    /// Anything but `"dialog"` opens the sidebar preview.
    pub fn from_str(s: &str) -> (r: Self)
        ensures
            r == (if s@ == "dialog"@ {
                LargeTextCellEditorOpenMode::Dialog
            } else {
                LargeTextCellEditorOpenMode::SidebarPreview
            }),
    {
        if str_eq(s, "dialog") {
            LargeTextCellEditorOpenMode::Dialog
        } else {
            LargeTextCellEditorOpenMode::SidebarPreview
        }
    }
}

impl DatabaseOpenMode {
    pub fn as_str(&self) -> (r: &'static str)
        ensures
            r@ == (match *self {
                DatabaseOpenMode::Single => "single"@,
                DatabaseOpenMode::Workspace => "workspace"@,
            }),
    {
        match self {
            DatabaseOpenMode::Single => "single",
            DatabaseOpenMode::Workspace => "workspace",
        }
    }

    /// Anything but `"workspace"` opens databases one per tab.
    pub fn from_str(s: &str) -> (r: Self)
        ensures
            r == (if s@ == "workspace"@ {
                DatabaseOpenMode::Workspace
            } else {
                DatabaseOpenMode::Single
            }),
    {
        if str_eq(s, "workspace") {
            DatabaseOpenMode::Workspace
        } else {
            DatabaseOpenMode::Single
        }
    }
}

#[derive(Debug, Clone, Copy, PartialEq, Eq, Structural, Default)]
pub enum ProxyType {
    Http,
    Https,
    #[default]
    Socks5,
}

impl ProxyType {
    pub fn as_str(&self) -> (r: &'static str)
        ensures
            r@ == proxy_scheme(*self),
    {
        match self {
            ProxyType::Http => "http",
            ProxyType::Https => "https",
            ProxyType::Socks5 => "socks5",
        }
    }
}

/// The URL scheme of a proxy type.
pub open spec fn proxy_scheme(t: ProxyType) -> Seq<char> {
    match t {
        ProxyType::Http => "http"@,
        ProxyType::Https => "https"@,
        ProxyType::Socks5 => "socks5"@,
    }
}

/// The global network proxy the application routes its traffic through.
#[derive(Debug, Clone)]
pub struct GlobalProxySettings {
    pub enabled: bool,
    pub proxy_type: ProxyType,
    pub host: String,
    pub port: u16,
    pub username: String,
    pub password: String,
}

pub fn default_proxy_port() -> (r: u16)
    ensures
        r == 1080,
{
    1080
}

impl Default for GlobalProxySettings {
    fn default() -> (r: Self)
        ensures
            !r.enabled,
            r.proxy_type == ProxyType::Socks5,
            r.host@.len() == 0,
            r.port == 1080,
            r.username@.len() == 0,
            r.password@.len() == 0,
    {
        GlobalProxySettings {
            enabled: false,
            proxy_type: ProxyType::Socks5,
            host: String::new(),
            port: default_proxy_port(),
            username: String::new(),
            password: String::new(),
        }
    }
}

/// The message that validation reports for proxy settings, or `None` when
/// they can be used: a disabled proxy is always valid; an enabled one needs a
/// host, a port, and a user name whenever a password is given.
pub open spec fn proxy_validation_error(p: GlobalProxySettings) -> Option<Seq<char>> {
    if !p.enabled {
        None
    } else if trim_spec(p.host@).len() == 0 {
        Some("代理主机不能为空"@)
    } else if p.port == 0 {
        Some("代理端口不能为空"@)
    } else if trim_spec(p.username@).len() == 0 && p.password@.len() != 0 {
        Some("填写代理密码时必须同时填写用户名"@)
    } else {
        None
    }
}

/// What proxy validation accepts: a disabled proxy always; an enabled one
/// only with a non-blank host, a non-zero port, and a user name whenever a
/// password is given.  An enabled proxy with a host but port 0 is refused
/// with the port message.
pub proof fn lemma_proxy_validation(p: GlobalProxySettings)
    ensures
        proxy_validation_error(p) is None <==> (!p.enabled || (trim_spec(p.host@).len() > 0
            && p.port != 0 && (trim_spec(p.username@).len() > 0 || p.password@.len() == 0))),
        p.enabled && trim_spec(p.host@).len() == 0 ==> proxy_validation_error(p) == Some(
            "代理主机不能为空"@,
        ),
        p.enabled && trim_spec(p.host@).len() > 0 && p.port == 0 ==> proxy_validation_error(p)
            == Some("代理端口不能为空"@),
        p.enabled && trim_spec(p.host@).len() > 0 && p.port != 0 && trim_spec(p.username@).len()
            == 0 && p.password@.len() != 0 ==> proxy_validation_error(p) == Some(
            "填写代理密码时必须同时填写用户名"@,
        ),
{
}

impl GlobalProxySettings {
    pub fn validate(&self) -> (r: Result<(), String>)
        ensures
            match r {
                Ok(_) => proxy_validation_error(*self) is None,
                Err(e) => proxy_validation_error(*self) == Some(e@),
            },
    {
        if !self.enabled {
            return Ok(());
        }
        if is_blank_str(self.host.as_str()) {
            return Err(String::from_str("代理主机不能为空"));
        }
        if self.port == 0 {
            return Err(String::from_str("代理端口不能为空"));
        }
        if is_blank_str(self.username.as_str()) && !self.password.as_str().is_empty() {
            return Err(String::from_str("填写代理密码时必须同时填写用户名"));
        }
        Ok(())
    }

    /// The proxy address before credentials are added: `scheme://host:port`
    /// with the host trimmed; `None` for a disabled proxy; the validation
    /// error for an invalid one.
    pub fn proxy_url_base(&self) -> (r: Result<Option<String>, String>)
        ensures
            match r {
                Ok(None) => !self.enabled,
                Ok(Some(base)) => self.enabled && proxy_validation_error(*self) is None && base@
                    == proxy_scheme(self.proxy_type) + "://"@ + trim_spec(self.host@) + ":"@
                    + decimal(self.port as nat),
                Err(e) => self.enabled && proxy_validation_error(*self) == Some(e@),
            },
    {
        if !self.enabled {
            return Ok(None);
        }
        match self.validate() {
            Err(e) => Err(e),
            Ok(()) => {
                let mut base = self.proxy_type.as_str().to_owned();
                base.append("://");
                base.append(trim(self.host.as_str()));
                base.append(":");
                push_decimal(&mut base, self.port as u64);
                Ok(Some(base))
            },
        }
    }

    /// The credentials the proxy address carries: the trimmed user name
    /// unless it is blank, and the password unless it is empty.
    pub fn proxy_credentials(&self) -> (r: (Option<String>, Option<String>))
        ensures
            crate::cards::opt_view(r.0) == if trim_spec(self.username@).len() > 0 {
                Some(trim_spec(self.username@))
            } else {
                None::<Seq<char>>
            },
            crate::cards::opt_view(r.1) == if self.password@.len() > 0 {
                Some(self.password@)
            } else {
                None::<Seq<char>>
            },
    {
        let user = trim(self.username.as_str());
        let username = if user.unicode_len() > 0 {
            Some(user.to_owned())
        } else {
            None
        };
        let password = if self.password.as_str().unicode_len() > 0 {
            Some(self.password.clone())
        } else {
            None
        };
        (username, password)
    }
}

#[derive(Debug, Clone, Copy, PartialEq, Eq, Structural, Default)]
pub enum McpServerMode {
    #[default]
    Temporary,
    Persistent,
}

impl McpServerMode {
    pub fn as_str(&self) -> (r: &'static str)
        ensures
            r@ == (match *self {
                McpServerMode::Temporary => "temporary"@,
                McpServerMode::Persistent => "persistent"@,
            }),
    {
        match self {
            McpServerMode::Temporary => "temporary",
            McpServerMode::Persistent => "persistent",
        }
    }

    /// Anything but `"persistent"` is a temporary server.
    pub fn from_str(value: &str) -> (r: Self)
        ensures
            r == (if value@ == "persistent"@ {
                McpServerMode::Persistent
            } else {
                McpServerMode::Temporary
            }),
    {
        if str_eq(value, "persistent") {
            McpServerMode::Persistent
        } else {
            McpServerMode::Temporary
        }
    }
}

#[derive(Debug, Clone, Copy, PartialEq, Eq, Structural, Default)]
pub enum McpPermissionMode {
    #[default]
    Deny,
    Ask,
    Allow,
}

impl McpPermissionMode {
    pub fn as_str(&self) -> (r: &'static str)
        ensures
            r@ == (match *self {
                McpPermissionMode::Deny => "deny"@,
                McpPermissionMode::Ask => "ask"@,
                McpPermissionMode::Allow => "allow"@,
            }),
    {
        match self {
            McpPermissionMode::Deny => "deny",
            McpPermissionMode::Ask => "ask",
            McpPermissionMode::Allow => "allow",
        }
    }

    /// Unknown values deny.
    pub fn from_str(value: &str) -> (r: Self)
        ensures
            r == (if value@ == "allow"@ {
                McpPermissionMode::Allow
            } else if value@ == "ask"@ {
                McpPermissionMode::Ask
            } else {
                McpPermissionMode::Deny
            }),
    {
        if str_eq(value, "allow") {
            McpPermissionMode::Allow
        } else if str_eq(value, "ask") {
            McpPermissionMode::Ask
        } else {
            McpPermissionMode::Deny
        }
    }

    /// The id of the permission profile each mode maps to.
    pub fn profile_id(&self) -> (r: &'static str)
        ensures
            r@ == (match *self {
                McpPermissionMode::Deny => "safe"@,
                McpPermissionMode::Ask => "confirm"@,
                McpPermissionMode::Allow => "auto"@,
            }),
    {
        match self {
            McpPermissionMode::Deny => "safe",
            McpPermissionMode::Ask => "confirm",
            McpPermissionMode::Allow => "auto",
        }
    }
}

/// Which tool families a consumer (the public MCP server or the agent) may use.
#[derive(Debug, Clone, Copy, PartialEq, Eq, Structural)]
pub struct ToolExposureToolsetSettings {
    pub terminal: bool,
    pub terminal_ssh_exec: bool,
    pub terminal_exec: bool,
    pub connections: bool,
    pub sftp: bool,
    pub database: bool,
    pub redis: bool,
    pub mongo: bool,
    pub internal_functions: bool,
}

/// The public MCP server starts with the terminal and connection tools only.
pub open spec fn public_mcp_toolsets() -> ToolExposureToolsetSettings {
    ToolExposureToolsetSettings {
        terminal: true,
        terminal_ssh_exec: true,
        terminal_exec: true,
        connections: true,
        sftp: false,
        database: false,
        redis: false,
        mongo: false,
        internal_functions: false,
    }
}

/// The built-in agent starts with every tool family.
pub open spec fn agent_toolsets() -> ToolExposureToolsetSettings {
    ToolExposureToolsetSettings {
        terminal: true,
        terminal_ssh_exec: true,
        terminal_exec: true,
        connections: true,
        sftp: true,
        database: true,
        redis: true,
        mongo: true,
        internal_functions: true,
    }
}

impl ToolExposureToolsetSettings {
    pub fn public_mcp_default() -> (r: Self)
        ensures
            r == public_mcp_toolsets(),
    {
        ToolExposureToolsetSettings {
            terminal: true,
            terminal_ssh_exec: true,
            terminal_exec: true,
            connections: true,
            sftp: false,
            database: false,
            redis: false,
            mongo: false,
            internal_functions: false,
        }
    }

    pub fn agent_default() -> (r: Self)
        ensures
            r == agent_toolsets(),
    {
        ToolExposureToolsetSettings {
            terminal: true,
            terminal_ssh_exec: true,
            terminal_exec: true,
            connections: true,
            sftp: true,
            database: true,
            redis: true,
            mongo: true,
            internal_functions: true,
        }
    }
}

impl Default for ToolExposureToolsetSettings {
    fn default() -> (r: Self)
        ensures
            r == public_mcp_toolsets(),
    {
        Self::public_mcp_default()
    }
}

pub type McpToolsetSettings = ToolExposureToolsetSettings;

/// Tool families exposed to the public MCP server and to the built-in agent.
#[derive(Debug, Clone, Copy, PartialEq, Eq, Structural)]
pub struct ToolExposureSettings {
    pub mcp: ToolExposureToolsetSettings,
    pub agent: ToolExposureToolsetSettings,
}

impl Default for ToolExposureSettings {
    fn default() -> (r: Self)
        ensures
            r.mcp == public_mcp_toolsets(),
            r.agent == agent_toolsets(),
    {
        ToolExposureSettings {
            mcp: ToolExposureToolsetSettings::public_mcp_default(),
            agent: ToolExposureToolsetSettings::agent_default(),
        }
    }
}

/// The public MCP server; `legacy_toolsets` holds the toolsets that older
/// settings files kept under `mcp.toolsets`.
#[derive(Debug, Clone, Copy, PartialEq, Eq, Structural)]
pub struct McpSettings {
    pub server_enabled: bool,
    pub server_mode: McpServerMode,
    pub permission_mode: McpPermissionMode,
    pub legacy_toolsets: Option<ToolExposureToolsetSettings>,
}

impl Default for McpSettings {
    fn default() -> (r: Self)
        ensures
            !r.server_enabled,
            r.server_mode == McpServerMode::Temporary,
            r.permission_mode == McpPermissionMode::Deny,
            r.legacy_toolsets is None,
    {
        McpSettings {
            server_enabled: false,
            server_mode: McpServerMode::Temporary,
            permission_mode: McpPermissionMode::Deny,
            legacy_toolsets: None,
        }
    }
}

/// Moves toolsets kept by an older settings file into the tool exposure
/// settings. They replace the MCP toolsets only while those are still the
/// defaults, so a choice the user made later wins; the legacy copy is
/// dropped either way.
pub fn migrate_legacy_mcp_toolsets(mcp: &mut McpSettings, exposure: &mut ToolExposureSettings)
    ensures
        final(mcp).legacy_toolsets is None,
        final(mcp).server_enabled == old(mcp).server_enabled,
        final(mcp).server_mode == old(mcp).server_mode,
        final(mcp).permission_mode == old(mcp).permission_mode,
        final(exposure).agent == old(exposure).agent,
        final(exposure).mcp == (match old(mcp).legacy_toolsets {
            Some(t) => if old(exposure).mcp == public_mcp_toolsets() {
                t
            } else {
                old(exposure).mcp
            },
            None => old(exposure).mcp,
        }),
{
    let legacy = mcp.legacy_toolsets;
    mcp.legacy_toolsets = None;
    if let Some(toolsets) = legacy {
        if exposure.mcp == ToolExposureToolsetSettings::public_mcp_default() {
            exposure.mcp = toolsets;
        }
    }
}

#[derive(Debug, Clone, Copy, Default, PartialEq, Eq, Structural)]
pub enum AiChatToolExecutionMode {
    #[default]
    Auto,
    ReadOnly,
    Manual,
}

/// Settings of the built-in agent.
#[derive(Debug, Clone, Copy, PartialEq, Eq, Structural)]
pub struct AiChatSettings {
    pub tool_execution_mode: AiChatToolExecutionMode,
    pub max_iterations: usize,
}

/// An iteration limit read from a settings file, brought into the range the
/// agent runtime accepts (`usize::clamp`).
pub fn clamp_agent_max_iterations(value: usize, min: usize, max: usize) -> (r: usize)
    requires
        min <= max,
    ensures
        r == (if value < min {
            min
        } else if value > max {
            max
        } else {
            value
        }),
{
    if value < min {
        min
    } else if value > max {
        max
    } else {
        value
    }
}

#[derive(Debug, Clone, Copy, PartialEq, Eq, Structural, Default)]
pub enum PersonalSyncBackendKind {
    #[default]
    Folder,
    Git,
}

impl PersonalSyncBackendKind {
    pub fn as_str(&self) -> (r: &'static str)
        ensures
            r@ == (match *self {
                PersonalSyncBackendKind::Folder => "folder"@,
                PersonalSyncBackendKind::Git => "git"@,
            }),
    {
        match self {
            PersonalSyncBackendKind::Folder => "folder",
            PersonalSyncBackendKind::Git => "git",
        }
    }

    /// Anything but `"git"` syncs through a folder.
    pub fn from_str(value: &str) -> (r: Self)
        ensures
            r == (if value@ == "git"@ {
                PersonalSyncBackendKind::Git
            } else {
                PersonalSyncBackendKind::Folder
            }),
    {
        if str_eq(value, "git") {
            PersonalSyncBackendKind::Git
        } else {
            PersonalSyncBackendKind::Folder
        }
    }
}

#[derive(Debug, Clone, Copy, PartialEq, Eq, Structural, Default)]
pub enum SyncProvider {
    #[default]
    OnetCloud,
    Personal,
}

impl SyncProvider {
    pub fn as_str(&self) -> (r: &'static str)
        ensures
            r@ == (match *self {
                SyncProvider::OnetCloud => "onet_cloud"@,
                SyncProvider::Personal => "personal"@,
            }),
    {
        match self {
            SyncProvider::OnetCloud => "onet_cloud",
            SyncProvider::Personal => "personal",
        }
    }

    /// Anything but `"personal"` syncs through the cloud service.
    pub fn from_str(value: &str) -> (r: Self)
        ensures
            r == (if value@ == "personal"@ {
                SyncProvider::Personal
            } else {
                SyncProvider::OnetCloud
            }),
    {
        if str_eq(value, "personal") {
            SyncProvider::Personal
        } else {
            SyncProvider::OnetCloud
        }
    }
}

#[derive(Debug, Clone, Copy, PartialEq, Eq, Structural)]
pub struct PersonalGitSyncSettings {
    pub auto_push: bool,
}

impl Default for PersonalGitSyncSettings {
    fn default() -> (r: Self)
        ensures
            r.auto_push,
    {
        PersonalGitSyncSettings { auto_push: true }
    }
}

#[derive(Debug, Clone)]
pub struct PersonalSyncSettings {
    pub backend: PersonalSyncBackendKind,
    pub path: String,
    pub auto_sync: bool,
    pub git: PersonalGitSyncSettings,
}

impl Default for PersonalSyncSettings {
    fn default() -> (r: Self)
        ensures
            r.backend == PersonalSyncBackendKind::Folder,
            r.path@.len() == 0,
            r.auto_sync,
            r.git.auto_push,
    {
        PersonalSyncSettings {
            backend: PersonalSyncBackendKind::Folder,
            path: String::new(),
            auto_sync: true,
            git: PersonalGitSyncSettings::default(),
        }
    }
}

#[derive(Debug, Clone, Copy, Default, PartialEq, Eq, Structural)]
pub struct ConnectionSidebarTreeState {
    pub hide_empty_workspaces: bool,
}

#[derive(Debug, Clone, Default)]
pub struct CustomFont {
    pub path: String,
    pub families: Vec<String>,
    pub monospace_families: Vec<String>,
}

#[derive(Debug, Clone, Copy, PartialEq, Eq, Structural, Default)]
pub enum LocalTerminalProfileKind {
    #[default]
    System,
    Zsh,
    Bash,
    Fish,
    Nushell,
    PowerShell,
    Cmd,
    Wsl,
    GitBash,
    Custom,
}

/// The identifier each terminal profile kind is stored under.
pub open spec fn terminal_kind_id(k: LocalTerminalProfileKind) -> Seq<char> {
    match k {
        LocalTerminalProfileKind::System => "system"@,
        LocalTerminalProfileKind::Zsh => "zsh"@,
        LocalTerminalProfileKind::Bash => "bash"@,
        LocalTerminalProfileKind::Fish => "fish"@,
        LocalTerminalProfileKind::Nushell => "nushell"@,
        LocalTerminalProfileKind::PowerShell => "powershell"@,
        LocalTerminalProfileKind::Cmd => "cmd"@,
        LocalTerminalProfileKind::Wsl => "wsl"@,
        LocalTerminalProfileKind::GitBash => "git_bash"@,
        LocalTerminalProfileKind::Custom => "custom"@,
    }
}

impl LocalTerminalProfileKind {
    pub fn as_str(self) -> (r: &'static str)
        ensures
            r@ == terminal_kind_id(self),
    {
        match self {
            LocalTerminalProfileKind::System => "system",
            LocalTerminalProfileKind::Zsh => "zsh",
            LocalTerminalProfileKind::Bash => "bash",
            LocalTerminalProfileKind::Fish => "fish",
            LocalTerminalProfileKind::Nushell => "nushell",
            LocalTerminalProfileKind::PowerShell => "powershell",
            LocalTerminalProfileKind::Cmd => "cmd",
            LocalTerminalProfileKind::Wsl => "wsl",
            LocalTerminalProfileKind::GitBash => "git_bash",
            LocalTerminalProfileKind::Custom => "custom",
        }
    }

    /// The kind stored under an identifier; unknown identifiers mean the
    /// system shell.
    pub fn parse(value: &str) -> (r: Self)
        ensures
            r == (if value@ == "powershell"@ {
                LocalTerminalProfileKind::PowerShell
            } else if value@ == "zsh"@ {
                LocalTerminalProfileKind::Zsh
            } else if value@ == "bash"@ {
                LocalTerminalProfileKind::Bash
            } else if value@ == "fish"@ {
                LocalTerminalProfileKind::Fish
            } else if value@ == "nushell"@ {
                LocalTerminalProfileKind::Nushell
            } else if value@ == "cmd"@ {
                LocalTerminalProfileKind::Cmd
            } else if value@ == "wsl"@ {
                LocalTerminalProfileKind::Wsl
            } else if value@ == "git_bash"@ {
                LocalTerminalProfileKind::GitBash
            } else if value@ == "custom"@ {
                LocalTerminalProfileKind::Custom
            } else {
                LocalTerminalProfileKind::System
            }),
    {
        if str_eq(value, "powershell") {
            LocalTerminalProfileKind::PowerShell
        } else if str_eq(value, "zsh") {
            LocalTerminalProfileKind::Zsh
        } else if str_eq(value, "bash") {
            LocalTerminalProfileKind::Bash
        } else if str_eq(value, "fish") {
            LocalTerminalProfileKind::Fish
        } else if str_eq(value, "nushell") {
            LocalTerminalProfileKind::Nushell
        } else if str_eq(value, "cmd") {
            LocalTerminalProfileKind::Cmd
        } else if str_eq(value, "wsl") {
            LocalTerminalProfileKind::Wsl
        } else if str_eq(value, "git_bash") {
            LocalTerminalProfileKind::GitBash
        } else if str_eq(value, "custom") {
            LocalTerminalProfileKind::Custom
        } else {
            LocalTerminalProfileKind::System
        }
    }
}

/// A user-defined shell: an id, a display name and the command line to run.
#[derive(Debug, Clone, Default)]
pub struct LocalTerminalCustomProfile {
    pub id: String,
    pub name: String,
    pub command: String,
}

impl View for LocalTerminalCustomProfile {
    type V = (Seq<char>, Seq<char>, Seq<char>);

    open spec fn view(&self) -> (Seq<char>, Seq<char>, Seq<char>) {
        (self.id@, self.name@, self.command@)
    }
}

impl LocalTerminalCustomProfile {
    pub fn duplicate(&self) -> (r: Self)
        ensures
            r@ == self@,
    {
        LocalTerminalCustomProfile {
            id: self.id.clone(),
            name: self.name.clone(),
            command: self.command.clone(),
        }
    }
}

/// The local shell the terminal starts: a built-in kind, or custom profiles
/// (with the single program and arguments that older settings stored).
#[derive(Debug, Clone, Default)]
pub struct LocalTerminalProfileSettings {
    pub kind: LocalTerminalProfileKind,
    pub custom_program: String,
    pub custom_arguments: String,
    pub custom_profiles: Vec<LocalTerminalCustomProfile>,
    pub default_custom_profile_id: Option<String>,
}

pub open spec fn profile_views(s: Seq<LocalTerminalCustomProfile>) -> Seq<(Seq<char>, Seq<char>, Seq<char>)> {
    s.map_values(|p: LocalTerminalCustomProfile| p@)
}

/// A custom profile can be offered when its name and its command are not blank.
pub open spec fn profile_usable(p: (Seq<char>, Seq<char>, Seq<char>)) -> bool {
    trim_spec(p.1).len() > 0 && trim_spec(p.2).len() > 0
}

pub open spec fn usable_profile_pred() -> spec_fn((Seq<char>, Seq<char>, Seq<char>)) -> bool {
    |p: (Seq<char>, Seq<char>, Seq<char>)| profile_usable(p)
}

/// The command line of a legacy custom shell: the program, then its
/// arguments after a space when there are any.
pub open spec fn legacy_command(program: Seq<char>, arguments: Seq<char>) -> Seq<char> {
    if arguments.len() == 0 {
        program
    } else {
        program + " "@ + arguments
    }
}

/// The custom profiles to offer: the usable configured ones, in order; when
/// there are none, one profile built from the legacy program (trimmed) and
/// arguments (trimmed) if the program is not blank; otherwise none.
pub open spec fn effective_profiles(
    profiles: Seq<(Seq<char>, Seq<char>, Seq<char>)>,
    program: Seq<char>,
    arguments: Seq<char>,
) -> Seq<(Seq<char>, Seq<char>, Seq<char>)> {
    let kept = profiles.filter(usable_profile_pred());
    if kept.len() > 0 {
        kept
    } else if trim_spec(program).len() == 0 {
        Seq::empty()
    } else {
        seq![
            ("legacy-custom"@, trim_spec(program), legacy_command(
                trim_spec(program),
                trim_spec(arguments),
            )),
        ]
    }
}

/// The first profile with the given id.
pub open spec fn find_profile(ps: Seq<(Seq<char>, Seq<char>, Seq<char>)>, id: Seq<char>) -> Option<
    (Seq<char>, Seq<char>, Seq<char>),
>
    decreases ps.len(),
{
    if ps.len() == 0 {
        None
    } else if ps[0].0 == id {
        Some(ps[0])
    } else {
        find_profile(ps.subrange(1, ps.len() as int), id)
    }
}

/// The profile the terminal starts with: the one named as default when it
/// is offered, else the first one offered.
pub open spec fn selected_profile(
    ps: Seq<(Seq<char>, Seq<char>, Seq<char>)>,
    default_id: Option<Seq<char>>,
) -> Option<(Seq<char>, Seq<char>, Seq<char>)> {
    let first = if ps.len() > 0 {
        Some(ps[0])
    } else {
        None
    };
    match default_id {
        Some(id) => match find_profile(ps, id) {
            Some(p) => Some(p),
            None => first,
        },
        None => first,
    }
}

pub open spec fn opt_string_view(o: Option<String>) -> Option<Seq<char>> {
    match o {
        Some(s) => Some(s@),
        None => None,
    }
}

pub fn format_legacy_custom_command(program: &str, arguments: &str) -> (r: String)
    ensures
        r@ == legacy_command(program@, arguments@),
{
    if arguments.is_empty() {
        String::from_str(program)
    } else {
        String::from_str(program).concat(" ").concat(arguments)
    }
}

impl LocalTerminalProfileSettings {
    pub fn effective_custom_profiles(&self) -> (r: Vec<LocalTerminalCustomProfile>)
        ensures
            profile_views(r@) == effective_profiles(
                profile_views(self.custom_profiles@),
                self.custom_program@,
                self.custom_arguments@,
            ),
    {
        let ghost all = profile_views(self.custom_profiles@);
        let ghost pred = usable_profile_pred();
        let mut kept: Vec<LocalTerminalCustomProfile> = Vec::new();
        let n = self.custom_profiles.len();
        let mut i: usize = 0;
        proof {
            reveal(Seq::filter);
            assert(all.take(0) =~= Seq::<(Seq<char>, Seq<char>, Seq<char>)>::empty());
        }
        while i < n
            invariant
                n == self.custom_profiles@.len(),
                all == profile_views(self.custom_profiles@),
                pred == usable_profile_pred(),
                all.len() == n,
                i <= n,
                profile_views(kept@) == all.take(i as int).filter(pred),
            decreases n - i,
        {
            let profile = &self.custom_profiles[i];
            let usable = !is_blank_str(profile.name.as_str()) && !is_blank_str(
                profile.command.as_str(),
            );
            let ghost before = kept@;
            if usable {
                kept.push(profile.duplicate());
            }
            proof {
                reveal(Seq::filter);
                assert(all.take(i + 1).drop_last() =~= all.take(i as int));
                assert(all[i as int] == profile@);
                assert(all.take(i + 1).last() == profile@);
                assert(profile@.1 == profile.name@);
                assert(profile_usable(profile@) == usable);
                assert(pred(profile@) == usable);
                assert(all.take(i + 1).filter(pred) == (if pred(profile@) {
                    all.take(i as int).filter(pred).push(profile@)
                } else {
                    all.take(i as int).filter(pred)
                }));
                if usable {
                    assert(profile_views(kept@) =~= profile_views(before).push(profile@));
                } else {
                    assert(profile_views(kept@) =~= profile_views(before));
                }
            }
            i = i + 1;
        }
        proof {
            assert(all.take(n as int) =~= all);
        }
        if kept.len() > 0 {
            return kept;
        }
        let program = trim(self.custom_program.as_str());
        if program.is_empty() {
            let empty: Vec<LocalTerminalCustomProfile> = Vec::new();
            proof {
                assert(profile_views(empty@) =~= Seq::<(Seq<char>, Seq<char>, Seq<char>)>::empty());
            }
            return empty;
        }
        let command = format_legacy_custom_command(program, trim(self.custom_arguments.as_str()));
        let mut out: Vec<LocalTerminalCustomProfile> = Vec::new();
        out.push(
            LocalTerminalCustomProfile {
                id: String::from_str("legacy-custom"),
                name: String::from_str(program),
                command,
            },
        );
        proof {
            let e = effective_profiles(all, self.custom_program@, self.custom_arguments@);
            assert(profile_views(out@) =~= e);
        }
        out
    }

    pub fn selected_custom_profile(&self) -> (r: Option<LocalTerminalCustomProfile>)
        ensures
            match r {
                Some(p) => selected_profile(
                    effective_profiles(
                        profile_views(self.custom_profiles@),
                        self.custom_program@,
                        self.custom_arguments@,
                    ),
                    opt_string_view(self.default_custom_profile_id),
                ) == Some(p@),
                None => selected_profile(
                    effective_profiles(
                        profile_views(self.custom_profiles@),
                        self.custom_program@,
                        self.custom_arguments@,
                    ),
                    opt_string_view(self.default_custom_profile_id),
                ) is None,
            },
    {
        let profiles = self.effective_custom_profiles();
        let ghost ps = profile_views(profiles@);
        let n = profiles.len();
        proof {
            assert(ps.subrange(0, n as int) =~= ps);
        }
        match &self.default_custom_profile_id {
            Some(id) => {
                let mut i: usize = 0;
                while i < n
                    invariant
                        n == profiles@.len(),
                        ps == profile_views(profiles@),
                        self.default_custom_profile_id == Some(*id),
                        ps == effective_profiles(
                            profile_views(self.custom_profiles@),
                            self.custom_program@,
                            self.custom_arguments@,
                        ),
                        i <= n,
                        find_profile(ps, id@) == find_profile(ps.subrange(i as int, n as int), id@),
                    decreases n - i,
                {
                    if str_eq(profiles[i].id.as_str(), id.as_str()) {
                        proof {
                            let t = ps.subrange(i as int, n as int);
                            assert(t[0] == profiles@[i as int]@);
                            assert(t[0].0 == id@);
                            assert(find_profile(t, id@) == Some(t[0]));
                            assert(find_profile(ps, id@) == Some(profiles@[i as int]@));
                            assert(opt_string_view(self.default_custom_profile_id) == Some(id@));
                        }
                        return Some(profiles[i].duplicate());
                    }
                    proof {
                        let t = ps.subrange(i as int, n as int);
                        assert(t[0] == profiles@[i as int]@);
                        assert(t.subrange(1, t.len() as int) =~= ps.subrange(i + 1, n as int));
                    }
                    i = i + 1;
                }
                proof {
                    assert(ps.subrange(n as int, n as int).len() == 0);
                }
            },
            None => {},
        }
        if n > 0 {
            Some(profiles[0].duplicate())
        } else {
            None
        }
    }
}

pub const DEFAULT_SQL_QUERY_MAX_ROWS: u32 = 1000;
pub const DEFAULT_TERMINAL_SCROLLBACK_LINES: usize = 100_000;
pub const MIN_TERMINAL_SCROLLBACK_LINES: usize = 1_000;
pub const MAX_TERMINAL_SCROLLBACK_LINES: usize = 1_000_000;

pub fn default_font_family() -> (r: String)
    ensures
        r@ == "Arial"@,
{
    String::from_str("Arial")
}

pub fn default_theme_mode() -> (r: String)
    ensures
        r@ == "light"@,
{
    String::from_str("light")
}

pub fn default_light_theme() -> (r: String)
    ensures
        r@ == "Default Light"@,
{
    String::from_str("Default Light")
}

pub fn default_dark_theme() -> (r: String)
    ensures
        r@ == "Default Dark"@,
{
    String::from_str("Default Dark")
}

pub fn default_custom_accent_color() -> (r: String)
    ensures
        r@ == "#3b82f6"@,
{
    String::from_str("#3b82f6")
}

/// The monospace family that SQL editors, table previews and terminals start with.
pub fn default_monospace_font_family(platform: Platform) -> (r: String)
    ensures
        r@ == default_grid_font(platform),
{
    String::from_str(default_grid_monospace_font_family(platform))
}

pub fn default_terminal_scrollback_lines() -> (r: usize)
    ensures
        r == DEFAULT_TERMINAL_SCROLLBACK_LINES,
{
    DEFAULT_TERMINAL_SCROLLBACK_LINES
}

pub fn default_terminal_theme() -> (r: String)
    ensures
        r@ == "application"@,
{
    String::from_str("application")
}

pub fn default_true() -> (r: bool)
    ensures
        r,
{
    true
}

pub fn default_system_hotkey_macos() -> (r: String)
    ensures
        r@ == "cmd-alt-m"@,
{
    String::from_str("cmd-alt-m")
}

pub fn default_system_hotkey_other() -> (r: String)
    ensures
        r@ == "ctrl-alt-m"@,
{
    String::from_str("ctrl-alt-m")
}

pub fn default_table_row_height() -> (r: u32)
    ensures
        r == 44,
{
    44
}

pub fn default_sql_query_max_rows() -> (r: u32)
    ensures
        r == DEFAULT_SQL_QUERY_MAX_ROWS,
{
    DEFAULT_SQL_QUERY_MAX_ROWS
}

/// A scrollback length brought into `[1_000, 1_000_000]`.
pub fn normalize_terminal_scrollback_lines(lines: usize) -> (r: usize)
    ensures
        r == (if lines < MIN_TERMINAL_SCROLLBACK_LINES {
            MIN_TERMINAL_SCROLLBACK_LINES
        } else if lines > MAX_TERMINAL_SCROLLBACK_LINES {
            MAX_TERMINAL_SCROLLBACK_LINES
        } else {
            lines
        }),
        MIN_TERMINAL_SCROLLBACK_LINES <= r <= MAX_TERMINAL_SCROLLBACK_LINES,
{
    if lines < MIN_TERMINAL_SCROLLBACK_LINES {
        MIN_TERMINAL_SCROLLBACK_LINES
    } else if lines > MAX_TERMINAL_SCROLLBACK_LINES {
        MAX_TERMINAL_SCROLLBACK_LINES
    } else {
        lines
    }
}

/// The theme mode kept after normalisation: `"system"` while the theme
/// follows the system, an accepted mode as it is, anything else `"light"`.
pub open spec fn normalized_theme_mode(auto_switch: bool, mode: Seq<char>) -> Seq<char> {
    if auto_switch {
        "system"@
    } else if mode == "light"@ || mode == "system"@ || mode == "dark"@ {
        mode
    } else {
        "light"@
    }
}

pub fn normalize_theme_mode(auto_switch_theme: bool, theme_mode: &str) -> (r: String)
    ensures
        r@ == normalized_theme_mode(auto_switch_theme, theme_mode@),
{
    if auto_switch_theme {
        String::from_str("system")
    } else if !(str_eq(theme_mode, "light") || str_eq(theme_mode, "system") || str_eq(
        theme_mode,
        "dark",
    )) {
        default_theme_mode()
    } else {
        String::from_str(theme_mode)
    }
}

/// A blank accent colour is replaced by the default one.
pub fn normalize_accent_color(color: &str) -> (r: String)
    ensures
        r@ == (if trim_spec(color@).len() == 0 {
            "#3b82f6"@
        } else {
            color@
        }),
{
    if is_blank_str(color) {
        default_custom_accent_color()
    } else {
        String::from_str(color)
    }
}

/// The terminal theme name trimmed, or the default theme when blank.
pub fn normalize_terminal_theme(theme: &str) -> (r: String)
    ensures
        r@ == (if trim_spec(theme@).len() == 0 {
            "application"@
        } else {
            trim_spec(theme@)
        }),
{
    let trimmed = trim(theme);
    if trimmed.is_empty() {
        default_terminal_theme()
    } else {
        String::from_str(trimmed)
    }
}

/// Light or dark appearance.
#[derive(Debug, Clone, Copy, PartialEq, Eq, Structural)]
pub enum ThemeMode {
    Light,
    Dark,
}

/// The appearance to render: the system's while the theme follows the system
/// (automatic switching or mode `"system"`), dark for `"dark"`, light otherwise.
pub fn effective_theme_mode(auto_switch_theme: bool, theme_mode: &str, system_mode: ThemeMode) -> (r:
    ThemeMode)
    ensures
        r == (if auto_switch_theme || theme_mode@ == "system"@ {
            system_mode
        } else if theme_mode@ == "dark"@ {
            ThemeMode::Dark
        } else {
            ThemeMode::Light
        }),
{
    if auto_switch_theme || str_eq(theme_mode, "system") {
        system_mode
    } else if str_eq(theme_mode, "dark") {
        ThemeMode::Dark
    } else {
        ThemeMode::Light
    }
}

/// The locale of new settings: follow the system language.
pub fn default_locale() -> (r: String)
    ensures
        r@ == "system"@,
{
    "system".to_owned()
}

/// The signed-in user the settings panel shows, if any.
#[derive(Debug)]
pub struct GlobalCurrentUser<U> {
    pub user: Option<U>,
}

impl<U> GlobalCurrentUser<U> {
    /// Nobody is signed in.
    pub fn new() -> (r: Self)
        ensures
            r.user is None,
    {
        GlobalCurrentUser { user: None }
    }

    /// The signed-in user.
    pub fn get_user(&self) -> (r: Option<&U>)
        ensures
            match r {
                Some(u) => self.user is Some && *u == self.user->0,
                None => self.user is None,
            },
    {
        match &self.user {
            Some(u) => Some(u),
            None => None,
        }
    }

    /// Records who is signed in (`None` after signing out).
    pub fn set_user(&mut self, user: Option<U>)
        ensures
            final(self).user == user,
    {
        self.user = user;
    }
}

} // verus!
