//! Platform integration rules: which actions dispatch to the platform
//! adapter, which capabilities each host runtime reports, and how adapter
//! failures reach the user.

use vstd::prelude::*;

use crate::error::ApplicationError;
use crate::text::same_text;

verus! {

/// Host runtime the application runs in.
#[derive(Debug, Clone, Copy, PartialEq, Eq, Structural)]
pub enum RuntimeKind {
    /// The desktop shell.
    Tauri,
    /// A browser talking to the server.
    BrowserServer,
    /// The deterministic mock runtime.
    Mock,
}

/// Host operating system.
#[derive(Debug, Clone, Copy, PartialEq, Eq, Structural)]
pub enum PlatformKind {
    /// macOS.
    Macos,
    /// Windows.
    Windows,
    /// Linux.
    Linux,
    /// Any other system.
    Unknown,
}

/// What the platform adapter can do.
#[derive(Debug, Clone, Copy, PartialEq, Eq, Structural)]
pub struct PlatformCapabilities {
    /// Quick Look previews.
    pub quick_look: bool,
    /// Native application menus.
    pub native_menus: bool,
    /// The platform's own context menu.
    pub platform_context_menu: bool,
    /// Native file icons.
    pub file_icons: bool,
    /// Native thumbnails.
    pub thumbnails: bool,
    /// Dragging entries out to other applications.
    pub native_drag_out: bool,
    /// The system trash.
    pub trash: bool,
    /// Revealing entries in the system file manager.
    pub reveal_in_file_manager: bool,
    /// Opening a terminal.
    pub open_terminal: bool,
    /// Extended attributes.
    pub extended_attributes: bool,
    /// Finder tags.
    pub finder_tags: bool,
}

/// Removes adapter capabilities that need a specific host runtime: Quick
/// Look is offered only to the desktop shell.
pub fn action_capabilities_for_runtime(runtime: RuntimeKind, capabilities: PlatformCapabilities) -> (r:
    PlatformCapabilities)
    ensures
        r == (PlatformCapabilities {
            quick_look: capabilities.quick_look && runtime == RuntimeKind::Tauri,
            ..capabilities
        }),
{
    let mut r = capabilities;
    if runtime != RuntimeKind::Tauri {
        r.quick_look = false;
    }
    r
}

/// What a host runtime reports it can do.
#[derive(Debug, Clone, Copy, PartialEq, Eq, Structural)]
pub struct RuntimeCapabilities {
    /// The runtime.
    pub runtime: RuntimeKind,
    /// The operating system.
    pub platform: PlatformKind,
    /// Native menus.
    pub native_menus: bool,
    /// The platform's own context menu.
    pub platform_context_menu: bool,
    /// Native file icons.
    pub native_file_icons: bool,
    /// Native thumbnails.
    pub native_thumbnails: bool,
    /// Dragging entries out.
    pub native_drag_out: bool,
    /// The system trash.
    pub system_trash: bool,
    /// Revealing entries in the system file manager.
    pub reveal_in_system_file_manager: bool,
    /// Opening a terminal.
    pub open_terminal: bool,
    /// Text clipboard access, which every host has.
    pub clipboard: bool,
    /// Plugins, which every host has.
    pub plugins: bool,
    /// Server administration, which no host offers yet.
    pub server_administration: bool,
    /// Extended attributes.
    pub extended_attributes: bool,
    /// Finder tags.
    pub finder_tags: bool,
}

/// Derives the capabilities a runtime reports from the adapter's: each
/// follows its adapter capability, the platform context menu only on the
/// desktop shell, clipboard and plugins everywhere, server administration
/// nowhere.
pub fn runtime_capabilities(
    runtime: RuntimeKind,
    platform: PlatformKind,
    capabilities: PlatformCapabilities,
) -> (r: RuntimeCapabilities)
    ensures
        r == (RuntimeCapabilities {
            runtime,
            platform,
            native_menus: capabilities.native_menus,
            platform_context_menu: runtime == RuntimeKind::Tauri
                && capabilities.platform_context_menu,
            native_file_icons: capabilities.file_icons,
            native_thumbnails: capabilities.thumbnails,
            native_drag_out: capabilities.native_drag_out,
            system_trash: capabilities.trash,
            reveal_in_system_file_manager: capabilities.reveal_in_file_manager,
            open_terminal: capabilities.open_terminal,
            clipboard: true,
            plugins: true,
            server_administration: false,
            extended_attributes: capabilities.extended_attributes,
            finder_tags: capabilities.finder_tags,
        }),
{
    RuntimeCapabilities {
        runtime,
        platform,
        native_menus: capabilities.native_menus,
        platform_context_menu: runtime == RuntimeKind::Tauri && capabilities.platform_context_menu,
        native_file_icons: capabilities.file_icons,
        native_thumbnails: capabilities.thumbnails,
        native_drag_out: capabilities.native_drag_out,
        system_trash: capabilities.trash,
        reveal_in_system_file_manager: capabilities.reveal_in_file_manager,
        open_terminal: capabilities.open_terminal,
        clipboard: true,
        plugins: true,
        server_administration: false,
        extended_attributes: capabilities.extended_attributes,
        finder_tags: capabilities.finder_tags,
    }
}

/// Which platform adapter operation an action dispatches to.
#[derive(Debug, Clone, Copy, PartialEq, Eq, Structural)]
pub enum PlatformActionKind {
    /// Open with the default application.
    Open,
    /// Choose an application to open with.
    OpenWithChooser,
    /// Quick Look.
    QuickLook,
    /// Reveal in the system file manager.
    Reveal,
    /// Open a terminal.
    OpenTerminal,
    /// Edit in the text editor.
    EditInTextEditor,
}

/// The platform operation an action dispatches to, if any.
pub open spec fn action_platform_kind(id: Seq<char>) -> Option<PlatformActionKind> {
    if id == "core.open"@ || id == "core.view"@ {
        Some(PlatformActionKind::Open)
    } else if id == "core.openWith"@ {
        Some(PlatformActionKind::OpenWithChooser)
    } else if id == "core.quickLook"@ {
        Some(PlatformActionKind::QuickLook)
    } else if id == "core.edit"@ {
        Some(PlatformActionKind::EditInTextEditor)
    } else if id == "core.revealInSystemFileManager"@ {
        Some(PlatformActionKind::Reveal)
    } else if id == "core.openTerminal"@ {
        Some(PlatformActionKind::OpenTerminal)
    } else {
        None
    }
}

/// Maps an action id to the platform operation it dispatches to, or `None`
/// for actions with no platform effect; viewing opens, for now.
pub fn platform_action_kind(id: &str) -> (r: Option<PlatformActionKind>)
    ensures
        r == action_platform_kind(id@),
{
    if same_text(id, "core.open") || same_text(id, "core.view") {
        Some(PlatformActionKind::Open)
    } else if same_text(id, "core.openWith") {
        Some(PlatformActionKind::OpenWithChooser)
    } else if same_text(id, "core.quickLook") {
        Some(PlatformActionKind::QuickLook)
    } else if same_text(id, "core.edit") {
        Some(PlatformActionKind::EditInTextEditor)
    } else if same_text(id, "core.revealInSystemFileManager") {
        Some(PlatformActionKind::Reveal)
    } else if same_text(id, "core.openTerminal") {
        Some(PlatformActionKind::OpenTerminal)
    } else {
        None
    }
}

/// How a platform adapter call failed; the failure's user-readable text
/// travels beside it.
#[derive(Debug, Clone, Copy, PartialEq, Eq, Structural)]
pub enum PlatformFailure {
    /// The adapter does not support the operation.
    Unsupported,
    /// The entry does not exist.
    NotFound,
    /// Any other failure.
    Other,
}

/// Maps an action's adapter failure: lack of support makes the action
/// unavailable; anything else keeps its text.
pub fn map_platform_error(action_id: &str, error: PlatformFailure, text: String) -> (r: ApplicationError)
    ensures
        error == PlatformFailure::Unsupported ==> (r matches ApplicationError::ActionUnavailable(a)
            && a@ == action_id@),
        error != PlatformFailure::Unsupported ==> r == ApplicationError::PlatformOperationFailed(text),
{
    match error {
        PlatformFailure::Unsupported => ApplicationError::ActionUnavailable(String::from_str(action_id)),
        _ => ApplicationError::PlatformOperationFailed(text),
    }
}

/// Maps a failed icon read: missing icon support is an expected fallback.
pub fn map_file_icon_error(error: PlatformFailure, text: String) -> (r: ApplicationError)
    ensures
        error == PlatformFailure::Unsupported ==> r == ApplicationError::NotFound,
        error != PlatformFailure::Unsupported ==> r == ApplicationError::PlatformOperationFailed(text),
{
    match error {
        PlatformFailure::Unsupported => ApplicationError::NotFound,
        _ => ApplicationError::PlatformOperationFailed(text),
    }
}

/// Maps a failed extended-attribute read: lack of support and a vanished
/// entry both read as nothing found.
pub fn map_extended_attribute_read_error(error: PlatformFailure, text: String) -> (r: ApplicationError)
    ensures
        (error == PlatformFailure::Unsupported || error == PlatformFailure::NotFound) ==> r
            == ApplicationError::NotFound,
        error == PlatformFailure::Other ==> r == ApplicationError::PlatformOperationFailed(text),
{
    match error {
        PlatformFailure::Unsupported | PlatformFailure::NotFound => ApplicationError::NotFound,
        PlatformFailure::Other => ApplicationError::PlatformOperationFailed(text),
    }
}

/// Maps a failed extended-attribute write: a vanished entry is not found,
/// and lack of support is a real failure, since writes are offered only
/// after the capability was checked.
pub fn map_extended_attribute_write_error(error: PlatformFailure, text: String) -> (r: ApplicationError)
    ensures
        error == PlatformFailure::NotFound ==> r == ApplicationError::NotFound,
        error != PlatformFailure::NotFound ==> r == ApplicationError::PlatformOperationFailed(text),
{
    match error {
        PlatformFailure::NotFound => ApplicationError::NotFound,
        _ => ApplicationError::PlatformOperationFailed(text),
    }
}

/// Maps a failed native menu install: every failure is surfaced.
pub fn map_native_menu_error(text: String) -> (r: ApplicationError)
    ensures
        r == ApplicationError::PlatformOperationFailed(text),
{
    ApplicationError::PlatformOperationFailed(text)
}

} // verus!
