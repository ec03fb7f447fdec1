use fm_application::error::ApplicationError;
use fm_application::platform::{
    PlatformActionKind, PlatformCapabilities, PlatformFailure, PlatformKind, RuntimeKind,
    action_capabilities_for_runtime, map_extended_attribute_read_error,
    map_extended_attribute_write_error, map_file_icon_error, map_native_menu_error,
    map_platform_error, platform_action_kind, runtime_capabilities,
};

fn none() -> PlatformCapabilities {
    PlatformCapabilities {
        quick_look: false,
        native_menus: false,
        platform_context_menu: false,
        file_icons: false,
        thumbnails: false,
        native_drag_out: false,
        trash: false,
        reveal_in_file_manager: false,
        open_terminal: false,
        extended_attributes: false,
        finder_tags: false,
    }
}

#[test]
fn extended_attribute_read_error_treats_unsupported_and_not_found_as_not_found() {
    assert_eq!(
        map_extended_attribute_read_error(PlatformFailure::Unsupported, "unsupported".to_owned()),
        ApplicationError::NotFound
    );
    assert_eq!(
        map_extended_attribute_read_error(PlatformFailure::NotFound, "gone".to_owned()),
        ApplicationError::NotFound
    );
    assert_eq!(
        map_extended_attribute_read_error(
            PlatformFailure::Other,
            "platform operation failed: boom".to_owned()
        ),
        ApplicationError::PlatformOperationFailed("platform operation failed: boom".to_owned())
    );
}

#[test]
fn extended_attribute_write_error_surfaces_unsupported_but_cleans_up_not_found() {
    assert!(matches!(
        map_extended_attribute_write_error(PlatformFailure::Unsupported, "unsupported".to_owned()),
        ApplicationError::PlatformOperationFailed(_)
    ));
    assert_eq!(
        map_extended_attribute_write_error(PlatformFailure::NotFound, "gone".to_owned()),
        ApplicationError::NotFound
    );
}

#[test]
fn runtime_capabilities_dto_derives_extended_attribute_flags_from_the_bitset() {
    let dto = runtime_capabilities(
        RuntimeKind::BrowserServer,
        PlatformKind::Linux,
        PlatformCapabilities { finder_tags: true, ..none() },
    );
    assert!(dto.finder_tags);
    assert!(!dto.extended_attributes);

    let dto = runtime_capabilities(
        RuntimeKind::BrowserServer,
        PlatformKind::Linux,
        PlatformCapabilities { extended_attributes: true, ..none() },
    );
    assert!(dto.extended_attributes);
    assert!(!dto.finder_tags);
    assert!(dto.clipboard && dto.plugins && !dto.server_administration);
}

#[test]
fn platform_context_menu_is_available_only_to_the_desktop_runtime() {
    let capability = PlatformCapabilities { platform_context_menu: true, ..none() };

    let desktop = runtime_capabilities(RuntimeKind::Tauri, PlatformKind::Macos, capability);
    assert!(desktop.platform_context_menu);

    let browser = runtime_capabilities(RuntimeKind::BrowserServer, PlatformKind::Macos, capability);
    assert!(!browser.platform_context_menu);

    let mock = runtime_capabilities(RuntimeKind::Mock, PlatformKind::Macos, capability);
    assert!(!mock.platform_context_menu);
}

#[test]
fn quick_look_is_available_only_to_the_desktop_runtime() {
    let capabilities = PlatformCapabilities { quick_look: true, ..none() };

    assert!(action_capabilities_for_runtime(RuntimeKind::Tauri, capabilities).quick_look);
    for runtime in [RuntimeKind::BrowserServer, RuntimeKind::Mock] {
        assert!(!action_capabilities_for_runtime(runtime, capabilities).quick_look);
    }
}

#[test]
fn actions_dispatch_to_platform_operations() {
    assert_eq!(platform_action_kind("core.view"), Some(PlatformActionKind::Open));
    assert_eq!(platform_action_kind("core.openWith"), Some(PlatformActionKind::OpenWithChooser));
    assert_eq!(
        platform_action_kind("core.revealInSystemFileManager"),
        Some(PlatformActionKind::Reveal)
    );
    assert_eq!(platform_action_kind("core.copy"), None);
}

#[test]
fn adapter_failures_keep_their_meaning() {
    assert_eq!(
        map_platform_error("core.quickLook", PlatformFailure::Unsupported, "x".to_owned()),
        ApplicationError::ActionUnavailable("core.quickLook".to_owned())
    );
    assert_eq!(
        map_platform_error("core.open", PlatformFailure::Other, "denied".to_owned()),
        ApplicationError::PlatformOperationFailed("denied".to_owned())
    );
    assert_eq!(
        map_file_icon_error(PlatformFailure::Unsupported, "x".to_owned()),
        ApplicationError::NotFound
    );
    assert_eq!(
        map_native_menu_error("menu failed".to_owned()),
        ApplicationError::PlatformOperationFailed("menu failed".to_owned())
    );
}
