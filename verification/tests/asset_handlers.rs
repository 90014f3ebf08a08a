use skit::asset_handlers::{
    asset_from_entry, asset_path, asset_type_infos, check_asset_id, check_editable, check_serve_request,
    check_served_extension, check_update_request, count_asset_chunk, display_name, extension_allowed,
    served_asset_headers, sort_assets_by_name, unknown_type, upload_file_name, AssetTypeSource, PluginAsset,
};
use skit::permissions::Permissions;
use skit::plugin_assets::{AssetContentType, PluginAssetError, RegisteredAssetType};

fn slint_type() -> RegisteredAssetType {
    RegisteredAssetType {
        type_id: "slint".to_string(),
        plugin_id: "slint-plugin".to_string(),
        node_kind: "plugin::native::slint".to_string(),
        label: "Slint".to_string(),
        extensions: vec!["slint".to_string()],
        max_size_bytes: 1024,
        content_type: AssetContentType::Text,
        icon_hint: None,
        node_param: Some("file".to_string()),
        system_dir: "samples/slint/system".to_string(),
        user_dir: "samples/slint/user".to_string(),
    }
}

fn asset(name: &str) -> PluginAsset {
    PluginAsset {
        id: format!("{name}.slint"),
        name: name.to_string(),
        path: String::new(),
        format: "slint".to_string(),
        size_bytes: 0,
        is_system: false,
        type_id: "slint".to_string(),
        plugin_id: "p".to_string(),
    }
}

fn test_asset_type(extensions: &[&str]) -> RegisteredAssetType {
    RegisteredAssetType {
        type_id: "test".to_string(),
        plugin_id: "test-plugin".to_string(),
        node_kind: "plugin::native::test".to_string(),
        label: "Test".to_string(),
        extensions: extensions.iter().copied().map(String::from).collect(),
        max_size_bytes: 1024,
        content_type: AssetContentType::Binary,
        icon_hint: None,
        node_param: None,
        system_dir: "samples/test/system".to_string(),
        user_dir: "samples/test/user".to_string(),
    }
}

#[test]
fn process_entry_returns_user_asset_with_display_name() {
    let at = test_asset_type(&["txt"]);
    let perms = Permissions::admin();
    let asset = asset_from_entry("/tmp/x/my_cool-file.txt", false, 5, false, &at, &perms).unwrap();
    assert_eq!(asset.id, "my_cool-file.txt");
    assert_eq!(asset.name, "my cool file");
    assert_eq!(asset.format, "txt");
    assert_eq!(asset.size_bytes, 5);
    assert!(!asset.is_system);
    assert_eq!(asset.type_id, "test");
    assert_eq!(asset.plugin_id, "test-plugin");
    assert_eq!(asset.path, "samples/test/user/my_cool-file.txt");
}

#[test]
fn process_entry_returns_none_for_directories() {
    let at = test_asset_type(&["txt"]);
    assert!(asset_from_entry("/tmp/x/subdir", true, 0, false, &at, &Permissions::admin()).is_none());
}

#[test]
fn process_entry_returns_none_for_disallowed_extension() {
    let at = test_asset_type(&["txt"]);
    assert!(asset_from_entry("/tmp/x/notes.exe", false, 1, false, &at, &Permissions::admin()).is_none());
}

#[test]
fn entry_listing_respects_asset_allowlist() {
    let at = test_asset_type(&["txt"]);
    let perms = Permissions { allowed_assets: vec!["samples/test/system/*".to_string()], ..Default::default() };
    assert!(asset_from_entry("/tmp/x/clip.txt", false, 1, false, &at, &perms).is_none());
    assert!(asset_from_entry("/tmp/x/clip.txt", false, 1, true, &at, &perms).is_some());
}

#[test]
fn entry_listing_keeps_original_case_of_unmatched_suffix() {
    let t = slint_type();
    let a = asset_from_entry("/data/my_cool-ui.SLINT", false, 42, false, &t, &Permissions::admin()).expect("listed");
    assert_eq!(a.format, "slint");
    assert_eq!(a.name, "my cool ui.SLINT");
    assert_eq!(a.path, "samples/slint/user/my_cool-ui.SLINT");
}

#[test]
fn asset_paths_and_names() {
    assert_eq!(asset_path("samples/slint/system", true, "a.slint"), "samples/slint/system/a.slint");
    assert_eq!(asset_path("system", false, "a.slint"), "/user/a.slint");
    assert_eq!(display_name("my_file-name.slint", "slint"), "my file name");
    assert!(extension_allowed(&vec!["PNG".to_string()], "png"));
    assert!(!extension_allowed(&vec!["png".to_string()], "jpg"));
}

#[test]
fn assets_sort_by_name() {
    let sorted = sort_assets_by_name(&vec![asset("zeta"), asset("Alpha"), asset("beta"), asset("alpha")]);
    let names: Vec<&str> = sorted.iter().map(|a| a.name.as_str()).collect();
    assert_eq!(names, vec!["Alpha", "alpha", "beta", "zeta"]);
}

#[test]
fn request_checks() {
    assert_eq!(unknown_type("x"), (404, "Unknown asset type: x".to_string()));
    assert!(check_asset_id("ok.slint").is_ok());
    assert!(matches!(check_asset_id("../x"), Err(PluginAssetError::InvalidFilename(_))));
    assert_eq!(check_serve_request("a.slint", "system").unwrap(), true);
    assert_eq!(check_serve_request("a.slint", "user").unwrap(), false);
    assert_eq!(
        check_serve_request("a.slint", "root").unwrap_err().to_string(),
        "Invalid filename: Invalid scope: must be 'user' or 'system'"
    );
    assert!(check_served_extension("/x/a.SLINT", &vec!["slint".to_string()], "slint").is_ok());
    assert_eq!(
        check_served_extension("/x/a.exe", &vec!["slint".to_string()], "slint").unwrap_err().to_string(),
        "Invalid format: File extension 'exe' is not permitted for asset type 'slint'"
    );
    let (ct, cache, disp) = served_asset_headers(AssetContentType::Text, "a.slint");
    assert_eq!((ct, cache, disp.as_str()), ("text/plain; charset=utf-8", "public, must-revalidate", "attachment; filename=\"a.slint\""));
    assert!(matches!(check_update_request(&Permissions::default(), "user", "a"), Err(PluginAssetError::Forbidden)));
    assert!(matches!(check_update_request(&Permissions::admin(), "system", "a"), Err(PluginAssetError::Forbidden)));
    assert!(check_update_request(&Permissions::admin(), "user", "a").is_ok());
    assert!(check_editable(AssetContentType::Text).is_ok());
    assert!(check_editable(AssetContentType::Binary).is_err());
    assert_eq!(upload_file_name(Some("my file.png")).unwrap(), "my_file.png");
    assert!(upload_file_name(None).is_err());
    assert_eq!(count_asset_chunk(1, 2, 3).unwrap(), 3);
    assert!(matches!(count_asset_chunk(2, 2, 3), Err(PluginAssetError::FileTooLarge(3))));
}

#[test]
fn asset_type_list_core_only() {
    let infos = asset_type_infos(&vec![]);
    let ids: Vec<&str> = infos.iter().map(|i| i.type_id.as_str()).collect();
    assert_eq!(ids, vec!["audio", "image", "font"]);
    assert!(infos.iter().all(|i| i.source == AssetTypeSource::Core && !i.editable));
    assert_eq!(infos[2].extensions, vec!["ttf", "otf", "woff2"]);
}

#[test]
fn asset_type_list_with_plugin_type() {
    let infos = asset_type_infos(&vec![slint_type()]);
    assert_eq!(infos.len(), 4);
    let p = &infos[3];
    assert_eq!(p.type_id, "slint");
    assert_eq!(p.source, AssetTypeSource::Plugin);
    assert_eq!(p.plugin_id.as_deref(), Some("slint-plugin"));
    assert_eq!(p.icon_hint, "file");
    assert!(p.editable);
}
