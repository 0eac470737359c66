use mdrs::icons::{AppAssets, AppIcon};

#[test]
fn icon_paths() {
    assert_eq!(AppIcon::Back.path(), "icons/back.svg");
    assert_eq!(AppIcon::Edit.path(), "icons/edit.svg");
    assert_eq!(AppIcon::File.path(), "icons/file.svg");
    assert_eq!(AppIcon::Folder.path(), "icons/folder.svg");
    assert_eq!(AppIcon::Menu.path(), "icons/menu.svg");
    assert_eq!(AppIcon::Preview.path(), "icons/preview.svg");
    assert_eq!(AppIcon::Settings.path(), "icons/settings.svg");
}

#[test]
fn asset_listing_filters_by_prefix() {
    let names: Vec<String> = ["icons/back.svg", "icons/edit.svg", "logo.png"].iter().map(|s| s.to_string()).collect();
    assert_eq!(AppAssets.list(&names, "icons/"), vec!["icons/back.svg", "icons/edit.svg"]);
    assert_eq!(AppAssets.list(&names, ""), names);
    assert!(AppAssets.list(&names, "fonts/").is_empty());
    assert!(!AppAssets.loads(""));
    assert!(AppAssets.loads("icons/back.svg"));
}
