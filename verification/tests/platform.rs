use wallpaper_desktop::platform::PathStyle;
use wallpaper_desktop::models::MonitorInfo;
use wallpaper_desktop::error::AppResult;
use wallpaper_desktop::platform::{
    contains_origin, extension, file_name, needs_restore, restoration_plan, PlatformMonitorService, PlatformWallpaperService, normalize_windows_path, positive_dimension, primary_monitor,
    same_windows_path, validate_wallpaper_extension, Rect,
};

#[test]
fn identifies_primary_bounds_by_virtual_desktop_origin() {
    assert!(contains_origin(&Rect { left: 0, top: 0, right: 1920, bottom: 1080 }));
    assert!(!contains_origin(&Rect { left: 1920, top: 0, right: 3840, bottom: 1080 }));
}

#[test]
fn rejects_negative_native_dimensions() {
    assert!(positive_dimension(-1, "width").is_err());
    assert_eq!(positive_dimension(1920, "width").expect("positive"), 1920);
}

#[test]
fn compares_equivalent_windows_wallpaper_paths() {
    assert!(same_windows_path(r"\\?\C:\Wallpapers\IMAGE.JPG", r"c:\wallpapers\image.jpg"));
}

#[test]
fn windows_paths_normalize_separators_and_case() {
    assert_eq!(normalize_windows_path("C:/Pictures/A.PNG"), r"c:\pictures\a.png");
    assert!(!same_windows_path(r"C:\a.jpg", r"C:\b.jpg"));
}

#[test]
fn wallpaper_formats_are_checked_by_extension() {
    assert!(validate_wallpaper_extension("/tmp/photo.JPEG", PathStyle::Unix).is_ok());
    assert!(validate_wallpaper_extension("/tmp/notes.txt", PathStyle::Unix).is_err());
    assert!(validate_wallpaper_extension("/tmp/noextension", PathStyle::Unix).is_err());
}

fn monitor(id: &str, primary: bool) -> MonitorInfo {
    MonitorInfo {
        system_monitor_id: id.to_string(),
        name: id.to_string(),
        width: 1920,
        height: 1080,
        position_x: 0,
        position_y: 0,
        primary,
    }
}

#[test]
fn primary_monitor_is_the_flagged_display() {
    let chosen = primary_monitor(vec![monitor("a", false), monitor("b", true)]).expect("primary");
    assert_eq!(chosen.system_monitor_id, "b");
    assert!(primary_monitor(vec![monitor("a", false)]).is_err());
}

struct FixedMonitors(Vec<MonitorInfo>);

impl PlatformMonitorService for FixedMonitors {
    fn get_monitors(&self) -> AppResult<Vec<MonitorInfo>> {
        Ok(self.0.clone())
    }
}

struct NoReconciliation;

impl PlatformWallpaperService for NoReconciliation {
    fn set_wallpaper_for_all(&self, _image_path: &str) -> AppResult<()> {
        Ok(())
    }

    fn set_wallpaper_for_monitor(&self, _monitor_id: &str, _image_path: &str) -> AppResult<()> {
        Ok(())
    }

    fn get_wallpaper_for_monitor(&self, _monitor_id: &str) -> AppResult<String> {
        Ok(String::new())
    }
}

fn display(id: &str, primary: bool) -> MonitorInfo {
    MonitorInfo {
        system_monitor_id: id.into(),
        name: id.into(),
        width: 1920,
        height: 1080,
        position_x: 0,
        position_y: 0,
        primary,
    }
}

#[test]
fn default_platform_methods_find_the_primary_and_reconcile_nothing() {
    let service = FixedMonitors(vec![display("left", false), display("main", true)]);
    let primary = service.get_primary_monitor().expect("primary");
    assert_eq!(primary.system_monitor_id, "main");
    assert!(primary.primary);
    assert!(FixedMonitors(vec![display("left", false)]).get_primary_monitor().is_err());
    assert_eq!(NoReconciliation.reconcile_wallpapers().expect("reconcile"), 0);
}

#[test]
fn restores_only_connected_monitors_showing_another_image() {
    let entries = vec![
        (Some(r"\\?\C:\Pics\A.jpg".to_string()), "c:/pics/a.jpg".to_string()),
        (None, r"C:\Pics\gone.jpg".to_string()),
        (Some(r"C:\Windows\Web\img0.jpg".to_string()), r"C:\Pics\b.jpg".to_string()),
    ];
    assert!(!needs_restore(&entries[0].0, &entries[0].1));
    assert!(!needs_restore(&entries[1].0, &entries[1].1));
    assert!(needs_restore(&entries[2].0, &entries[2].1));
    assert_eq!(restoration_plan(&entries), vec![2]);
    assert!(restoration_plan(&Vec::new()).is_empty());
}

fn text_of(chars: Option<Vec<char>>) -> Option<String> {
    chars.map(|c| c.into_iter().collect())
}

#[test]
fn path_names_follow_std_path_on_unix() {
    let cases = [
        "photo.jpg", "photo.jpg/", "/pics/photo.JPG", "photo.jpg/.", "photo.jpg/.//", "dir/..", "..",
        ".", "/", "", ".hidden", "archive.tar.gz", "name.", "..a", r"dir\photo.jpg", "a//b.png",
    ];
    for case in cases {
        let chars: Vec<char> = case.chars().collect();
        let path = std::path::Path::new(case);
        assert_eq!(
            text_of(file_name(&chars, PathStyle::Unix)),
            path.file_name().map(|n| n.to_string_lossy().into_owned()),
            "file name of {case:?}"
        );
        assert_eq!(
            text_of(extension(&chars, PathStyle::Unix)),
            path.extension().map(|n| n.to_string_lossy().into_owned()),
            "extension of {case:?}"
        );
    }
    assert!(wallpaper_desktop::provider::local::is_supported_image("photo.jpg/", PathStyle::Unix));
}

#[test]
fn windows_paths_split_on_both_separators() {
    let chars: Vec<char> = r"C:\Pictures\sun.JPG".chars().collect();
    assert_eq!(text_of(file_name(&chars, PathStyle::Windows)).as_deref(), Some("sun.JPG"));
    assert_eq!(text_of(extension(&chars, PathStyle::Windows)).as_deref(), Some("JPG"));
    let unix: Vec<char> = r"dir\photo".chars().collect();
    assert_eq!(text_of(file_name(&unix, PathStyle::Unix)).as_deref(), Some(r"dir\photo"));
    assert_eq!(text_of(file_name(&unix, PathStyle::Windows)).as_deref(), Some("photo"));
    assert!(validate_wallpaper_extension(r"C:\Pictures\sun.png\", PathStyle::Windows).is_ok());
}
