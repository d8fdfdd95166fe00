//! The per-user data tree of the application, derived from the operating
//! system's local data directory.
use vstd::prelude::*;

verus! {

/// Name of the application's directory under the user data location.
pub open spec fn app_directory_name() -> Seq<char> {
    "4K Wallpaper Desktop"@
}

/// All writable paths of the application.
#[derive(Clone, Debug)]
pub struct AppPaths {
    pub root: String,
    pub data_dir: String,
    pub database_file: String,
    pub wallpapers_original_dir: String,
    pub thumbnails_dir: String,
    pub processed_dir: String,
    pub logs_dir: String,
    pub config_dir: String,
    pub config_file: String,
}

/// `base` joined with one more component.
pub open spec fn joined(base: Seq<char>, sep: char, name: Seq<char>) -> Seq<char> {
    base + seq![sep] + name
}

fn join(base: &String, sep: char, name: &str) -> (r: String)
    ensures
        r@ == joined(base@, sep, name@),
{
    let mut r = base.clone();
    crate::text::push_char(&mut r, sep);
    r.append(name);
    r
}

impl AppPaths {
    /// Derives the data tree under the platform data directory, with `separator`
    /// between path components.
    pub fn under(data_local_dir: &str, separator: char) -> (p: AppPaths)
        ensures
            p.root@ == joined(data_local_dir@, separator, app_directory_name()),
            p.data_dir@ == joined(p.root@, separator, "data"@),
            p.database_file@ == joined(p.data_dir@, separator, "wallpaper.db"@),
            p.wallpapers_original_dir@ == joined(
                joined(p.root@, separator, "wallpapers"@),
                separator,
                "original"@,
            ),
            p.thumbnails_dir@ == joined(joined(p.root@, separator, "cache"@), separator, "thumbnails"@),
            p.processed_dir@ == joined(joined(p.root@, separator, "cache"@), separator, "processed"@),
            p.logs_dir@ == joined(p.root@, separator, "logs"@),
            p.config_dir@ == joined(p.root@, separator, "config"@),
            p.config_file@ == joined(p.config_dir@, separator, "settings.json"@),
    {
        let base = data_local_dir.to_string();
        let root = join(&base, separator, "4K Wallpaper Desktop");
        let data_dir = join(&root, separator, "data");
        let config_dir = join(&root, separator, "config");
        let wallpapers = join(&root, separator, "wallpapers");
        let cache = join(&root, separator, "cache");
        AppPaths {
            database_file: join(&data_dir, separator, "wallpaper.db"),
            wallpapers_original_dir: join(&wallpapers, separator, "original"),
            thumbnails_dir: join(&cache, separator, "thumbnails"),
            processed_dir: join(&cache, separator, "processed"),
            logs_dir: join(&root, separator, "logs"),
            config_file: join(&config_dir, separator, "settings.json"),
            config_dir,
            data_dir,
            root,
        }
    }

    /// The directories created at startup, in creation order.
    pub fn required_directories(&self) -> (r: Vec<String>)
        ensures
            r@.len() == 6,
            r@[0] == self.data_dir,
            r@[1] == self.wallpapers_original_dir,
            r@[2] == self.thumbnails_dir,
            r@[3] == self.processed_dir,
            r@[4] == self.logs_dir,
            r@[5] == self.config_dir,
    {
        let mut r: Vec<String> = Vec::new();
        r.push(self.data_dir.clone());
        r.push(self.wallpapers_original_dir.clone());
        r.push(self.thumbnails_dir.clone());
        r.push(self.processed_dir.clone());
        r.push(self.logs_dir.clone());
        r.push(self.config_dir.clone());
        r
    }
}

} // verus!
