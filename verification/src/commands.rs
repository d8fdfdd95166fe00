//! Data returned to the user interface and the small decisions made at that boundary.
use vstd::prelude::*;

use crate::error::{AppError, AppResult};
use crate::platform::{spec_extension, PathStyle};
use crate::text::{ascii_lowercase, chars_of, spec_ascii_lowercase, str_eq};

verus! {

/// Initialized resources reported to the status view.
#[derive(Clone, Debug)]
pub struct AppStatus {
    pub app_data_directory: String,
    pub database_path: String,
    pub platform: &'static str,
    pub schema_version: i64,
}

/// One cached thumbnail: its MIME type and bytes.
#[derive(Clone, Debug)]
pub struct ThumbnailData {
    pub mime_type: &'static str,
    pub bytes: Vec<u8>,
}

/// The launch argument the operating system passes when starting at login.
pub open spec fn autostart_argument() -> Seq<char> {
    "--hidden"@
}

/// Distinguishes operating-system auto-start from a user-initiated launch.
pub fn is_background_launch(args: &Vec<String>) -> (b: bool)
    ensures
        b == exists|i: int| 0 <= i < args@.len() && #[trigger] args@[i]@ == autostart_argument(),
{
    let mut i: usize = 0;
    while i < args.len()
        invariant
            i <= args.len(),
            forall|k: int| 0 <= k < i ==> #[trigger] args@[k]@ != autostart_argument(),
        decreases args.len() - i,
    {
        if str_eq(args[i].as_str(), "--hidden") {
            return true;
        }
        i += 1;
    }
    false
}

/// The MIME type a cached thumbnail is served with: PNG by extension, else JPEG.
pub open spec fn spec_thumbnail_mime(path: Seq<char>, style: PathStyle) -> Seq<char> {
    match spec_extension(path, style) {
        Some(e) => if spec_ascii_lowercase(e) == "png"@ {
            "image/png"@
        } else {
            "image/jpeg"@
        },
        None => "image/jpeg"@,
    }
}

/// Chooses the MIME type of a cached thumbnail from its extension.
pub fn thumbnail_mime(path: &str, style: PathStyle) -> (m: &'static str)
    ensures
        m@ == spec_thumbnail_mime(path@, style),
{
    match crate::platform::extension(&chars_of(path), style) {
        Some(e) => {
            let lowered = ascii_lowercase(&e);
            if crate::text::chars_eq(&lowered, &chars_of("png")) {
                "image/png"
            } else {
                "image/jpeg"
            }
        },
        None => "image/jpeg",
    }
}

/// A thumbnail is served only from inside the application's thumbnail cache.
pub fn check_thumbnail_location(
    canonical_thumbnail: &str,
    canonical_cache: &str,
    style: PathStyle,
) -> (r: AppResult<()>)
    ensures
        crate::cache::spec_path_within(canonical_thumbnail@, canonical_cache@, style) ==> r is Ok,
        !crate::cache::spec_path_within(canonical_thumbnail@, canonical_cache@, style) ==> (r matches Err(
            AppError::Image(m),
        ) && m@ == "thumbnail path is outside the application cache"@),
{
    if !crate::cache::path_within(canonical_thumbnail, canonical_cache, style) {
        return Err(AppError::Image("thumbnail path is outside the application cache".to_string()));
    }
    Ok(())
}

/// A thumbnail must be cached before it can be served.
pub fn cached_thumbnail(path: Option<String>) -> (r: AppResult<String>)
    ensures
        match path {
            Some(p) => r == Ok::<String, AppError>(p),
            None => r matches Err(AppError::Image(m)) && m@ == "thumbnail is not cached"@,
        },
{
    match path {
        Some(p) => Ok(p),
        None => Err(AppError::Image("thumbnail is not cached".to_string())),
    }
}

} // verus!
