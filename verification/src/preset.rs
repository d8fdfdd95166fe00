//! Bundled preset rules: the manifest promise (thirty unique SFW 4K Wallhaven
//! records) and the names and signatures of the bundled thumbnails.
use vstd::prelude::*;

use crate::error::{AppError, AppResult};
use crate::models::NewWallpaper;
use crate::platform::PathStyle;
use crate::text::{concat2, str_eq};

verus! {

/// Number of bundled presets.
pub const EXPECTED_PRESET_COUNT: usize = 30;

/// The bundled preset manifest.
pub struct PresetManifest {
    pub version: u32,
    pub source: String,
    pub wallpapers: Vec<NewWallpaper>,
}

/// A preset entry that keeps the product promise, given the ids seen before it.
pub open spec fn valid_preset(w: NewWallpaper, earlier: Seq<NewWallpaper>) -> bool {
    &&& w.provider@ == "wallhaven"@
    &&& w.width >= 3840
    &&& w.height >= 2160
    &&& w.purity@ == "sfw"@
    &&& w.preset
    &&& forall|k: int| 0 <= k < earlier.len() ==> #[trigger] earlier[k].remote_id@ != w.remote_id@
}

/// The first entry that breaks the promise, if any.
pub open spec fn first_invalid_preset(ws: Seq<NewWallpaper>) -> Option<int> {
    if exists|i: int| 0 <= i < ws.len() && !valid_preset(ws[i], ws.take(i)) {
        Some(
            choose|i: int|
                0 <= i < ws.len() && !valid_preset(ws[i], ws.take(i)) && forall|k: int|
                    0 <= k < i ==> valid_preset(#[trigger] ws[k], ws.take(k)),
        )
    } else {
        None
    }
}

/// Why a manifest is refused, if it is.
pub open spec fn spec_manifest_error(m: PresetManifest) -> Option<Seq<char>> {
    if m.version != 1 || m.source@ != "Wallhaven API v1"@ {
        Some("unsupported preset manifest version or source"@)
    } else if m.wallpapers@.len() != 30 {
        Some("preset manifest must contain exactly 30 wallpapers"@)
    } else {
        match first_invalid_preset(m.wallpapers@) {
            Some(i) => Some("invalid or duplicate preset wallpaper: "@ + m.wallpapers@[i].remote_id@),
            None => None,
        }
    }
}

fn id_seen(ws: &Vec<NewWallpaper>, end: usize, id: &str) -> (b: bool)
    requires
        end <= ws@.len(),
    ensures
        b == exists|k: int| 0 <= k < end && #[trigger] ws@[k].remote_id@ == id@,
{
    let mut k: usize = 0;
    while k < end
        invariant
            k <= end <= ws@.len(),
            forall|j: int| 0 <= j < k ==> #[trigger] ws@[j].remote_id@ != id@,
        decreases end - k,
    {
        if str_eq(ws[k].remote_id.as_str(), id) {
            return true;
        }
        k += 1;
    }
    false
}

/// Enforces the bundled preset promise before any records reach persistence.
pub fn validate_manifest(manifest: &PresetManifest) -> (r: AppResult<()>)
    ensures
        match spec_manifest_error(*manifest) {
            Some(message) => r matches Err(AppError::Configuration(m)) && m@ == message,
            None => r is Ok,
        },
{
    if manifest.version != 1 || !str_eq(manifest.source.as_str(), "Wallhaven API v1") {
        return Err(
            AppError::Configuration("unsupported preset manifest version or source".to_string()),
        );
    }
    if manifest.wallpapers.len() != EXPECTED_PRESET_COUNT {
        return Err(
            AppError::Configuration(
                "preset manifest must contain exactly 30 wallpapers".to_string(),
            ),
        );
    }
    let ws = &manifest.wallpapers;
    let mut i: usize = 0;
    while i < ws.len()
        invariant
            i <= ws.len(),
            ws@ == manifest.wallpapers@,
            manifest.version == 1,
            manifest.source@ == "Wallhaven API v1"@,
            ws@.len() == 30,
            forall|k: int| 0 <= k < i ==> valid_preset(#[trigger] ws@[k], ws@.take(k)),
        decreases ws.len() - i,
    {
        let w = &ws[i];
        let seen = id_seen(ws, i, w.remote_id.as_str());
        proof {
            assert forall|k: int| 0 <= k < i implies (#[trigger] ws@.take(i as int)[k]) == ws@[k] by {
            }
        }
        if !str_eq(w.provider.as_str(), "wallhaven") || w.width < 3840 || w.height < 2160
            || !str_eq(w.purity.as_str(), "sfw") || !w.preset || seen {
            proof {
                if seen {
                    let k = choose|k: int| 0 <= k < i && #[trigger] ws@[k].remote_id@ == w.remote_id@;
                    assert(ws@.take(i as int)[k] == ws@[k]);
                }
                assert(!valid_preset(ws@[i as int], ws@.take(i as int)));
                let j = choose|j: int|
                    0 <= j < ws@.len() && !valid_preset(ws@[j], ws@.take(j)) && forall|k: int|
                        0 <= k < j ==> valid_preset(#[trigger] ws@[k], ws@.take(k));
                assert(j == i) by {
                    if j < i {
                        assert(valid_preset(ws@[j], ws@.take(j)));
                    } else if i < j {
                        assert(valid_preset(ws@[i as int], ws@.take(i as int)));
                    }
                }
            }
            return Err(
                AppError::Configuration(
                    concat2("invalid or duplicate preset wallpaper: ", w.remote_id.as_str()),
                ),
            );
        }
        proof {
            assert forall|k: int| 0 <= k < ws@.take(i as int).len() implies #[trigger] ws@.take(
                i as int,
            )[k].remote_id@ != w.remote_id@ by {
                assert(ws@.take(i as int)[k] == ws@[k]);
            }
            assert(valid_preset(ws@[i as int], ws@.take(i as int)));
        }
        i += 1;
    }
    proof {
        assert(!(exists|j: int| 0 <= j < ws@.len() && !valid_preset(ws@[j], ws@.take(j))));
    }
    Ok(())
}

/// The cached thumbnail name of a preset: `preset-{remote_id}.{extension}`.
pub fn preset_thumbnail_name(remote_id: &str, extension: &str) -> (s: String)
    ensures
        s@ == "preset-"@ + remote_id@ + "."@ + extension@,
{
    let mut s = String::from_str("preset-");
    s.append(remote_id);
    s.append(".");
    s.append(extension);
    s
}

/// Only JPEG and PNG thumbnails are bundled.
pub open spec fn spec_preset_signature(bytes: Seq<u8>) -> bool {
    crate::provider::wallhaven::bytes_start_with(bytes, seq![0xFFu8, 0xD8u8, 0xFFu8])
        || crate::provider::wallhaven::bytes_start_with(
        bytes,
        seq![0x89u8, 0x50u8, 0x4Eu8, 0x47u8, 0x0Du8, 0x0Au8, 0x1Au8, 0x0Au8],
    )
}

/// Verifies a small magic signature so cached error pages are never shown as images.
pub fn validate_preset_signature(bytes: &[u8], path: &str) -> (r: AppResult<()>)
    ensures
        spec_preset_signature(bytes@) ==> r is Ok,
        !spec_preset_signature(bytes@) ==> (r matches Err(AppError::Image(m)) && m@
            == "invalid preset thumbnail: "@ + path@),
{
    let jpeg: [u8; 3] = [0xFF, 0xD8, 0xFF];
    let png: [u8; 8] = [0x89, 0x50, 0x4E, 0x47, 0x0D, 0x0A, 0x1A, 0x0A];
    assert(jpeg@ =~= seq![0xFFu8, 0xD8u8, 0xFFu8]);
    assert(png@ =~= seq![0x89u8, 0x50u8, 0x4Eu8, 0x47u8, 0x0Du8, 0x0Au8, 0x1Au8, 0x0Au8]);
    if crate::provider::wallhaven::starts_with_bytes(bytes, jpeg.as_slice())
        || crate::provider::wallhaven::starts_with_bytes(bytes, png.as_slice()) {
        Ok(())
    } else {
        Err(AppError::Image(concat2("invalid preset thumbnail: ", path)))
    }
}

/// A bundled thumbnail must resolve inside the preset directory and be a file.
pub fn check_thumbnail_location(
    canonical_thumbnail: &str,
    canonical_root: &str,
    is_file: bool,
    style: PathStyle,
) -> (r: AppResult<()>)
    ensures
        (crate::cache::spec_path_within(canonical_thumbnail@, canonical_root@, style) && is_file) ==> r is Ok,
        !(crate::cache::spec_path_within(canonical_thumbnail@, canonical_root@, style) && is_file) ==> (r matches Err(
            AppError::Configuration(m),
        ) && m@ == "preset thumbnail escaped the bundled resource directory"@),
{
    if !crate::cache::path_within(canonical_thumbnail, canonical_root, style) || !is_file {
        return Err(
            AppError::Configuration(
                "preset thumbnail escaped the bundled resource directory".to_string(),
            ),
        );
    }
    Ok(())
}

} // verus!
