//! Rules for downloading provider originals: request checks, file naming and
//! the size limit enforced while streaming.
use vstd::prelude::*;

use crate::error::{AppError, AppResult};
use crate::text::{
    ascii_lowercase, chars_of, ends_with, find_char, is_ascii_alphanumeric, slice_chars,
    spec_ascii_lowercase, spec_ends_with, spec_find_char, spec_starts_with, str_eq,
    str_starts_with, char_is_ascii_alphanumeric,
};

verus! {

/// Largest provider original accepted: 120 MiB.
pub const MAX_DOWNLOAD_BYTES: u64 = 125829120;

/// Characters allowed in a remote id that becomes part of a file name.
pub open spec fn is_file_id_char(c: char) -> bool {
    is_ascii_alphanumeric(c) || c == '-' || c == '_'
}

/// Why a download request is refused before any network access, if it is.
pub open spec fn spec_download_request_error(url: Seq<char>, remote_id: Seq<char>) -> Option<
    Seq<char>,
> {
    if !spec_starts_with(url, "https://"@) {
        Some("provider originals must use HTTPS"@)
    } else if !(forall|i: int| 0 <= i < remote_id.len() ==> is_file_id_char(#[trigger] remote_id[i])) {
        Some("invalid provider remote id"@)
    } else {
        None
    }
}

/// Refuses non-HTTPS originals and ids that could escape the download directory.
pub fn check_download_request(url: &str, remote_id: &str) -> (r: AppResult<()>)
    ensures
        match spec_download_request_error(url@, remote_id@) {
            Some(message) => r matches Err(AppError::Provider(m)) && m@ == message,
            None => r is Ok,
        },
{
    if !str_starts_with(url, "https://") {
        return Err(AppError::Provider("provider originals must use HTTPS".to_string()));
    }
    let id = chars_of(remote_id);
    let mut i: usize = 0;
    while i < id.len()
        invariant
            i <= id.len(),
            id@ == remote_id@,
            spec_starts_with(url@, "https://"@),
            forall|k: int| 0 <= k < i ==> is_file_id_char(#[trigger] id@[k]),
        decreases id.len() - i,
    {
        let c = id[i];
        if !(char_is_ascii_alphanumeric(c) || c == '-' || c == '_') {
            assert(!is_file_id_char(remote_id@[i as int]));
            return Err(AppError::Provider("invalid provider remote id".to_string()));
        }
        i += 1;
    }
    Ok(())
}

/// The part of a text before its first `?`.
pub open spec fn before_query(s: Seq<char>) -> Seq<char> {
    match spec_find_char(s, '?') {
        Some(i) => s.take(i),
        None => s,
    }
}

/// The extension of a downloaded original: trusted MIME metadata first, then a
/// conservative check of the URL path (case-insensitive, query removed).
pub open spec fn spec_extension_for(mime_type: Option<Seq<char>>, url: Seq<char>) -> Seq<char> {
    let path = before_query(spec_ascii_lowercase(url));
    if mime_type == Some("image/png"@) {
        "png"@
    } else if mime_type == Some("image/webp"@) {
        "webp"@
    } else if spec_ends_with(path, ".png"@) {
        "png"@
    } else if spec_ends_with(path, ".webp"@) {
        "webp"@
    } else {
        "jpg"@
    }
}

/// The character view of an optional string.
pub open spec fn opt_view(value: Option<&str>) -> Option<Seq<char>> {
    match value {
        Some(s) => Some(s@),
        None => None,
    }
}

/// The URL path before any query, ASCII-lowercased.
fn lowered_path(url: &str) -> (r: Vec<char>)
    ensures
        r@ == before_query(spec_ascii_lowercase(url@)),
{
    let lowered = ascii_lowercase(&chars_of(url));
    match find_char(&lowered, '?') {
        Some(i) => {
            proof {
                let s = lowered@;
                assert(spec_find_char(s, '?') is Some);
                let j = spec_find_char(s, '?')->0;
                assert(j == i) by {
                    if j < i {
                        assert(s[j] == '?');
                    } else if i < j {
                        assert(s[i as int] == '?');
                    }
                }
            }
            slice_chars(&lowered, 0, i)
        },
        None => lowered,
    }
}

/// Uses trusted MIME metadata before falling back to a conservative URL extension check.
pub fn extension_for(mime_type: Option<&str>, url: &str) -> (e: &'static str)
    ensures
        e@ == spec_extension_for(opt_view(mime_type), url@),
{
    match mime_type {
        Some(m) => {
            if str_eq(m, "image/png") {
                return "png";
            }
            if str_eq(m, "image/webp") {
                return "webp";
            }
        },
        None => {},
    }
    let path = lowered_path(url);
    if ends_with(&path, &chars_of(".png")) {
        "png"
    } else if ends_with(&path, &chars_of(".webp")) {
        "webp"
    } else {
        "jpg"
    }
}

/// The file name of a downloaded original: `{provider}-{remote_id}.{extension}`.
pub fn original_file_name(provider: &str, remote_id: &str, extension: &str) -> (name: String)
    ensures
        name@ == provider@ + "-"@ + remote_id@ + "."@ + extension@,
{
    let mut name = String::from_str(provider);
    name.append("-");
    name.append(remote_id);
    name.append(".");
    name.append(extension);
    name
}

/// The temporary name an original is streamed to before the atomic rename.
pub fn partial_file_name(target: &str) -> (name: String)
    ensures
        name@ == target@ + ".part"@,
{
    let mut name = String::from_str(target);
    name.append(".part");
    name
}

/// Adds the running byte count of a streamed original and refuses totals over 120 MiB.
pub fn accept_original_bytes(received: u64, incoming: u64) -> (r: AppResult<u64>)
    ensures
        received + incoming > MAX_DOWNLOAD_BYTES ==> (r matches Err(AppError::Provider(m))
            && m@ == "provider original exceeds the 120 MiB safety limit"@),
        received + incoming <= MAX_DOWNLOAD_BYTES ==> r == Ok::<u64, AppError>(
            (received + incoming) as u64,
        ),
{
    let total = received.saturating_add(incoming);
    if total > MAX_DOWNLOAD_BYTES {
        Err(AppError::Provider("provider original exceeds the 120 MiB safety limit".to_string()))
    } else {
        Ok(total)
    }
}

} // verus!
