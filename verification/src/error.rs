//! Stable error categories shared by every service of the library.
use vstd::prelude::*;

use crate::text::concat2;

verus! {

/// Stable error categories exposed to commands and recorded by the core.
#[derive(Debug, Clone)]
pub enum AppError {
    Network(String),
    Database(String),
    FileSystem(String),
    Image(String),
    ThumbnailUnavailable(String),
    Provider(String),
    Platform(String),
    Wallpaper(String),
    Monitor(String),
    Configuration(String),
    Unknown(String),
}

pub type AppResult<T> = Result<T, AppError>;

/// The machine-readable category of an error.
pub open spec fn spec_code(error: AppError) -> Seq<char> {
    match error {
        AppError::Network(_) => "NETWORK"@,
        AppError::Database(_) => "DATABASE"@,
        AppError::FileSystem(_) => "FILE_SYSTEM"@,
        AppError::Image(_) => "IMAGE"@,
        AppError::ThumbnailUnavailable(_) => "THUMBNAIL_UNAVAILABLE"@,
        AppError::Provider(_) => "PROVIDER"@,
        AppError::Platform(_) => "PLATFORM"@,
        AppError::Wallpaper(_) => "WALLPAPER"@,
        AppError::Monitor(_) => "MONITOR"@,
        AppError::Configuration(_) => "CONFIGURATION"@,
        AppError::Unknown(_) => "UNKNOWN"@,
    }
}

/// The human-readable prefix of each category.
pub open spec fn spec_prefix(error: AppError) -> Seq<char> {
    match error {
        AppError::Network(_) => "network error: "@,
        AppError::Database(_) => "database error: "@,
        AppError::FileSystem(_) => "file system error: "@,
        AppError::Image(_) => "image error: "@,
        AppError::ThumbnailUnavailable(_) => "thumbnail unavailable: "@,
        AppError::Provider(_) => "provider error: "@,
        AppError::Platform(_) => "platform error: "@,
        AppError::Wallpaper(_) => "wallpaper error: "@,
        AppError::Monitor(_) => "monitor error: "@,
        AppError::Configuration(_) => "configuration error: "@,
        AppError::Unknown(_) => "unknown error: "@,
    }
}

/// The detail text carried by an error.
pub open spec fn spec_detail(error: AppError) -> Seq<char> {
    match error {
        AppError::Network(m) => m@,
        AppError::Database(m) => m@,
        AppError::FileSystem(m) => m@,
        AppError::Image(m) => m@,
        AppError::ThumbnailUnavailable(m) => m@,
        AppError::Provider(m) => m@,
        AppError::Platform(m) => m@,
        AppError::Wallpaper(m) => m@,
        AppError::Monitor(m) => m@,
        AppError::Configuration(m) => m@,
        AppError::Unknown(m) => m@,
    }
}

/// The full display text of an error: its category prefix followed by its detail.
pub open spec fn spec_message(error: AppError) -> Seq<char> {
    spec_prefix(error) + spec_detail(error)
}

impl AppError {
    /// Creates a platform error without leaking platform types into callers.
    pub fn platform(message: &str) -> (e: AppError)
        ensures
            e matches AppError::Platform(m) && m@ == message@,
    {
        AppError::Platform(message.to_string())
    }

    /// Creates a monitor-specific error for native enumeration failures.
    pub fn monitor(message: &str) -> (e: AppError)
        ensures
            e matches AppError::Monitor(m) && m@ == message@,
    {
        AppError::Monitor(message.to_string())
    }

    /// Creates a configuration error for invalid or unavailable local settings.
    pub fn configuration(message: &str) -> (e: AppError)
        ensures
            e matches AppError::Configuration(m) && m@ == message@,
    {
        AppError::Configuration(message.to_string())
    }

    /// Creates an unknown error only when no narrower category is applicable.
    pub fn unknown(message: &str) -> (e: AppError)
        ensures
            e matches AppError::Unknown(m) && m@ == message@,
    {
        AppError::Unknown(message.to_string())
    }

    /// Returns the stable machine-readable category for the UI boundary.
    pub fn code(&self) -> (c: &'static str)
        ensures
            c@ == spec_code(*self),
    {
        match self {
            AppError::Network(_) => "NETWORK",
            AppError::Database(_) => "DATABASE",
            AppError::FileSystem(_) => "FILE_SYSTEM",
            AppError::Image(_) => "IMAGE",
            AppError::ThumbnailUnavailable(_) => "THUMBNAIL_UNAVAILABLE",
            AppError::Provider(_) => "PROVIDER",
            AppError::Platform(_) => "PLATFORM",
            AppError::Wallpaper(_) => "WALLPAPER",
            AppError::Monitor(_) => "MONITOR",
            AppError::Configuration(_) => "CONFIGURATION",
            AppError::Unknown(_) => "UNKNOWN",
        }
    }

    /// The detail text carried by this error.
    pub fn detail(&self) -> (d: &str)
        ensures
            d@ == spec_detail(*self),
    {
        match self {
            AppError::Network(m) => m.as_str(),
            AppError::Database(m) => m.as_str(),
            AppError::FileSystem(m) => m.as_str(),
            AppError::Image(m) => m.as_str(),
            AppError::ThumbnailUnavailable(m) => m.as_str(),
            AppError::Provider(m) => m.as_str(),
            AppError::Platform(m) => m.as_str(),
            AppError::Wallpaper(m) => m.as_str(),
            AppError::Monitor(m) => m.as_str(),
            AppError::Configuration(m) => m.as_str(),
            AppError::Unknown(m) => m.as_str(),
        }
    }

    /// The display text of this error: category prefix followed by its detail.
    pub fn message(&self) -> (m: String)
        ensures
            m@ == spec_message(*self),
    {
        let prefix = match self {
            AppError::Network(_) => "network error: ",
            AppError::Database(_) => "database error: ",
            AppError::FileSystem(_) => "file system error: ",
            AppError::Image(_) => "image error: ",
            AppError::ThumbnailUnavailable(_) => "thumbnail unavailable: ",
            AppError::Provider(_) => "provider error: ",
            AppError::Platform(_) => "platform error: ",
            AppError::Wallpaper(_) => "wallpaper error: ",
            AppError::Monitor(_) => "monitor error: ",
            AppError::Configuration(_) => "configuration error: ",
            AppError::Unknown(_) => "unknown error: ",
        };
        concat2(prefix, self.detail())
    }
}

} // verus!
