//! Display adaptation geometry, dimension limits and cache naming for images.
//!
//! Pixel work (decoding, resampling, JPEG encoding) happens outside the
//! library; everything that decides *what* is rendered is computed here.
use vstd::prelude::*;

use crate::error::{AppError, AppResult};
use crate::hashing::{sha256_hex, spec_hex, spec_sha256};
use crate::text::{concat2, decimal, push_char, push_decimal, spec_decimal, str_eq};

verus! {

pub const MAX_FILE_BYTES: u64 = 268435456;

pub const MAX_IMAGE_SIDE: u32 = 16384;

pub const MAX_IMAGE_PIXELS: u64 = 100000000;

/// Largest allocation a decoder may make (512 MiB).
pub const MAX_DECODE_ALLOC: u64 = 536870912;

pub const DEFAULT_THUMBNAIL_WIDTH: u32 = 480;

pub const DEFAULT_THUMBNAIL_HEIGHT: u32 = 270;

/// V1 display adaptation modes defined by the product requirements.
#[derive(Clone, Copy, Debug, PartialEq, Eq)]
pub enum FitMode {
    Fill,
    Fit,
    Center,
    Stretch,
}

/// The persisted name of each mode.
pub open spec fn spec_fit_mode_name(mode: FitMode) -> Seq<char> {
    match mode {
        FitMode::Fill => "fill"@,
        FitMode::Fit => "fit"@,
        FitMode::Center => "center"@,
        FitMode::Stretch => "stretch"@,
    }
}

/// The mode whose persisted name is `value`, if any.
pub open spec fn spec_fit_mode_from_name(value: Seq<char>) -> Option<FitMode> {
    if value == "fill"@ {
        Some(FitMode::Fill)
    } else if value == "fit"@ {
        Some(FitMode::Fit)
    } else if value == "center"@ {
        Some(FitMode::Center)
    } else if value == "stretch"@ {
        Some(FitMode::Stretch)
    } else {
        None
    }
}

impl FitMode {
    /// Stable cache slug prevents display labels from becoming filesystem contracts.
    fn slug(self) -> (s: &'static str)
        ensures
            s@ == spec_fit_mode_name(self),
    {
        match self {
            FitMode::Fill => "fill",
            FitMode::Fit => "fit",
            FitMode::Center => "center",
            FitMode::Stretch => "stretch",
        }
    }

    /// Returns the persisted V1 value used by scheduler configuration and cache keys.
    pub fn as_str(self) -> (s: &'static str)
        ensures
            s@ == spec_fit_mode_name(self),
    {
        self.slug()
    }

    /// Parses a persisted mode name; unknown names are configuration errors.
    pub fn from_name(value: &str) -> (r: AppResult<FitMode>)
        ensures
            match spec_fit_mode_from_name(value@) {
                Some(mode) => r == Ok::<FitMode, AppError>(mode),
                None => r matches Err(AppError::Configuration(m)) && m@
                    == "unsupported fit mode: "@ + value@,
            },
    {
        if crate::text::str_eq(value, "fill") {
            Ok(FitMode::Fill)
        } else if crate::text::str_eq(value, "fit") {
            Ok(FitMode::Fit)
        } else if crate::text::str_eq(value, "center") {
            Ok(FitMode::Center)
        } else if crate::text::str_eq(value, "stretch") {
            Ok(FitMode::Stretch)
        } else {
            Err(AppError::Configuration(concat2("unsupported fit mode: ", value)))
        }
    }
}

proof fn lemma_fit_mode_names_roundtrip(mode: FitMode)
    ensures
        spec_fit_mode_from_name(spec_fit_mode_name(mode)) == Some(mode),
{
    reveal_strlit("fill");
    reveal_strlit("fit");
    reveal_strlit("center");
    reveal_strlit("stretch");
    assert("fill"@.len() == 4);
    assert("fit"@.len() == 3);
    assert("center"@.len() == 6);
    assert("stretch"@.len() == 7);
}

/// Every mode's persisted name parses back to the same mode.
pub proof fn fit_mode_name_roundtrip(mode: FitMode)
    ensures
        spec_fit_mode_from_name(spec_fit_mode_name(mode)) == Some(mode),
{
    lemma_fit_mode_names_roundtrip(mode);
}

/// Metadata derived from decoded content rather than trusting a file extension.
#[derive(Clone, Debug)]
pub struct ImageMetadata {
    pub width: u32,
    pub height: u32,
    pub aspect_ratio: String,
    pub file_size: u64,
    pub mime_type: &'static str,
    pub format: &'static str,
    pub sha256: String,
}

/// Result returned by thumbnail and monitor adaptation operations.
#[derive(Clone, Debug)]
pub struct ProcessedImage {
    pub path: String,
    pub width: u32,
    pub height: u32,
    pub source_sha256: String,
    pub cache_hit: bool,
}

/// Pure geometry plan kept separate from pixel work.
#[derive(Clone, Copy, Debug, PartialEq, Eq)]
pub struct AdaptationPlan {
    pub resized_width: u32,
    pub resized_height: u32,
    pub crop_x: u32,
    pub crop_y: u32,
    pub crop_width: u32,
    pub crop_height: u32,
    pub destination_x: u32,
    pub destination_y: u32,
}

/// Owns the writable cache roots; all input images stay immutable.
#[derive(Clone, Debug)]
pub struct ImageProcessor {
    pub thumbnail_directory: String,
    pub processed_directory: String,
}

impl ImageProcessor {
    /// Creates the processor without touching disk.
    pub fn new(thumbnail_directory: String, processed_directory: String) -> (p: ImageProcessor)
        ensures
            p.thumbnail_directory@ == thumbnail_directory@,
            p.processed_directory@ == processed_directory@,
    {
        ImageProcessor { thumbnail_directory, processed_directory }
    }
}

// ---------------------------------------------------------------------------
// Dimension limits
// ---------------------------------------------------------------------------

/// Both sides positive, within the side limit, and within the pixel budget.
pub open spec fn within_image_limits(width: u32, height: u32) -> bool {
    &&& width > 0
    &&& height > 0
    &&& width <= MAX_IMAGE_SIDE
    &&& height <= MAX_IMAGE_SIDE
    &&& width * height <= MAX_IMAGE_PIXELS
}

/// `"{width}x{height}"`.
pub open spec fn spec_dimensions_text(width: nat, height: nat) -> Seq<char> {
    spec_decimal(width) + seq!['x'] + spec_decimal(height)
}

/// Formats `"{width}x{height}"`.
pub fn dimensions_text(width: u32, height: u32) -> (s: String)
    ensures
        s@ == spec_dimensions_text(width as nat, height as nat),
{
    let mut s = decimal(width as u64);
    push_char(&mut s, 'x');
    push_decimal(&mut s, height as u64);
    s
}

/// The product of two 32-bit values fits in 64 bits.
proof fn lemma_u32_product(a: u32, b: u32)
    ensures
        a as nat * b as nat <= u64::MAX,
{
    assert(a as nat * b as nat <= u64::MAX) by (nonlinear_arith)
        requires
            a <= u32::MAX,
            b <= u32::MAX,
    ;
}

fn within_limits(width: u32, height: u32) -> (b: bool)
    ensures
        b == within_image_limits(width, height),
{
    proof {
        lemma_u32_product(width, height);
    }
    !(width == 0 || height == 0 || width > MAX_IMAGE_SIDE || height > MAX_IMAGE_SIDE || (width as u64)
        * (height as u64) > MAX_IMAGE_PIXELS)
}

/// Enforces the decoded-source ceiling on sides and total pixels.
pub fn validate_source_dimensions(width: u32, height: u32) -> (r: AppResult<()>)
    ensures
        within_image_limits(width, height) ==> r is Ok,
        !within_image_limits(width, height) ==> (r matches Err(AppError::Image(m)) && m@
            == "image dimensions exceed the V1 safety limit: "@ + spec_dimensions_text(
            width as nat,
            height as nat,
        )),
{
    if !within_limits(width, height) {
        let text = dimensions_text(width, height);
        return Err(
            AppError::Image(concat2("image dimensions exceed the V1 safety limit: ", text.as_str())),
        );
    }
    Ok(())
}

/// Prevents invalid display sizes and oversized output allocations.
pub fn validate_output_dimensions(width: u32, height: u32) -> (r: AppResult<()>)
    ensures
        within_image_limits(width, height) ==> r is Ok,
        !within_image_limits(width, height) ==> (r matches Err(AppError::Image(m)) && m@
            == "invalid output dimensions: "@ + spec_dimensions_text(width as nat, height as nat)),
{
    if !within_limits(width, height) {
        let text = dimensions_text(width, height);
        return Err(AppError::Image(concat2("invalid output dimensions: ", text.as_str())));
    }
    Ok(())
}

// ---------------------------------------------------------------------------
// Aspect ratio labels
// ---------------------------------------------------------------------------

/// Euclid's greatest common divisor.
pub open spec fn spec_gcd(a: nat, b: nat) -> nat
    decreases b,
{
    if b == 0 {
        a
    } else {
        spec_gcd(b, a % b)
    }
}

/// The divisor used by ratio labels: the gcd, but at least one.
pub open spec fn ratio_divisor(width: nat, height: nat) -> nat {
    if spec_gcd(width, height) == 0 {
        1
    } else {
        spec_gcd(width, height)
    }
}

/// `"{width / d}:{height / d}"` for the reduced divisor `d`.
pub open spec fn spec_ratio_label(width: nat, height: nat) -> Seq<char> {
    let d = ratio_divisor(width, height);
    spec_decimal(width / d) + seq![':'] + spec_decimal(height / d)
}

/// Euclidean GCD, never returning zero.
pub fn greatest_common_divisor(left: u32, right: u32) -> (g: u32)
    ensures
        g as nat == ratio_divisor(left as nat, right as nat),
{
    let mut a = left;
    let mut b = right;
    while b != 0
        invariant
            spec_gcd(a as nat, b as nat) == spec_gcd(left as nat, right as nat),
        decreases b,
    {
        let r = a % b;
        a = b;
        b = r;
    }
    if a == 0 {
        1
    } else {
        a
    }
}

/// Reduced aspect ratio label, e.g. `16:9` for 1920x1080.
pub fn reduced_aspect_ratio(width: u32, height: u32) -> (s: String)
    ensures
        s@ == spec_ratio_label(width as nat, height as nat),
{
    let divisor = greatest_common_divisor(width, height);
    let mut s = decimal((width / divisor) as u64);
    push_char(&mut s, ':');
    push_decimal(&mut s, (height / divisor) as u64);
    s
}

// ---------------------------------------------------------------------------
// Adaptation geometry
// ---------------------------------------------------------------------------

/// Integer ceiling division.
pub open spec fn ceil_div(a: nat, b: nat) -> nat {
    if a % b == 0 {
        a / b
    } else {
        a / b + 1
    }
}

/// A computed dimension is never allowed to collapse to zero.
pub open spec fn at_least_one(x: nat) -> nat {
    if x == 0 {
        1
    } else {
        x
    }
}

/// Half of the amount by which `big` exceeds `small` (`big.saturating_sub(small) / 2`).
pub open spec fn half_excess(big: nat, small: nat) -> nat {
    if big >= small {
        ((big - small) as nat) / 2
    } else {
        0
    }
}

pub open spec fn spec_min(a: nat, b: nat) -> nat {
    if a <= b {
        a
    } else {
        b
    }
}

/// Whether the target is at least as wide, proportionally, as the source.
pub open spec fn target_is_wider(sw: nat, sh: nat, tw: nat, th: nat) -> bool {
    tw * sh >= sw * th
}

/// Scaled size for `Fill`: cover the target, rounding the free side up.
pub open spec fn fill_size(sw: nat, sh: nat, tw: nat, th: nat) -> (nat, nat) {
    if target_is_wider(sw, sh, tw, th) {
        (tw, at_least_one(ceil_div(sh * tw, sw)))
    } else {
        (at_least_one(ceil_div(sw * th, sh)), th)
    }
}

/// Scaled size for `Fit`: fit inside the target, rounding the free side down.
pub open spec fn fit_size(sw: nat, sh: nat, tw: nat, th: nat) -> (nat, nat) {
    if target_is_wider(sw, sh, tw, th) {
        (at_least_one((sw * th) / sh), th)
    } else {
        (tw, at_least_one((sh * tw) / sw))
    }
}

/// The complete plan for given source and target sizes and mode.
pub open spec fn spec_plan(sw: nat, sh: nat, tw: nat, th: nat, mode: FitMode) -> AdaptationPlan {
    match mode {
        FitMode::Fill => {
            let (rw, rh) = fill_size(sw, sh, tw, th);
            AdaptationPlan {
                resized_width: rw as u32,
                resized_height: rh as u32,
                crop_x: half_excess(rw, tw) as u32,
                crop_y: half_excess(rh, th) as u32,
                crop_width: tw as u32,
                crop_height: th as u32,
                destination_x: 0,
                destination_y: 0,
            }
        },
        FitMode::Fit => {
            let (rw, rh) = fit_size(sw, sh, tw, th);
            AdaptationPlan {
                resized_width: rw as u32,
                resized_height: rh as u32,
                crop_x: 0,
                crop_y: 0,
                crop_width: rw as u32,
                crop_height: rh as u32,
                destination_x: half_excess(tw, rw) as u32,
                destination_y: half_excess(th, rh) as u32,
            }
        },
        FitMode::Center => {
            let vw = spec_min(sw, tw);
            let vh = spec_min(sh, th);
            AdaptationPlan {
                resized_width: sw as u32,
                resized_height: sh as u32,
                crop_x: half_excess(sw, vw) as u32,
                crop_y: half_excess(sh, vh) as u32,
                crop_width: vw as u32,
                crop_height: vh as u32,
                destination_x: half_excess(tw, vw) as u32,
                destination_y: half_excess(th, vh) as u32,
            }
        },
        FitMode::Stretch => AdaptationPlan {
            resized_width: tw as u32,
            resized_height: th as u32,
            crop_x: 0,
            crop_y: 0,
            crop_width: tw as u32,
            crop_height: th as u32,
            destination_x: 0,
            destination_y: 0,
        },
    }
}

/// Error reported when a scaled dimension would not fit in 32 bits.
pub open spec fn overflow_error(e: AppError) -> bool {
    e matches AppError::Image(m) && m@ == "calculated image dimension overflowed"@
}

/// `max(1, ceil(value * multiplier / divisor))`, or an error when it exceeds `u32`.
pub fn mul_div_ceil(value: u32, multiplier: u32, divisor: u32) -> (r: AppResult<u32>)
    requires
        divisor > 0,
    ensures
        at_least_one(ceil_div(value as nat * multiplier as nat, divisor as nat)) <= u32::MAX
            ==> r == Ok::<u32, AppError>(
            at_least_one(ceil_div(value as nat * multiplier as nat, divisor as nat)) as u32,
        ),
        at_least_one(ceil_div(value as nat * multiplier as nat, divisor as nat)) > u32::MAX
            ==> (r matches Err(e) && overflow_error(e)),
{
    proof {
        lemma_u32_product(value, multiplier);
    }
    let numerator: u64 = (value as u64) * (multiplier as u64);
    let d: u64 = divisor as u64;
    let mut result: u64 = numerator / d;
    if numerator % d != 0 {
        assert(result < u64::MAX) by (nonlinear_arith)
            requires
                result == numerator / d,
                d > 0,
                numerator <= u64::MAX,
                numerator % d != 0,
        ;
        result = result + 1;
    }
    if result == 0 {
        result = 1;
    }
    if result > u32::MAX as u64 {
        return Err(AppError::Image("calculated image dimension overflowed".to_string()));
    }
    Ok(result as u32)
}

/// `max(1, floor(value * multiplier / divisor))`, or an error when it exceeds `u32`.
pub fn mul_div_floor(value: u32, multiplier: u32, divisor: u32) -> (r: AppResult<u32>)
    requires
        divisor > 0,
    ensures
        at_least_one((value as nat * multiplier as nat) / divisor as nat) <= u32::MAX ==> r
            == Ok::<u32, AppError>(
            at_least_one((value as nat * multiplier as nat) / divisor as nat) as u32,
        ),
        at_least_one((value as nat * multiplier as nat) / divisor as nat) > u32::MAX ==> (r matches Err(
            e,
        ) && overflow_error(e)),
{
    proof {
        lemma_u32_product(value, multiplier);
    }
    let numerator: u64 = (value as u64) * (multiplier as u64);
    let mut result: u64 = numerator / (divisor as u64);
    if result == 0 {
        result = 1;
    }
    if result > u32::MAX as u64 {
        return Err(AppError::Image("calculated image dimension overflowed".to_string()));
    }
    Ok(result as u32)
}

proof fn lemma_ceil_bounds(a: nat, b: nat, c: nat)
    requires
        b > 0,
    ensures
        a >= b * c ==> ceil_div(a, b) >= c,
        ceil_div(a, b) <= a || a == 0,
        a <= b * c ==> ceil_div(a, b) <= c,
{
    assert(a >= b * c ==> a / b >= c) by (nonlinear_arith)
        requires
            b > 0,
    ;
    assert(a / b <= a) by (nonlinear_arith)
        requires
            b > 0,
    ;
    assert(a > 0 && a % b != 0 ==> a / b < a) by (nonlinear_arith)
        requires
            b > 0,
    ;
    assert(a <= b * c ==> a / b <= c) by (nonlinear_arith)
        requires
            b > 0,
    ;
    assert(a <= b * c && a / b == c ==> a % b == 0) by (nonlinear_arith)
        requires
            b > 0,
    ;
}

proof fn lemma_floor_bounds(a: nat, b: nat, c: nat)
    requires
        b > 0,
    ensures
        a <= b * c ==> a / b <= c,
        a / b <= a,
{
    assert(a <= b * c ==> a / b <= c) by (nonlinear_arith)
        requires
            b > 0,
    ;
    assert(a / b <= a) by (nonlinear_arith)
        requires
            b > 0,
    ;
}

/// Facts about the sizes that every valid plan uses.
proof fn lemma_plan_sizes(sw: nat, sh: nat, tw: nat, th: nat)
    requires
        0 < sw <= 16384,
        0 < sh <= 16384,
        0 < tw <= 16384,
        0 < th <= 16384,
    ensures
        fill_size(sw, sh, tw, th).0 >= tw,
        fill_size(sw, sh, tw, th).1 >= th,
        fill_size(sw, sh, tw, th).0 <= 268435456,
        fill_size(sw, sh, tw, th).1 <= 268435456,
        1 <= fit_size(sw, sh, tw, th).0 <= tw,
        1 <= fit_size(sw, sh, tw, th).1 <= th,
{
    assert(sh * tw <= 268435456) by (nonlinear_arith)
        requires
            sh <= 16384,
            tw <= 16384,
    ;
    assert(sw * th <= 268435456) by (nonlinear_arith)
        requires
            sw <= 16384,
            th <= 16384,
    ;
    assert(sh * tw > 0) by (nonlinear_arith)
        requires
            sh > 0,
            tw > 0,
    ;
    assert(sw * th > 0) by (nonlinear_arith)
        requires
            sw > 0,
            th > 0,
    ;
    lemma_ceil_bounds(sh * tw, sw, th);
    lemma_ceil_bounds(sw * th, sh, tw);
    lemma_floor_bounds(sw * th, sh, tw);
    lemma_floor_bounds(sh * tw, sw, th);
    assert(sh * tw == tw * sh) by (nonlinear_arith);
    assert(sw * th == th * sw) by (nonlinear_arith);
    assert(sw * th == sh * tw || sw * th != sh * tw);
}

/// Calculates all scaling, crop and placement geometry without decoding pixels.
pub fn calculate_adaptation_plan(
    source_width: u32,
    source_height: u32,
    target_width: u32,
    target_height: u32,
    mode: FitMode,
) -> (r: AppResult<AdaptationPlan>)
    ensures
        !within_image_limits(source_width, source_height) ==> (r matches Err(AppError::Image(m))
            && m@ == "image dimensions exceed the V1 safety limit: "@ + spec_dimensions_text(
            source_width as nat,
            source_height as nat,
        )),
        within_image_limits(source_width, source_height) && !within_image_limits(
            target_width,
            target_height,
        ) ==> (r matches Err(AppError::Image(m)) && m@ == "invalid output dimensions: "@
            + spec_dimensions_text(target_width as nat, target_height as nat)),
        within_image_limits(source_width, source_height) && within_image_limits(
            target_width,
            target_height,
        ) ==> r == Ok::<AdaptationPlan, AppError>(
            spec_plan(
                source_width as nat,
                source_height as nat,
                target_width as nat,
                target_height as nat,
                mode,
            ),
        ),
{
    validate_source_dimensions(source_width, source_height)?;
    validate_output_dimensions(target_width, target_height)?;
    let sw = source_width;
    let sh = source_height;
    let tw = target_width;
    let th = target_height;
    proof {
        lemma_plan_sizes(sw as nat, sh as nat, tw as nat, th as nat);
    }
    proof {
        lemma_u32_product(sw, th);
        lemma_u32_product(tw, sh);
    }
    let source_ratio_cross: u64 = (sw as u64) * (th as u64);
    let target_ratio_cross: u64 = (tw as u64) * (sh as u64);
    let ghost wider = target_is_wider(sw as nat, sh as nat, tw as nat, th as nat);
    assert(wider == (target_ratio_cross >= source_ratio_cross));
    let plan = match mode {
        FitMode::Fill => {
            let (resized_width, resized_height) = if target_ratio_cross >= source_ratio_cross {
                (tw, mul_div_ceil(sh, tw, sw)?)
            } else {
                (mul_div_ceil(sw, th, sh)?, th)
            };
            AdaptationPlan {
                resized_width,
                resized_height,
                crop_x: resized_width.saturating_sub(tw) / 2,
                crop_y: resized_height.saturating_sub(th) / 2,
                crop_width: tw,
                crop_height: th,
                destination_x: 0,
                destination_y: 0,
            }
        },
        FitMode::Fit => {
            let (resized_width, resized_height) = if target_ratio_cross >= source_ratio_cross {
                (mul_div_floor(sw, th, sh)?, th)
            } else {
                (tw, mul_div_floor(sh, tw, sw)?)
            };
            AdaptationPlan {
                resized_width,
                resized_height,
                crop_x: 0,
                crop_y: 0,
                crop_width: resized_width,
                crop_height: resized_height,
                destination_x: tw.saturating_sub(resized_width) / 2,
                destination_y: th.saturating_sub(resized_height) / 2,
            }
        },
        FitMode::Center => {
            let visible_width = if sw <= tw {
                sw
            } else {
                tw
            };
            let visible_height = if sh <= th {
                sh
            } else {
                th
            };
            AdaptationPlan {
                resized_width: sw,
                resized_height: sh,
                crop_x: sw.saturating_sub(visible_width) / 2,
                crop_y: sh.saturating_sub(visible_height) / 2,
                crop_width: visible_width,
                crop_height: visible_height,
                destination_x: tw.saturating_sub(visible_width) / 2,
                destination_y: th.saturating_sub(visible_height) / 2,
            }
        },
        FitMode::Stretch => AdaptationPlan {
            resized_width: tw,
            resized_height: th,
            crop_x: 0,
            crop_y: 0,
            crop_width: tw,
            crop_height: th,
            destination_x: 0,
            destination_y: 0,
        },
    };
    Ok(plan)
}

/// Every plan for valid sizes crops a non-empty region that lies inside the
/// resized image and places it entirely inside the target canvas.
pub proof fn plan_stays_within_canvas(
    source_width: u32,
    source_height: u32,
    target_width: u32,
    target_height: u32,
    mode: FitMode,
)
    requires
        within_image_limits(source_width, source_height),
        within_image_limits(target_width, target_height),
    ensures
        ({
            let p = spec_plan(
                source_width as nat,
                source_height as nat,
                target_width as nat,
                target_height as nat,
                mode,
            );
            &&& p.crop_width > 0
            &&& p.crop_height > 0
            &&& p.crop_x + p.crop_width <= p.resized_width
            &&& p.crop_y + p.crop_height <= p.resized_height
            &&& p.destination_x + p.crop_width <= target_width
            &&& p.destination_y + p.crop_height <= target_height
        }),
{
    lemma_plan_sizes(
        source_width as nat,
        source_height as nat,
        target_width as nat,
        target_height as nat,
    );
}

/// `Fill` always covers the whole canvas, `Stretch` resizes exactly to it,
/// `Fit` shows the whole source inside it, and `Center` never rescales.
pub proof fn plan_mode_guarantees(
    source_width: u32,
    source_height: u32,
    target_width: u32,
    target_height: u32,
)
    requires
        within_image_limits(source_width, source_height),
        within_image_limits(target_width, target_height),
    ensures
        ({
            let sw = source_width as nat;
            let sh = source_height as nat;
            let tw = target_width as nat;
            let th = target_height as nat;
            let fill = spec_plan(sw, sh, tw, th, FitMode::Fill);
            let fit = spec_plan(sw, sh, tw, th, FitMode::Fit);
            let center = spec_plan(sw, sh, tw, th, FitMode::Center);
            let stretch = spec_plan(sw, sh, tw, th, FitMode::Stretch);
            &&& fill.crop_width == target_width && fill.crop_height == target_height
            &&& fill.destination_x == 0 && fill.destination_y == 0
            &&& fill.resized_width >= target_width && fill.resized_height >= target_height
            &&& (fill.resized_width == target_width || fill.resized_height == target_height)
            &&& fit.resized_width <= target_width && fit.resized_height <= target_height
            &&& (fit.resized_width == target_width || fit.resized_height == target_height)
            &&& fit.crop_x == 0 && fit.crop_y == 0
            &&& fit.crop_width == fit.resized_width && fit.crop_height == fit.resized_height
            &&& center.resized_width == source_width && center.resized_height == source_height
            &&& stretch.resized_width == target_width && stretch.resized_height == target_height
            &&& stretch.crop_width == target_width && stretch.crop_height == target_height
        }),
{
    lemma_plan_sizes(
        source_width as nat,
        source_height as nat,
        target_width as nat,
        target_height as nat,
    );
}

/// The gcd divides both of its arguments.
proof fn lemma_gcd_divides(a: nat, b: nat)
    ensures
        spec_gcd(a, b) > 0 ==> a % spec_gcd(a, b) == 0 && b % spec_gcd(a, b) == 0,
    decreases b,
{
    if b > 0 {
        let r = a % b;
        lemma_gcd_divides(b, r);
        let g = spec_gcd(b, r);
        if g > 0 {
            let q = a / b;
            vstd::arithmetic::div_mod::lemma_fundamental_div_mod(a as int, b as int);
            vstd::arithmetic::div_mod::lemma_fundamental_div_mod(b as int, g as int);
            vstd::arithmetic::div_mod::lemma_fundamental_div_mod(r as int, g as int);
            let k1 = b / g;
            let k2 = r / g;
            assert(a == g * (k1 * q + k2)) by (nonlinear_arith)
                requires
                    a == b * q + r,
                    b == g * k1 + 0,
                    r == g * k2 + 0,
            ;
            vstd::arithmetic::div_mod::lemma_mod_multiples_basic((k1 * q + k2) as int, g as int);
            assert((k1 * q + k2) * g == g * (k1 * q + k2)) by (nonlinear_arith);
        }
    } else {
        if a > 0 {
            vstd::arithmetic::div_mod::lemma_mod_multiples_basic(1, a as int);
        }
    }
}

/// A ratio label describes the same proportion as the dimensions it was made from:
/// `(width / d) * height == (height / d) * width`.
pub proof fn ratio_label_is_proportional(width: nat, height: nat)
    ensures
        (width / ratio_divisor(width, height)) * height == (height / ratio_divisor(width, height))
            * width,
{
    let d = ratio_divisor(width, height);
    lemma_gcd_divides(width, height);
    if spec_gcd(width, height) > 0 {
        vstd::arithmetic::div_mod::lemma_fundamental_div_mod(width as int, d as int);
        vstd::arithmetic::div_mod::lemma_fundamental_div_mod(height as int, d as int);
        let x = width / d;
        let y = height / d;
        assert(x * height == y * width) by (nonlinear_arith)
            requires
                width == d * x + 0,
                height == d * y + 0,
        ;
    } else {
        assert(width == 0 && height == 0) by {
            lemma_gcd_zero(width, height);
        }
    }
}

proof fn lemma_gcd_zero(a: nat, b: nat)
    ensures
        spec_gcd(a, b) == 0 ==> a == 0 && b == 0,
    decreases b,
{
    if b > 0 {
        lemma_gcd_zero(b, a % b);
    }
}

// ---------------------------------------------------------------------------
// Content inspection
// ---------------------------------------------------------------------------

/// What `image::guess_format` reports for `data`: the `Debug` name of the format
/// detected from the leading magic bytes, or the text of its error when no known
/// signature matches.
pub uninterp spec fn spec_guessed_format(data: Seq<u8>) -> Result<Seq<char>, Seq<char>>;

/// Wraps `image::guess_format`; returns the detected format's variant name, or the
/// error's display text.
#[verifier::external_body]
pub(crate) fn guess_image_format(data: &[u8]) -> (r: Result<String, String>)
    ensures
        match r {
            Ok(name) => spec_guessed_format(data@) == Ok::<Seq<char>, Seq<char>>(name@),
            Err(text) => spec_guessed_format(data@) == Err::<Seq<char>, Seq<char>>(text@),
        },
{
    match image::guess_format(data) {
        Ok(format) => Ok(format!("{format:?}")),
        Err(error) => Err(error.to_string()),
    }
}

/// What decoding `data` yields (format guessed from content; image width and
/// height limited to `max_side`, decoder allocation to `max_alloc` bytes): the
/// pixel dimensions, or the decoder's error text.
pub uninterp spec fn spec_decoded_dimensions(data: Seq<u8>, max_side: u32, max_alloc: u64) -> Result<
    (u32, u32),
    Seq<char>,
>;

/// Wraps `image::ImageReader::decode` with `image::Limits` set from `max_side`
/// and `max_alloc`, and returns the decoded dimensions or the error's text.
#[verifier::external_body]
fn decode_dimensions(data: &[u8], max_side: u32, max_alloc: u64) -> (r: Result<(u32, u32), String>)
    ensures
        match r {
            Ok(d) => spec_decoded_dimensions(data@, max_side, max_alloc) == Ok::<
                (u32, u32),
                Seq<char>,
            >(d),
            Err(m) => spec_decoded_dimensions(data@, max_side, max_alloc) == Err::<
                (u32, u32),
                Seq<char>,
            >(m@),
        },
{
    let mut limits = image::Limits::default();
    limits.max_image_width = Some(max_side);
    limits.max_image_height = Some(max_side);
    limits.max_alloc = Some(max_alloc);
    let mut reader = image::ImageReader::new(std::io::Cursor::new(data))
        .with_guessed_format()
        .map_err(|error| error.to_string())?;
    reader.limits(limits);
    let decoded = reader.decode().map_err(|error| error.to_string())?;
    Ok((decoded.width(), decoded.height()))
}

/// The (format, MIME type) pair for the formats that V1 accepts.
pub open spec fn spec_supported_format(name: Seq<char>) -> Option<(Seq<char>, Seq<char>)> {
    if name == "Jpeg"@ {
        Some(("jpeg"@, "image/jpeg"@))
    } else if name == "Png"@ {
        Some(("png"@, "image/png"@))
    } else if name == "WebP"@ {
        Some(("webp"@, "image/webp"@))
    } else if name == "Bmp"@ {
        Some(("bmp"@, "image/bmp"@))
    } else {
        None
    }
}

/// Restricts decoders to V1 formats.
pub fn supported_format(name: &str) -> (r: AppResult<(&'static str, &'static str)>)
    ensures
        match spec_supported_format(name@) {
            Some(pair) => r matches Ok(p) && p.0@ == pair.0 && p.1@ == pair.1,
            None => r matches Err(AppError::Image(m)) && m@ == "unsupported V1 image format: "@
                + name@,
        },
{
    if str_eq(name, "Jpeg") {
        Ok(("jpeg", "image/jpeg"))
    } else if str_eq(name, "Png") {
        Ok(("png", "image/png"))
    } else if str_eq(name, "WebP") {
        Ok(("webp", "image/webp"))
    } else if str_eq(name, "Bmp") {
        Ok(("bmp", "image/bmp"))
    } else {
        Err(AppError::Image(concat2("unsupported V1 image format: ", name)))
    }
}

/// What decoding `data` under the library's safety limits yields.
pub open spec fn decoded(data: Seq<u8>) -> Result<(u32, u32), Seq<char>> {
    spec_decoded_dimensions(data, MAX_IMAGE_SIDE, MAX_DECODE_ALLOC)
}

/// The outcome of inspecting an image file's bytes.
pub open spec fn inspection_error(data: Seq<u8>) -> Option<Seq<char>> {
    if data.len() == 0 || data.len() > MAX_FILE_BYTES {
        Some("image file size must be between 1 byte and 268435456 bytes"@)
    } else if spec_guessed_format(data) is Err {
        Some("unable to identify image format"@)
    } else if spec_supported_format(spec_guessed_format(data)->Ok_0) is None {
        Some("unsupported V1 image format: "@ + spec_guessed_format(data)->Ok_0)
    } else if decoded(data) is Err {
        Some(decoded(data)->Err_0)
    } else if !within_image_limits(
        decoded(data)->Ok_0.0,
        decoded(data)->Ok_0.1,
    ) {
        Some(
            "image dimensions exceed the V1 safety limit: "@ + spec_dimensions_text(
                decoded(data)->Ok_0.0 as nat,
                decoded(data)->Ok_0.1 as nat,
            ),
        )
    } else {
        None
    }
}

/// `meta` is the metadata of an accepted image file with content `data`.
pub open spec fn metadata_of(data: Seq<u8>, meta: ImageMetadata) -> bool {
    let (w, h) = decoded(data)->Ok_0;
    let pair = spec_supported_format(spec_guessed_format(data)->Ok_0)->0;
    &&& meta.width == w
    &&& meta.height == h
    &&& meta.aspect_ratio@ == spec_ratio_label(w as nat, h as nat)
    &&& meta.file_size == data.len()
    &&& meta.format@ == pair.0
    &&& meta.mime_type@ == pair.1
    &&& meta.sha256@ == spec_hex(spec_sha256(data))
}

/// Decodes an image file's bytes under the safety limits and returns
/// content-derived metadata; every rejection is an `Image` error.
pub fn inspect_image(data: &[u8]) -> (r: AppResult<ImageMetadata>)
    ensures
        match inspection_error(data@) {
            Some(message) => r matches Err(AppError::Image(m)) && m@ == message,
            None => r matches Ok(meta) && metadata_of(data@, meta),
        },
{
    let length = data.len();
    if length == 0 || length as u64 > MAX_FILE_BYTES {
        return Err(
            AppError::Image(
                "image file size must be between 1 byte and 268435456 bytes".to_string(),
            ),
        );
    }
    let name = match guess_image_format(data) {
        Ok(name) => name,
        Err(_) => {
            return Err(AppError::Image("unable to identify image format".to_string()));
        },
    };
    let (format_name, mime_type) = supported_format(name.as_str())?;
    let (width, height) = match decode_dimensions(data, MAX_IMAGE_SIDE, MAX_DECODE_ALLOC) {
        Ok(dimensions) => dimensions,
        Err(message) => {
            return Err(AppError::Image(message));
        },
    };
    validate_source_dimensions(width, height)?;
    let sha256 = sha256_hex(data);
    Ok(
        ImageMetadata {
            width,
            height,
            aspect_ratio: reduced_aspect_ratio(width, height),
            file_size: length as u64,
            mime_type,
            format: format_name,
            sha256,
        },
    )
}

impl ImageProcessor {
    /// Inspects an image file's bytes through the shared safety policy.
    pub fn inspect(&self, data: &[u8]) -> (r: AppResult<ImageMetadata>)
        ensures
            match inspection_error(data@) {
                Some(message) => r matches Err(AppError::Image(m)) && m@ == message,
                None => r matches Ok(meta) && metadata_of(data@, meta),
            },
    {
        inspect_image(data)
    }
}

// ---------------------------------------------------------------------------
// Cache naming
// ---------------------------------------------------------------------------

/// The thumbnail bounds used when a caller gives none, validated as output sizes.
pub fn thumbnail_bounds(max_width: Option<u32>, max_height: Option<u32>) -> (r: AppResult<
    (u32, u32),
>)
    ensures
        ({
            let w = match max_width {
                Some(v) => v,
                None => DEFAULT_THUMBNAIL_WIDTH,
            };
            let h = match max_height {
                Some(v) => v,
                None => DEFAULT_THUMBNAIL_HEIGHT,
            };
            &&& within_image_limits(w, h) ==> r == Ok::<(u32, u32), AppError>((w, h))
            &&& !within_image_limits(w, h) ==> (r matches Err(AppError::Image(m)) && m@
                == "invalid output dimensions: "@ + spec_dimensions_text(w as nat, h as nat))
        }),
{
    let width = match max_width {
        Some(v) => v,
        None => DEFAULT_THUMBNAIL_WIDTH,
    };
    let height = match max_height {
        Some(v) => v,
        None => DEFAULT_THUMBNAIL_HEIGHT,
    };
    validate_output_dimensions(width, height)?;
    Ok((width, height))
}

/// `generated-{sha256}-{width}x{height}.jpg`.
pub open spec fn spec_thumbnail_file_name(sha256: Seq<char>, width: nat, height: nat) -> Seq<char> {
    "generated-"@ + sha256 + seq!['-'] + spec_dimensions_text(width, height) + ".jpg"@
}

/// `{sha256}-{width}x{height}-{mode}.jpg`.
pub open spec fn spec_processed_file_name(
    sha256: Seq<char>,
    width: nat,
    height: nat,
    mode: FitMode,
) -> Seq<char> {
    sha256 + seq!['-'] + spec_dimensions_text(width, height) + seq!['-'] + spec_fit_mode_name(mode)
        + ".jpg"@
}

/// Cache file name for a thumbnail of given bounds, keyed by source content hash.
pub fn thumbnail_file_name(sha256: &str, width: u32, height: u32) -> (s: String)
    ensures
        s@ == spec_thumbnail_file_name(sha256@, width as nat, height as nat),
{
    let mut s = concat2("generated-", sha256);
    push_char(&mut s, '-');
    let dims = dimensions_text(width, height);
    s.append(dims.as_str());
    s.append(".jpg");
    s
}

/// Cache file name for a display-adapted rendering, keyed by source content hash.
pub fn processed_file_name(sha256: &str, width: u32, height: u32, mode: FitMode) -> (s: String)
    ensures
        s@ == spec_processed_file_name(sha256@, width as nat, height as nat, mode),
{
    let mut s = String::from_str(sha256);
    push_char(&mut s, '-');
    let dims = dimensions_text(width, height);
    s.append(dims.as_str());
    push_char(&mut s, '-');
    s.append(mode.slug());
    s.append(".jpg");
    s
}

} // verus!
