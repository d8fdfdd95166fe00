//! Virtual-desktop layout for spanning one image across several monitors.
use vstd::prelude::*;

use crate::error::{AppError, AppResult};
use crate::hashing::{hex_lower, sha256_digest, spec_hex, spec_sha256};
use crate::models::MonitorInfo;
use crate::text::{chars_of, concat3, text_lt, text_precedes};

pub mod service;

verus! {

/// Geometry needed to render one monitor from a shared virtual desktop canvas.
#[derive(Clone, Debug)]
pub struct MonitorSlice {
    pub system_monitor_id: String,
    pub canvas_x: u32,
    pub canvas_y: u32,
    pub width: u32,
    pub height: u32,
}

/// Normalized virtual-desktop bounds and deterministic per-monitor slices.
#[derive(Clone, Debug)]
pub struct MonitorLayout {
    pub layout_hash: String,
    pub origin_x: i32,
    pub origin_y: i32,
    pub width: u32,
    pub height: u32,
    pub slices: Vec<MonitorSlice>,
}

/// Native assignment captured before spanning mode, used for explicit rollback.
#[derive(Clone, Debug)]
pub struct PreviousWallpaper {
    pub system_monitor_id: String,
    pub path: String,
}

// ---------------------------------------------------------------------------
// Bounds of the virtual desktop
// ---------------------------------------------------------------------------

pub open spec fn left_edge(m: MonitorInfo) -> int {
    m.position_x as int
}

pub open spec fn top_edge(m: MonitorInfo) -> int {
    m.position_y as int
}

pub open spec fn right_edge(m: MonitorInfo) -> int {
    m.position_x as int + m.width as int
}

pub open spec fn bottom_edge(m: MonitorInfo) -> int {
    m.position_y as int + m.height as int
}

/// Smallest left edge over a non-empty list of monitors.
pub open spec fn min_left(ms: Seq<MonitorInfo>) -> int
    decreases ms.len(),
{
    if ms.len() <= 1 {
        left_edge(ms[0])
    } else {
        let rest = min_left(ms.drop_last());
        if left_edge(ms.last()) < rest {
            left_edge(ms.last())
        } else {
            rest
        }
    }
}

/// Smallest top edge over a non-empty list of monitors.
pub open spec fn min_top(ms: Seq<MonitorInfo>) -> int
    decreases ms.len(),
{
    if ms.len() <= 1 {
        top_edge(ms[0])
    } else {
        let rest = min_top(ms.drop_last());
        if top_edge(ms.last()) < rest {
            top_edge(ms.last())
        } else {
            rest
        }
    }
}

/// Largest right edge over a non-empty list of monitors.
pub open spec fn max_right(ms: Seq<MonitorInfo>) -> int
    decreases ms.len(),
{
    if ms.len() <= 1 {
        right_edge(ms[0])
    } else {
        let rest = max_right(ms.drop_last());
        if right_edge(ms.last()) > rest {
            right_edge(ms.last())
        } else {
            rest
        }
    }
}

/// Largest bottom edge over a non-empty list of monitors.
pub open spec fn max_bottom(ms: Seq<MonitorInfo>) -> int
    decreases ms.len(),
{
    if ms.len() <= 1 {
        bottom_edge(ms[0])
    } else {
        let rest = max_bottom(ms.drop_last());
        if bottom_edge(ms.last()) > rest {
            bottom_edge(ms.last())
        } else {
            rest
        }
    }
}

proof fn lemma_bounds(ms: Seq<MonitorInfo>)
    requires
        ms.len() > 0,
    ensures
        forall|i: int|
            0 <= i < ms.len() ==> min_left(ms) <= left_edge(#[trigger] ms[i]) && right_edge(ms[i])
                <= max_right(ms) && min_top(ms) <= top_edge(ms[i]) && bottom_edge(ms[i])
                <= max_bottom(ms),
        exists|i: int| 0 <= i < ms.len() && min_left(ms) == left_edge(#[trigger] ms[i]),
        exists|i: int| 0 <= i < ms.len() && min_top(ms) == top_edge(#[trigger] ms[i]),
        exists|i: int| 0 <= i < ms.len() && max_right(ms) == right_edge(#[trigger] ms[i]),
        exists|i: int| 0 <= i < ms.len() && max_bottom(ms) == bottom_edge(#[trigger] ms[i]),
        min_left(ms) <= max_right(ms),
        min_top(ms) <= max_bottom(ms),
    decreases ms.len(),
{
    if ms.len() > 1 {
        lemma_bounds(ms.drop_last());
        assert forall|i: int| 0 <= i < ms.len() implies min_left(ms) <= left_edge(
            #[trigger] ms[i],
        ) && right_edge(ms[i]) <= max_right(ms) && min_top(ms) <= top_edge(ms[i])
            && bottom_edge(ms[i]) <= max_bottom(ms) by {
            if i < ms.len() - 1 {
                assert(ms[i] == ms.drop_last()[i]);
            }
        }
        let rest = ms.drop_last();
        if left_edge(ms.last()) < min_left(rest) {
            assert(min_left(ms) == left_edge(ms[ms.len() - 1]));
        } else {
            let k = choose|k: int| 0 <= k < rest.len() && min_left(rest) == left_edge(rest[k]);
            assert(min_left(ms) == left_edge(ms[k]));
        }
        if top_edge(ms.last()) < min_top(rest) {
            assert(min_top(ms) == top_edge(ms[ms.len() - 1]));
        } else {
            let k = choose|k: int| 0 <= k < rest.len() && min_top(rest) == top_edge(rest[k]);
            assert(min_top(ms) == top_edge(ms[k]));
        }
        if right_edge(ms.last()) > max_right(rest) {
            assert(max_right(ms) == right_edge(ms[ms.len() - 1]));
        } else {
            let k = choose|k: int| 0 <= k < rest.len() && max_right(rest) == right_edge(rest[k]);
            assert(max_right(ms) == right_edge(ms[k]));
        }
        if bottom_edge(ms.last()) > max_bottom(rest) {
            assert(max_bottom(ms) == bottom_edge(ms[ms.len() - 1]));
        } else {
            let k = choose|k: int| 0 <= k < rest.len() && max_bottom(rest) == bottom_edge(rest[k]);
            assert(max_bottom(ms) == bottom_edge(ms[k]));
        }
        assert(left_edge(ms[0]) <= right_edge(ms[0]));
    } else {
        assert(min_left(ms) == left_edge(ms[0]));
        assert(min_top(ms) == top_edge(ms[0]));
        assert(max_right(ms) == right_edge(ms[0]));
        assert(max_bottom(ms) == bottom_edge(ms[0]));
    }
}

// ---------------------------------------------------------------------------
// Slices and their canonical order
// ---------------------------------------------------------------------------

/// The slice that a monitor occupies on the canvas whose origin is `(min_x, min_y)`.
pub open spec fn slice_of(m: MonitorInfo, min_x: int, min_y: int) -> MonitorSlice {
    MonitorSlice {
        system_monitor_id: m.system_monitor_id,
        canvas_x: (left_edge(m) - min_x) as u32,
        canvas_y: (top_edge(m) - min_y) as u32,
        width: m.width,
        height: m.height,
    }
}

/// `a` strictly precedes `b` in (canvas_y, canvas_x, monitor id) order.
pub open spec fn slice_before(a: MonitorSlice, b: MonitorSlice) -> bool {
    ||| a.canvas_y < b.canvas_y
    ||| (a.canvas_y == b.canvas_y && a.canvas_x < b.canvas_x)
    ||| (a.canvas_y == b.canvas_y && a.canvas_x == b.canvas_x && text_lt(
        a.system_monitor_id@,
        b.system_monitor_id@,
    ))
}

/// Stable insertion of `x` into a sorted sequence: after every element that does
/// not strictly follow it.
pub open spec fn insert_sorted(s: Seq<MonitorSlice>, x: MonitorSlice) -> Seq<MonitorSlice>
    decreases s.len(),
{
    if s.len() == 0 {
        seq![x]
    } else if slice_before(x, s.last()) {
        insert_sorted(s.drop_last(), x).push(s.last())
    } else {
        s.push(x)
    }
}

/// Stable sort by (canvas_y, canvas_x, monitor id).
pub open spec fn sort_slices(s: Seq<MonitorSlice>) -> Seq<MonitorSlice>
    decreases s.len(),
{
    if s.len() == 0 {
        Seq::empty()
    } else {
        insert_sorted(sort_slices(s.drop_last()), s.last())
    }
}

/// The slices of all monitors, in the order the platform reported them.
pub open spec fn raw_slices(ms: Seq<MonitorInfo>, min_x: int, min_y: int) -> Seq<MonitorSlice> {
    ms.map_values(|m: MonitorInfo| slice_of(m, min_x, min_y))
}

// ---------------------------------------------------------------------------
// Snapshot identifier
// ---------------------------------------------------------------------------

/// The `n` least significant bytes of `v`, least significant first.
pub open spec fn le_bytes(v: nat, n: nat) -> Seq<u8>
    decreases n,
{
    if n == 0 {
        Seq::empty()
    } else {
        seq![(v % 256) as u8] + le_bytes(v / 256, (n - 1) as nat)
    }
}

/// Bytes hashed for the slices: identifier (UTF-8) and four little-endian `u32` values each.
pub open spec fn slice_bytes(slices: Seq<MonitorSlice>) -> Seq<u8>
    decreases slices.len(),
{
    if slices.len() == 0 {
        Seq::empty()
    } else {
        let s = slices.last();
        slice_bytes(slices.drop_last()) + vstd::utf8::encode_utf8(s.system_monitor_id@) + le_bytes(
            s.canvas_x as nat,
            4,
        ) + le_bytes(s.canvas_y as nat, 4) + le_bytes(s.width as nat, 4) + le_bytes(
            s.height as nat,
            4,
        )
    }
}

/// Bytes hashed for a layout: origin as two's-complement `i64`, size as `u32`, then the slices.
pub open spec fn layout_bytes(
    origin_x: int,
    origin_y: int,
    width: nat,
    height: nat,
    slices: Seq<MonitorSlice>,
) -> Seq<u8> {
    le_bytes((origin_x as i64 as u64) as nat, 8) + le_bytes((origin_y as i64 as u64) as nat, 8)
        + le_bytes(width, 4) + le_bytes(height, 4) + slice_bytes(slices)
}

/// The 16 lowercase hex characters of the first 8 digest bytes.
pub open spec fn layout_hash_of(bytes: Seq<u8>) -> Seq<char> {
    spec_hex(spec_sha256(bytes).subrange(0, 8))
}

// ---------------------------------------------------------------------------
// Executable helpers
// ---------------------------------------------------------------------------

fn push_le(out: &mut Vec<u8>, v: u64, n: usize)
    ensures
        final(out)@ == old(out)@ + le_bytes(v as nat, n as nat),
    decreases n,
{
    if n > 0 {
        out.push((v % 256) as u8);
        push_le(out, v / 256, n - 1);
        assert(final(out)@ =~= old(out)@ + le_bytes(v as nat, n as nat));
    } else {
        assert(final(out)@ =~= old(out)@ + le_bytes(v as nat, n as nat));
    }
}

fn slice_precedes(a: &MonitorSlice, b: &MonitorSlice) -> (r: bool)
    ensures
        r == slice_before(*a, *b),
{
    if a.canvas_y != b.canvas_y {
        return a.canvas_y < b.canvas_y;
    }
    if a.canvas_x != b.canvas_x {
        return a.canvas_x < b.canvas_x;
    }
    text_precedes(&a.system_monitor_id, &b.system_monitor_id)
}

proof fn lemma_insert_suffix(s: Seq<MonitorSlice>, x: MonitorSlice, j: int)
    requires
        0 <= j <= s.len(),
        forall|k: int| j <= k < s.len() ==> slice_before(x, #[trigger] s[k]),
    ensures
        insert_sorted(s, x) == insert_sorted(s.subrange(0, j), x) + s.subrange(j, s.len() as int),
    decreases s.len() - j,
{
    if j < s.len() {
        let d = s.drop_last();
        assert forall|k: int| j <= k < d.len() implies slice_before(x, #[trigger] d[k]) by {
            assert(d[k] == s[k]);
        }
        lemma_insert_suffix(d, x, j);
        assert(d.subrange(0, j) =~= s.subrange(0, j));
        assert(slice_before(x, s[s.len() - 1]));
        assert(insert_sorted(s, x) == insert_sorted(d, x).push(s.last()));
        assert(d.subrange(j, d.len() as int).push(s.last()) =~= s.subrange(j, s.len() as int));
    } else {
        assert(s.subrange(0, j) =~= s);
        assert(s.subrange(j, s.len() as int) =~= Seq::<MonitorSlice>::empty());
    }
}

/// Inserts `x` into `sorted` exactly as `insert_sorted` describes.
fn insert_slice(sorted: &mut Vec<MonitorSlice>, x: MonitorSlice)
    ensures
        final(sorted)@ == insert_sorted(old(sorted)@, x),
{
    let ghost s = sorted@;
    let mut j: usize = sorted.len();
    while j > 0 && slice_precedes(&x, &sorted[j - 1])
        invariant
            j <= sorted.len(),
            sorted@ == s,
            forall|k: int| j <= k < s.len() ==> slice_before(x, #[trigger] s[k]),
        decreases j,
    {
        j -= 1;
    }
    proof {
        lemma_insert_suffix(s, x, j as int);
        let p = s.subrange(0, j as int);
        if j > 0 {
            assert(p.last() == s[j - 1]);
            assert(!slice_before(x, p.last()));
            assert(insert_sorted(p, x) == p.push(x));
        } else {
            assert(insert_sorted(p, x) == seq![x]);
        }
    }
    sorted.insert(j, x);
    assert(sorted@ =~= s.subrange(0, j as int).push(x) + s.subrange(j as int, s.len() as int));
}

/// Monitors before index `i` all have positive dimensions.
pub open spec fn first_invalid_monitor(ms: Seq<MonitorInfo>) -> Option<int> {
    if exists|i: int| 0 <= i < ms.len() && (ms[i].width == 0 || ms[i].height == 0) {
        Some(
            choose|i: int|
                0 <= i < ms.len() && (ms[i].width == 0 || ms[i].height == 0) && forall|k: int|
                    0 <= k < i ==> ms[k].width > 0 && ms[k].height > 0,
        )
    } else {
        None
    }
}

/// The outcome of building a layout for `ms`, as an error message or success.
pub open spec fn layout_error(ms: Seq<MonitorInfo>) -> Option<Seq<char>> {
    if ms.len() == 0 {
        Some("cannot build a spanning layout without monitors"@)
    } else if max_right(ms) - min_left(ms) > u32::MAX {
        Some("virtual desktop width is out of range"@)
    } else if max_bottom(ms) - min_top(ms) > u32::MAX {
        Some("virtual desktop height is out of range"@)
    } else if max_right(ms) - min_left(ms) == 0 || max_bottom(ms) - min_top(ms) == 0 {
        Some("virtual desktop dimensions must be positive"@)
    } else if first_invalid_monitor(ms) is Some {
        Some(
            "monitor "@ + ms[first_invalid_monitor(ms)->0].system_monitor_id@
                + " has invalid dimensions"@,
        )
    } else {
        None
    }
}

/// The layout computed for monitors that `layout_error` accepts.
pub open spec fn expected_layout(ms: Seq<MonitorInfo>, layout: MonitorLayout) -> bool {
    let min_x = min_left(ms);
    let min_y = min_top(ms);
    let width = max_right(ms) - min_x;
    let height = max_bottom(ms) - min_y;
    let slices = sort_slices(raw_slices(ms, min_x, min_y));
    &&& layout.origin_x == min_x
    &&& layout.origin_y == min_y
    &&& layout.width == width
    &&& layout.height == height
    &&& layout.slices@ == slices
    &&& layout.layout_hash@ == layout_hash_of(
        layout_bytes(min_x, min_y, width as nat, height as nat, slices),
    )
}

fn slice_bytes_of(slices: &Vec<MonitorSlice>, out: &mut Vec<u8>)
    ensures
        final(out)@ == old(out)@ + slice_bytes(slices@),
{
    let mut i: usize = 0;
    while i < slices.len()
        invariant
            i <= slices.len(),
            out@ == old(out)@ + slice_bytes(slices@.subrange(0, i as int)),
        decreases slices.len() - i,
    {
        let s = &slices[i];
        let id_bytes = s.system_monitor_id.as_str().as_bytes();
        let ghost before = out@;
        let mut k: usize = 0;
        while k < id_bytes.len()
            invariant
                k <= id_bytes@.len(),
                out@ == before + id_bytes@.subrange(0, k as int),
            decreases id_bytes.len() - k,
        {
            out.push(id_bytes[k]);
            k += 1;
            assert(out@ =~= before + id_bytes@.subrange(0, k as int));
        }
        assert(id_bytes@.subrange(0, id_bytes@.len() as int) =~= id_bytes@);
        push_le(out, s.canvas_x as u64, 4);
        push_le(out, s.canvas_y as u64, 4);
        push_le(out, s.width as u64, 4);
        push_le(out, s.height as u64, 4);
        proof {
            let p = slices@.subrange(0, i + 1);
            assert(p.drop_last() =~= slices@.subrange(0, i as int));
            assert(p.last() == slices@[i as int]);
        }
        i += 1;
        assert(out@ =~= old(out)@ + slice_bytes(slices@.subrange(0, i as int)));
    }
    assert(slices@.subrange(0, slices@.len() as int) =~= slices@);
}

fn layout_hash(origin_x: i64, origin_y: i64, width: u32, height: u32, slices: &Vec<MonitorSlice>) -> (h:
    String)
    ensures
        h@ == layout_hash_of(
            layout_bytes(origin_x as int, origin_y as int, width as nat, height as nat, slices@),
        ),
        h@.len() == 16,
{
    let mut bytes: Vec<u8> = Vec::new();
    push_le(&mut bytes, origin_x as u64, 8);
    push_le(&mut bytes, origin_y as u64, 8);
    push_le(&mut bytes, width as u64, 4);
    push_le(&mut bytes, height as u64, 4);
    slice_bytes_of(slices, &mut bytes);
    assert(bytes@ =~= layout_bytes(
        origin_x as int,
        origin_y as int,
        width as nat,
        height as nat,
        slices@,
    ));
    let digest = sha256_digest(bytes.as_slice());
    let mut prefix: Vec<u8> = Vec::new();
    let mut i: usize = 0;
    while i < 8
        invariant
            i <= 8,
            digest@.len() == 32,
            prefix@ == digest@.subrange(0, i as int),
        decreases 8 - i,
    {
        prefix.push(digest[i]);
        i += 1;
        assert(prefix@ =~= digest@.subrange(0, i as int));
    }
    hex_lower(prefix.as_slice())
}

/// Converts signed operating-system monitor coordinates into a zero-based render canvas.
pub fn calculate_monitor_layout(monitors: &[MonitorInfo]) -> (r: AppResult<MonitorLayout>)
    ensures
        match layout_error(monitors@) {
            Some(message) => r matches Err(AppError::Monitor(m)) && m@ == message,
            None => r matches Ok(layout) && expected_layout(monitors@, layout),
        },
        r matches Ok(layout) ==> layout.layout_hash@.len() == 16,
{
    let ghost ms = monitors@;
    if monitors.len() == 0 {
        return Err(AppError::Monitor("cannot build a spanning layout without monitors".to_string()));
    }
    let mut min_x: i64 = monitors[0].position_x as i64;
    let mut min_y: i64 = monitors[0].position_y as i64;
    let mut max_x: i64 = monitors[0].position_x as i64 + monitors[0].width as i64;
    let mut max_y: i64 = monitors[0].position_y as i64 + monitors[0].height as i64;
    let mut i: usize = 1;
    while i < monitors.len()
        invariant
            1 <= i <= monitors.len(),
            ms == monitors@,
            min_x == min_left(ms.subrange(0, i as int)),
            min_y == min_top(ms.subrange(0, i as int)),
            max_x == max_right(ms.subrange(0, i as int)),
            max_y == max_bottom(ms.subrange(0, i as int)),
            i32::MIN <= min_x <= i32::MAX,
            i32::MIN <= min_y <= i32::MAX,
            i32::MIN <= max_x <= i32::MAX + u32::MAX,
            i32::MIN <= max_y <= i32::MAX + u32::MAX,
        decreases monitors.len() - i,
    {
        let m = &monitors[i];
        let left: i64 = m.position_x as i64;
        let top: i64 = m.position_y as i64;
        let right: i64 = m.position_x as i64 + m.width as i64;
        let bottom: i64 = m.position_y as i64 + m.height as i64;
        proof {
            let p = ms.subrange(0, i + 1);
            assert(p.drop_last() =~= ms.subrange(0, i as int));
            assert(p.last() == ms[i as int]);
        }
        if left < min_x {
            min_x = left;
        }
        if top < min_y {
            min_y = top;
        }
        if right > max_x {
            max_x = right;
        }
        if bottom > max_y {
            max_y = bottom;
        }
        i += 1;
    }
    assert(ms.subrange(0, ms.len() as int) =~= ms);
    proof {
        lemma_bounds(ms);
    }
    let width_span: i64 = max_x - min_x;
    let height_span: i64 = max_y - min_y;
    if width_span > u32::MAX as i64 {
        return Err(AppError::Monitor("virtual desktop width is out of range".to_string()));
    }
    if height_span > u32::MAX as i64 {
        return Err(AppError::Monitor("virtual desktop height is out of range".to_string()));
    }
    let width: u32 = width_span as u32;
    let height: u32 = height_span as u32;
    if width == 0 || height == 0 {
        return Err(AppError::Monitor("virtual desktop dimensions must be positive".to_string()));
    }
    let ghost raw = raw_slices(ms, min_x as int, min_y as int);
    let mut slices: Vec<MonitorSlice> = Vec::new();
    let mut j: usize = 0;
    while j < monitors.len()
        invariant
            j <= monitors.len(),
            ms == monitors@,
            raw == raw_slices(ms, min_x as int, min_y as int),
            min_x == min_left(ms),
            min_y == min_top(ms),
            forall|k: int|
                0 <= k < ms.len() ==> min_left(ms) <= left_edge(#[trigger] ms[k]) && min_top(ms)
                    <= top_edge(ms[k]),
            i32::MIN <= min_x <= i32::MAX,
            i32::MIN <= min_y <= i32::MAX,
            0 < max_right(ms) - min_left(ms) <= u32::MAX,
            0 < max_bottom(ms) - min_top(ms) <= u32::MAX,
            forall|k: int| 0 <= k < j ==> ms[k].width > 0 && ms[k].height > 0,
            slices@ == sort_slices(raw.subrange(0, j as int)),
        decreases monitors.len() - j,
    {
        let m = &monitors[j];
        if m.width == 0 || m.height == 0 {
            proof {
                assert(first_invalid_monitor(ms) is Some);
                let f = first_invalid_monitor(ms)->0;
                assert(f == j) by {
                    if f < j {
                        assert(ms[f].width > 0 && ms[f].height > 0);
                    }
                    if f > j {
                        assert(ms[j as int].width == 0 || ms[j as int].height == 0);
                    }
                }
            }
            return Err(
                AppError::Monitor(
                    concat3("monitor ", m.system_monitor_id.as_str(), " has invalid dimensions"),
                ),
            );
        }
        let canvas_x: u32 = (m.position_x as i64 - min_x) as u32;
        let canvas_y: u32 = (m.position_y as i64 - min_y) as u32;
        let slice = MonitorSlice {
            system_monitor_id: m.system_monitor_id.clone(),
            canvas_x,
            canvas_y,
            width: m.width,
            height: m.height,
        };
        assert(slice == raw[j as int]);
        proof {
            let p = raw.subrange(0, j + 1);
            assert(p.drop_last() =~= raw.subrange(0, j as int));
            assert(p.last() == raw[j as int]);
        }
        insert_slice(&mut slices, slice);
        j += 1;
    }
    proof {
        assert(raw.subrange(0, raw.len() as int) =~= raw);
        assert(first_invalid_monitor(ms) is None);
    }
    let layout_hash = layout_hash(min_x, min_y, width, height, &slices);
    Ok(
        MonitorLayout {
            layout_hash,
            origin_x: min_x as i32,
            origin_y: min_y as i32,
            width,
            height,
            slices,
        },
    )
}

// ---------------------------------------------------------------------------
// Laws of the layout
// ---------------------------------------------------------------------------

proof fn lemma_text_lt_asymmetric(a: Seq<char>, b: Seq<char>)
    ensures
        text_lt(a, b) ==> !text_lt(b, a),
    decreases a.len(),
{
    if a.len() > 0 && b.len() > 0 && a[0] == b[0] {
        lemma_text_lt_asymmetric(a.drop_first(), b.drop_first());
    }
}

proof fn lemma_slice_before_asymmetric(a: MonitorSlice, b: MonitorSlice)
    ensures
        slice_before(a, b) ==> !slice_before(b, a),
{
    lemma_text_lt_asymmetric(a.system_monitor_id@, b.system_monitor_id@);
}

proof fn lemma_insert_multiset(s: Seq<MonitorSlice>, x: MonitorSlice)
    ensures
        insert_sorted(s, x).to_multiset() =~= s.to_multiset().insert(x),
    decreases s.len(),
{
    broadcast use vstd::seq_lib::to_multiset_build;
    broadcast use vstd::multiset::group_multiset_axioms;

    if s.len() == 0 {
        assert(seq![x] =~= Seq::<MonitorSlice>::empty().push(x));
        assert(s =~= Seq::<MonitorSlice>::empty());
    } else if slice_before(x, s.last()) {
        lemma_insert_multiset(s.drop_last(), x);
        assert(s.drop_last().push(s.last()) =~= s);
    } else {
    }
}

proof fn lemma_sort_multiset(s: Seq<MonitorSlice>)
    ensures
        sort_slices(s).to_multiset() =~= s.to_multiset(),
    decreases s.len(),
{
    broadcast use vstd::seq_lib::to_multiset_build;
    broadcast use vstd::multiset::group_multiset_axioms;

    if s.len() > 0 {
        lemma_sort_multiset(s.drop_last());
        lemma_insert_multiset(sort_slices(s.drop_last()), s.last());
        assert(s.drop_last().push(s.last()) =~= s);
        assert(s.drop_last().push(s.last()).to_multiset() =~= s.drop_last().to_multiset().insert(
            s.last(),
        ));
    } else {
        assert(s =~= Seq::<MonitorSlice>::empty());
        assert(sort_slices(s) =~= s);
    }
}

/// Neighbours never appear in the wrong order.
pub open spec fn adjacent_sorted(s: Seq<MonitorSlice>) -> bool {
    forall|k: int| 0 <= k < s.len() - 1 ==> !slice_before(#[trigger] s[k + 1], s[k])
}

proof fn lemma_insert_sorted_order(s: Seq<MonitorSlice>, x: MonitorSlice)
    requires
        adjacent_sorted(s),
    ensures
        adjacent_sorted(insert_sorted(s, x)),
        insert_sorted(s, x).len() == s.len() + 1,
        insert_sorted(s, x).last() == x || (s.len() > 0 && insert_sorted(s, x).last() == s.last()),
    decreases s.len(),
{
    if s.len() == 0 {
    } else if slice_before(x, s.last()) {
        let d = s.drop_last();
        assert(adjacent_sorted(d)) by {
            assert forall|k: int| 0 <= k < d.len() - 1 implies !slice_before(
                #[trigger] d[k + 1],
                d[k],
            ) by {
                assert(d[k + 1] == s[k + 1]);
                assert(d[k] == s[k]);
            }
        }
        lemma_insert_sorted_order(d, x);
        let t = insert_sorted(d, x);
        let r = t.push(s.last());
        lemma_slice_before_asymmetric(x, s.last());
        assert forall|k: int| 0 <= k < r.len() - 1 implies !slice_before(#[trigger] r[k + 1], r[k]) by {
            if k < r.len() - 2 {
                assert(r[k + 1] == t[k + 1]);
                assert(r[k] == t[k]);
            } else {
                assert(r[k] == t.last());
                if t.last() != x {
                    assert(d.len() > 0 && t.last() == d.last());
                    assert(d.last() == s[s.len() - 2]);
                    assert(s.last() == s[s.len() - 2 + 1]);
                }
            }
        }
    } else {
        let r = s.push(x);
        assert forall|k: int| 0 <= k < r.len() - 1 implies !slice_before(#[trigger] r[k + 1], r[k]) by {
            if k < r.len() - 2 {
                assert(r[k + 1] == s[k + 1]);
                assert(r[k] == s[k]);
            }
        }
    }
}

proof fn lemma_sort_order(s: Seq<MonitorSlice>)
    ensures
        adjacent_sorted(sort_slices(s)),
        sort_slices(s).len() == s.len(),
    decreases s.len(),
{
    if s.len() > 0 {
        lemma_sort_order(s.drop_last());
        lemma_insert_sorted_order(sort_slices(s.drop_last()), s.last());
    }
}

/// For every accepted monitor set, the layout's slices are the monitors' slices
/// (same multiset, one per monitor), listed in (canvas_y, canvas_x, id) order,
/// and each lies entirely inside the virtual canvas.
pub proof fn layout_slices_cover_monitors(ms: Seq<MonitorInfo>)
    requires
        layout_error(ms) is None,
    ensures
        ({
            let min_x = min_left(ms);
            let min_y = min_top(ms);
            let raw = raw_slices(ms, min_x, min_y);
            let slices = sort_slices(raw);
            &&& slices.len() == ms.len()
            &&& slices.to_multiset() == raw.to_multiset()
            &&& adjacent_sorted(slices)
            &&& forall|k: int|
                0 <= k < slices.len() ==> #[trigger] slices[k].canvas_x + slices[k].width
                    <= max_right(ms) - min_x && slices[k].canvas_y + slices[k].height
                    <= max_bottom(ms) - min_y
        }),
{
    broadcast use vstd::seq_lib::to_multiset_contains;

    let min_x = min_left(ms);
    let min_y = min_top(ms);
    let raw = raw_slices(ms, min_x, min_y);
    let slices = sort_slices(raw);
    lemma_bounds(ms);
    lemma_sort_multiset(raw);
    lemma_sort_order(raw);
    assert forall|k: int| 0 <= k < slices.len() implies #[trigger] slices[k].canvas_x
        + slices[k].width <= max_right(ms) - min_x && slices[k].canvas_y + slices[k].height
        <= max_bottom(ms) - min_y by {
        let e = slices[k];
        assert(slices.contains(e));
        assert(slices.to_multiset().count(e) > 0);
        assert(raw.contains(e));
        let i = choose|i: int| 0 <= i < raw.len() && raw[i] == e;
        assert(raw[i] == slice_of(ms[i], min_x, min_y));
        assert(min_left(ms) <= left_edge(ms[i]) && right_edge(ms[i]) <= max_right(ms));
        assert(min_top(ms) <= top_edge(ms[i]) && bottom_edge(ms[i]) <= max_bottom(ms));
    }
}


// ---------------------------------------------------------------------------
// Independence from the order in which monitors are reported
// ---------------------------------------------------------------------------

proof fn lemma_text_lt_transitive(a: Seq<char>, b: Seq<char>, c: Seq<char>)
    requires
        text_lt(a, b),
        text_lt(b, c),
    ensures
        text_lt(a, c),
    decreases a.len(),
{
    if a.len() > 0 && b.len() > 0 && c.len() > 0 && a[0] == b[0] && b[0] == c[0] {
        lemma_text_lt_transitive(a.drop_first(), b.drop_first(), c.drop_first());
    }
}

proof fn lemma_text_lt_total(a: Seq<char>, b: Seq<char>)
    requires
        a != b,
    ensures
        text_lt(a, b) || text_lt(b, a),
    decreases a.len(),
{
    if a.len() > 0 && b.len() > 0 {
        if a[0] == b[0] {
            assert(a.drop_first() != b.drop_first()) by {
                if a.drop_first() == b.drop_first() {
                    assert(a =~= seq![a[0]] + a.drop_first());
                    assert(b =~= seq![b[0]] + b.drop_first());
                }
            }
            lemma_text_lt_total(a.drop_first(), b.drop_first());
        } else {
            let x = a[0];
            let y = b[0];
            vstd::utf8::char_u32_cast(x, x as u32);
            vstd::utf8::char_u32_cast(y, y as u32);
            assert((x as u32) != (y as u32));
        }
    } else if a.len() == 0 && b.len() == 0 {
        assert(a =~= b);
    }
}

proof fn lemma_slice_before_transitive(a: MonitorSlice, b: MonitorSlice, c: MonitorSlice)
    requires
        slice_before(a, b),
        slice_before(b, c),
    ensures
        slice_before(a, c),
{
    if a.canvas_y == b.canvas_y && b.canvas_y == c.canvas_y && a.canvas_x == b.canvas_x
        && b.canvas_x == c.canvas_x {
        lemma_text_lt_transitive(a.system_monitor_id@, b.system_monitor_id@, c.system_monitor_id@);
    }
}

proof fn lemma_slice_before_irreflexive(a: MonitorSlice)
    ensures
        !slice_before(a, a),
{
    lemma_text_lt_asymmetric(a.system_monitor_id@, a.system_monitor_id@);
}

proof fn lemma_slice_before_total(a: MonitorSlice, b: MonitorSlice)
    requires
        a.system_monitor_id@ != b.system_monitor_id@,
    ensures
        slice_before(a, b) || slice_before(b, a),
{
    lemma_text_lt_total(a.system_monitor_id@, b.system_monitor_id@);
}

/// Every slice strictly precedes every later one.
pub open spec fn strictly_sorted(t: Seq<MonitorSlice>) -> bool {
    forall|i: int, j: int| 0 <= i < j < t.len() ==> slice_before(#[trigger] t[i], #[trigger] t[j])
}

/// Any two slices at different positions are ordered one way or the other.
pub open spec fn pairwise_comparable(s: Seq<MonitorSlice>) -> bool {
    forall|i: int, j: int|
        0 <= i < s.len() && 0 <= j < s.len() && i != j ==> slice_before(#[trigger] s[i], #[trigger] s[j])
            || slice_before(s[j], s[i])
}

proof fn lemma_insert_strict(s: Seq<MonitorSlice>, x: MonitorSlice)
    requires
        strictly_sorted(s),
        forall|k: int| 0 <= k < s.len() ==> slice_before(x, #[trigger] s[k]) || slice_before(s[k], x),
    ensures
        strictly_sorted(insert_sorted(s, x)),
    decreases s.len(),
{
    broadcast use vstd::seq_lib::to_multiset_contains;
    broadcast use vstd::multiset::group_multiset_axioms;

    if s.len() == 0 {
    } else if slice_before(x, s.last()) {
        let d = s.drop_last();
        let last = s.last();
        assert forall|k: int| 0 <= k < d.len() implies slice_before(x, #[trigger] d[k])
            || slice_before(d[k], x) by {
            assert(d[k] == s[k]);
        }
        assert(strictly_sorted(d)) by {
            assert forall|i: int, j: int| 0 <= i < j < d.len() implies slice_before(
                #[trigger] d[i],
                #[trigger] d[j],
            ) by {
                assert(d[i] == s[i] && d[j] == s[j]);
            }
        }
        lemma_insert_strict(d, x);
        lemma_insert_multiset(d, x);
        let t = insert_sorted(d, x);
        assert forall|k: int| 0 <= k < t.len() implies slice_before(#[trigger] t[k], last) by {
            let e = t[k];
            assert(t.contains(e));
            assert(t.to_multiset().count(e) > 0);
            if e != x {
                assert(d.to_multiset().count(e) > 0);
                assert(d.contains(e));
                let p = choose|p: int| 0 <= p < d.len() && d[p] == e;
                assert(s[p] == e);
                assert(slice_before(s[p], s[s.len() - 1]));
            }
        }
        let r = t.push(last);
        assert(insert_sorted(s, x) == r);
        assert forall|i: int, j: int| 0 <= i < j < r.len() implies slice_before(
            #[trigger] r[i],
            #[trigger] r[j],
        ) by {
            if j < r.len() - 1 {
                assert(r[i] == t[i] && r[j] == t[j]);
            } else {
                assert(r[i] == t[i]);
            }
        }
    } else {
        let last = s.last();
        assert(slice_before(last, x)) by {
            assert(s[s.len() - 1] == last);
        }
        let r = s.push(x);
        assert forall|i: int, j: int| 0 <= i < j < r.len() implies slice_before(
            #[trigger] r[i],
            #[trigger] r[j],
        ) by {
            if j < r.len() - 1 {
                assert(r[i] == s[i] && r[j] == s[j]);
            } else if i == s.len() - 1 {
                assert(r[i] == last);
            } else {
                assert(r[i] == s[i]);
                assert(slice_before(s[i], s[s.len() - 1]));
                lemma_slice_before_transitive(s[i], last, x);
            }
        }
    }
}

proof fn lemma_sort_strict(s: Seq<MonitorSlice>)
    requires
        pairwise_comparable(s),
    ensures
        strictly_sorted(sort_slices(s)),
    decreases s.len(),
{
    broadcast use vstd::seq_lib::to_multiset_contains;

    if s.len() > 0 {
        let d = s.drop_last();
        let x = s.last();
        assert(pairwise_comparable(d)) by {
            assert forall|i: int, j: int|
                0 <= i < d.len() && 0 <= j < d.len() && i != j implies slice_before(
                #[trigger] d[i],
                #[trigger] d[j],
            ) || slice_before(d[j], d[i]) by {
                assert(d[i] == s[i] && d[j] == s[j]);
            }
        }
        lemma_sort_strict(d);
        lemma_sort_multiset(d);
        let t = sort_slices(d);
        assert forall|k: int| 0 <= k < t.len() implies slice_before(x, #[trigger] t[k])
            || slice_before(t[k], x) by {
            let e = t[k];
            assert(t.contains(e));
            assert(t.to_multiset().count(e) > 0);
            assert(d.to_multiset().count(e) > 0);
            let p = choose|p: int| 0 <= p < d.len() && d[p] == e;
            assert(s[p] == e);
            assert(s[s.len() - 1] == x);
        }
        lemma_insert_strict(t, x);
    }
}

proof fn lemma_strict_unique(t1: Seq<MonitorSlice>, t2: Seq<MonitorSlice>)
    requires
        strictly_sorted(t1),
        strictly_sorted(t2),
        t1.to_multiset() == t2.to_multiset(),
    ensures
        t1 == t2,
    decreases t1.len(),
{
    broadcast use vstd::seq_lib::to_multiset_contains;
    broadcast use vstd::seq_lib::to_multiset_len;
    broadcast use vstd::seq_lib::to_multiset_build;
    broadcast use vstd::multiset::group_multiset_axioms;

    vstd::seq_lib::to_multiset_len(t1);
    vstd::seq_lib::to_multiset_len(t2);
    assert(t1.len() == t2.len());
    if t1.len() == 0 {
        assert(t1 =~= t2);
    } else {
        let n = t1.len() as int;
        let a = t1.last();
        let b = t2.last();
        assert(t1[n - 1] == a);
        assert(t2[n - 1] == b);
        assert(t1.to_multiset().count(a) > 0);
        assert(t2.contains(a));
        let k = choose|k: int| 0 <= k < t2.len() && t2[k] == a;
        assert(t2.to_multiset().count(b) > 0);
        assert(t1.contains(b));
        let m = choose|m: int| 0 <= m < t1.len() && t1[m] == b;
        if k < n - 1 {
            assert(slice_before(a, b));
            if m < n - 1 {
                assert(slice_before(b, a));
                lemma_slice_before_asymmetric(a, b);
            } else {
                lemma_slice_before_irreflexive(a);
            }
        }
        assert(a == b);
        let d1 = t1.drop_last();
        let d2 = t2.drop_last();
        assert(d1.push(a) =~= t1);
        assert(d2.push(a) =~= t2);
        assert(d1.to_multiset().insert(a) == d2.to_multiset().insert(a));
        assert(d1.to_multiset() =~= d2.to_multiset()) by {
            assert forall|y: MonitorSlice| d1.to_multiset().count(y) == d2.to_multiset().count(y) by {
                assert(d1.to_multiset().insert(a).count(y) == d2.to_multiset().insert(a).count(y));
            }
        }
        assert(strictly_sorted(d1)) by {
            assert forall|i: int, j: int| 0 <= i < j < d1.len() implies slice_before(
                #[trigger] d1[i],
                #[trigger] d1[j],
            ) by {
                assert(d1[i] == t1[i] && d1[j] == t1[j]);
            }
        }
        assert(strictly_sorted(d2)) by {
            assert forall|i: int, j: int| 0 <= i < j < d2.len() implies slice_before(
                #[trigger] d2[i],
                #[trigger] d2[j],
            ) by {
                assert(d2[i] == t2[i] && d2[j] == t2[j]);
            }
        }
        lemma_strict_unique(d1, d2);
    }
}

proof fn lemma_map_multiset<A, B>(s1: Seq<A>, s2: Seq<A>, f: spec_fn(A) -> B)
    requires
        s1.to_multiset() == s2.to_multiset(),
    ensures
        s1.map_values(f).to_multiset() == s2.map_values(f).to_multiset(),
    decreases s1.len(),
{
    broadcast use vstd::seq_lib::to_multiset_contains;
    broadcast use vstd::seq_lib::to_multiset_build;
    broadcast use vstd::seq_lib::to_multiset_remove;
    broadcast use vstd::multiset::group_multiset_axioms;

    vstd::seq_lib::to_multiset_len(s1);
    vstd::seq_lib::to_multiset_len(s2);
    if s1.len() == 0 {
        assert(s1.map_values(f) =~= s2.map_values(f));
    } else {
        let x = s1.last();
        let d1 = s1.drop_last();
        assert(d1.push(x) =~= s1);
        assert(s1[s1.len() - 1] == x);
        assert(s1.to_multiset().count(x) > 0);
        assert(s2.contains(x));
        let j = choose|j: int| 0 <= j < s2.len() && s2[j] == x;
        let r2 = s2.remove(j);
        assert(r2.to_multiset() == s2.to_multiset().remove(x));
        assert(d1.to_multiset() =~= r2.to_multiset());
        lemma_map_multiset(d1, r2, f);
        let m1 = s1.map_values(f);
        let m2 = s2.map_values(f);
        assert(m1 =~= d1.map_values(f).push(f(x)));
        assert(m2.remove(j) =~= r2.map_values(f));
        assert(m2[j] == f(x));
        assert(m2.remove(j).to_multiset() == m2.to_multiset().remove(f(x)));
        assert(m2.to_multiset().count(f(x)) > 0) by {
            assert(m2.contains(f(x)));
        }
        assert(m1.to_multiset() =~= m2.to_multiset());
    }
}

proof fn lemma_bounds_of_permutation(ms: Seq<MonitorInfo>, perm: Seq<MonitorInfo>)
    requires
        ms.len() > 0,
        perm.to_multiset() == ms.to_multiset(),
    ensures
        perm.len() == ms.len(),
        min_left(perm) == min_left(ms),
        min_top(perm) == min_top(ms),
        max_right(perm) == max_right(ms),
        max_bottom(perm) == max_bottom(ms),
        forall|i: int| 0 <= i < perm.len() ==> #[trigger] ms.contains(perm[i]),
{
    broadcast use vstd::seq_lib::to_multiset_contains;

    vstd::seq_lib::to_multiset_len(ms);
    vstd::seq_lib::to_multiset_len(perm);
    lemma_bounds(ms);
    lemma_bounds(perm);
    assert forall|i: int| 0 <= i < perm.len() implies #[trigger] ms.contains(perm[i]) by {
        assert(perm.contains(perm[i]));
        assert(perm.to_multiset().count(perm[i]) > 0);
    }
    assert forall|i: int| 0 <= i < ms.len() implies #[trigger] perm.contains(ms[i]) by {
        assert(ms.contains(ms[i]));
        assert(ms.to_multiset().count(ms[i]) > 0);
    }
    let a = choose|i: int| 0 <= i < perm.len() && min_left(perm) == left_edge(#[trigger] perm[i]);
    let b = choose|i: int| 0 <= i < ms.len() && min_left(ms) == left_edge(#[trigger] ms[i]);
    assert(ms.contains(perm[a]));
    assert(perm.contains(ms[b]));
    let c = choose|i: int| 0 <= i < perm.len() && min_top(perm) == top_edge(#[trigger] perm[i]);
    let d = choose|i: int| 0 <= i < ms.len() && min_top(ms) == top_edge(#[trigger] ms[i]);
    assert(ms.contains(perm[c]));
    assert(perm.contains(ms[d]));
    let e = choose|i: int| 0 <= i < perm.len() && max_right(perm) == right_edge(#[trigger] perm[i]);
    let f = choose|i: int| 0 <= i < ms.len() && max_right(ms) == right_edge(#[trigger] ms[i]);
    assert(ms.contains(perm[e]));
    assert(perm.contains(ms[f]));
    let g = choose|i: int|
        0 <= i < perm.len() && max_bottom(perm) == bottom_edge(#[trigger] perm[i]);
    let h = choose|i: int| 0 <= i < ms.len() && max_bottom(ms) == bottom_edge(#[trigger] ms[i]);
    assert(ms.contains(perm[g]));
    assert(perm.contains(ms[h]));
}

/// The identifiers of the monitors, in reported order.
pub open spec fn monitor_ids(ms: Seq<MonitorInfo>) -> Seq<Seq<char>> {
    ms.map_values(|m: MonitorInfo| m.system_monitor_id@)
}

/// The layout is a snapshot of the monitor set, not of the order in which the
/// platform enumerated it: when monitors with distinct identifiers are accepted,
/// any reordering of them is accepted too and yields the same origin, size,
/// slices in the same order, and the same layout hash.
pub proof fn layout_ignores_monitor_order(ms: Seq<MonitorInfo>, perm: Seq<MonitorInfo>)
    requires
        layout_error(ms) is None,
        monitor_ids(ms).no_duplicates(),
        perm.to_multiset() == ms.to_multiset(),
    ensures
        layout_error(perm) is None,
        forall|a: MonitorLayout, b: MonitorLayout|
            #![trigger expected_layout(ms, a), expected_layout(perm, b)]
            expected_layout(ms, a) && expected_layout(perm, b) ==> a.origin_x == b.origin_x
                && a.origin_y == b.origin_y && a.width == b.width && a.height == b.height
                && a.slices@ == b.slices@ && a.layout_hash@ == b.layout_hash@,
{
    lemma_bounds_of_permutation(ms, perm);
    let min_x = min_left(ms);
    let min_y = min_top(ms);
    assert(first_invalid_monitor(perm) is None) by {
        assert forall|i: int| 0 <= i < perm.len() implies !(perm[i].width == 0
            || perm[i].height == 0) by {
            assert(ms.contains(perm[i]));
            let k = choose|k: int| 0 <= k < ms.len() && ms[k] == perm[i];
            if ms[k].width == 0 || ms[k].height == 0 {
                assert(first_invalid_monitor(ms) is Some);
            }
        }
    }
    // The identifiers of the reordered monitors are distinct as well.
    let ids_fn = |m: MonitorInfo| m.system_monitor_id@;
    lemma_map_multiset(ms, perm, ids_fn);
    monitor_ids(ms).lemma_multiset_has_no_duplicates();
    assert(monitor_ids(ms) == ms.map_values(ids_fn));
    assert(monitor_ids(perm) == perm.map_values(ids_fn));
    monitor_ids(perm).lemma_multiset_has_no_duplicates_conv();
    // Both slice lists are the same multiset, each ordered strictly.
    let slice_fn = |m: MonitorInfo| slice_of(m, min_x, min_y);
    let raw1 = raw_slices(ms, min_x, min_y);
    let raw2 = raw_slices(perm, min_x, min_y);
    assert(raw1 == ms.map_values(slice_fn));
    assert(raw2 == perm.map_values(slice_fn));
    lemma_map_multiset(ms, perm, slice_fn);
    assert(pairwise_comparable(raw1)) by {
        assert forall|i: int, j: int|
            0 <= i < raw1.len() && 0 <= j < raw1.len() && i != j implies slice_before(
            #[trigger] raw1[i],
            #[trigger] raw1[j],
        ) || slice_before(raw1[j], raw1[i]) by {
            assert(monitor_ids(ms)[i] != monitor_ids(ms)[j]);
            lemma_slice_before_total(raw1[i], raw1[j]);
        }
    }
    assert(pairwise_comparable(raw2)) by {
        assert forall|i: int, j: int|
            0 <= i < raw2.len() && 0 <= j < raw2.len() && i != j implies slice_before(
            #[trigger] raw2[i],
            #[trigger] raw2[j],
        ) || slice_before(raw2[j], raw2[i]) by {
            assert(monitor_ids(perm)[i] != monitor_ids(perm)[j]);
            lemma_slice_before_total(raw2[i], raw2[j]);
        }
    }
    lemma_sort_strict(raw1);
    lemma_sort_strict(raw2);
    lemma_sort_multiset(raw1);
    lemma_sort_multiset(raw2);
    lemma_strict_unique(sort_slices(raw1), sort_slices(raw2));
}

} // verus!



