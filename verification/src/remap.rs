//! Geometry remapping: recomputing composition-object and window positions
//! for a new crop of the video frame, enforcing a safety margin, and
//! validating that no two windows of a display set overlap afterwards.

use vstd::prelude::*;
use crate::seg::{CompObj, ObjDefSeg, WinDef};
use crate::displayset::{DisplaySet, DisplaySetV};

verus! {

/// The offset of an item along one axis after cropping `full` down to
/// `crop`, with a safety margin. An item that cannot fit inside the margins
/// is forced to offset zero; otherwise the offset is shifted by half the
/// cropped-away extent and clamped into `[margin, crop - item - margin]`.
pub open spec fn spec_cropped_offset(
    full: int,
    crop: int,
    item: int,
    offset: int,
    margin: int,
) -> int {
    if item + 2 * margin > crop {
        0
    } else {
        let shifted = offset - (full - crop) / 2;
        if shifted < margin {
            margin
        } else if shifted + item + margin > crop {
            crop - item - margin
        } else {
            shifted
        }
    }
}

/// Recomputes one position for the new crop. The frame must really be
/// cropped, not expanded: a crop size above the full size is unsupported and
/// rejected by the callers of this function.
pub fn cropped_offset(
    screen_full_size: u16,
    screen_crop_size: u16,
    size: u16,
    offset: u16,
    margin: u16,
) -> (r: u16)
    requires
        screen_crop_size <= screen_full_size,
    ensures
        r as int == spec_cropped_offset(
            screen_full_size as int,
            screen_crop_size as int,
            size as int,
            offset as int,
            margin as int,
        ),
{
    if (size as u32) + 2 * (margin as u32) > (screen_crop_size as u32) {
        return 0;
    }
    let shift = (screen_full_size - screen_crop_size) / 2;
    if (offset as u32) < (shift as u32) + (margin as u32) {
        return margin;
    }
    let shifted = offset - shift;
    if (shifted as u32) + (size as u32) + (margin as u32) > (screen_crop_size as u32) {
        return screen_crop_size - size - margin;
    }
    shifted
}

/// No crop means no change: with the full frame kept, any offset whose item
/// already respects the margin on both sides is returned unchanged.
pub proof fn lemma_no_crop_identity(full: int, item: int, offset: int, margin: int)
    requires
        0 <= margin,
        0 <= item,
        margin <= offset,
        offset + item + margin <= full,
    ensures
        spec_cropped_offset(full, full, item, offset, margin) == offset,
{
}

/// Where the item fits inside the margins, the result is clamped into
/// `[margin, crop - item - margin]`.
pub proof fn lemma_cropped_offset_bounds(full: int, crop: int, item: int, offset: int, margin: int)
    requires
        0 <= margin,
        0 <= item,
        0 <= offset,
        0 <= crop <= full,
        item + 2 * margin <= crop,
    ensures
        margin <= spec_cropped_offset(full, crop, item, offset, margin) <= crop - item - margin,
{
}

/// An item that cannot fit inside the margins is always placed at offset
/// zero; this degrades the position but is never a failure.
pub proof fn lemma_margin_violation_zero(full: int, crop: int, item: int, offset: int, margin: int)
    requires
        item + 2 * margin > crop,
    ensures
        spec_cropped_offset(full, crop, item, offset, margin) == 0,
{
}

// ---------------------------------------------------------------------------
// Window collision validation.
// ---------------------------------------------------------------------------

/// The top-left corner of `b` lies inside (inclusive) the rectangle of `a`.
pub open spec fn corner_inside(a: WinDef, b: WinDef) -> bool {
    &&& a.x <= b.x <= a.x + a.width
    &&& a.y <= b.y <= a.y + a.height
}

fn corner_inside_exec(a: &WinDef, b: &WinDef) -> (r: bool)
    ensures
        r == corner_inside(*a, *b),
{
    a.x <= b.x && (b.x as u32) <= (a.x as u32) + (a.width as u32) && a.y <= b.y && (b.y as u32) <= (
    a.y as u32) + (a.height as u32)
}

/// No window's top-left corner lies inside another window's rectangle.
pub open spec fn no_window_collision(ws: Seq<WinDef>) -> bool {
    forall|i: int, j: int|
        0 <= i < ws.len() && 0 <= j < ws.len() && i != j ==> !corner_inside(
            #[trigger] ws[i],
            #[trigger] ws[j],
        )
}

/// Searches every ordered pair of distinct windows for a containment of one
/// window's top-left corner in the other's rectangle. Returns `None` exactly
/// when no such pair exists: two windows that do not contain each other's
/// corner never report a collision, and two that do always do.
pub fn check_window_collisions(ws: &Vec<WinDef>) -> (r: Option<(usize, usize)>)
    ensures
        match r {
            Option::None => no_window_collision(ws@),
            Option::Some((i, j)) => i < ws@.len() && j < ws@.len() && i != j && corner_inside(
                ws@[i as int],
                ws@[j as int],
            ),
        },
{
    let n = ws.len();
    let mut i: usize = 0;
    while i < n
        invariant
            i <= n,
            n == ws@.len(),
            forall|a: int, b: int|
                0 <= a < i && 0 <= b < n && a != b ==> !corner_inside(
                    #[trigger] ws@[a],
                    #[trigger] ws@[b],
                ),
        decreases n - i,
    {
        let mut j: usize = 0;
        while j < n
            invariant
                i < n,
                n == ws@.len(),
                j <= n,
                forall|b: int| 0 <= b < j && i != b ==> !corner_inside(ws@[i as int], #[trigger] ws@[b]),
            decreases n - j,
        {
            if i != j {
                if corner_inside_exec(&ws[i], &ws[j]) {
                    return Option::Some((i, j));
                }
            }
            j = j + 1;
        }
        i = i + 1;
    }
    Option::None
}

// ---------------------------------------------------------------------------
// Remapping a whole display set.
// ---------------------------------------------------------------------------

/// Why a display set could not be remapped.
#[derive(Clone, Copy, PartialEq, Eq, Structural, Debug)]
pub enum RemapError {
    /// The requested crop is larger than the frame: an expansion, which the
    /// truncating shift arithmetic does not support.
    CropLargerThanFrame,
    /// A composition object references an object id with no object
    /// definition in the same display set, so no bounding size governs its
    /// placement.
    UnknownObjectId { obj_id: u16 },
    /// After remapping, one window's top-left corner lies inside another
    /// window: the regions are no longer mutually exclusive, which is fatal.
    WindowCollision { pts: u32, first_id: u8, second_id: u8 },
}

/// Largest width among object definitions sharing `id`, or -1 where none
/// shares it. An object id may have several resolution variants registered
/// in one display set; the bounding size governs placement safety.
pub open spec fn spec_max_obj_width(os: Seq<ObjDefSeg>, id: u16) -> int
    decreases os.len(),
{
    if os.len() == 0 {
        -1
    } else {
        let r = spec_max_obj_width(os.drop_last(), id);
        if os.last().id == id && os.last().width > r {
            os.last().width as int
        } else {
            r
        }
    }
}

/// Largest height among object definitions sharing `id`, or -1.
pub open spec fn spec_max_obj_height(os: Seq<ObjDefSeg>, id: u16) -> int
    decreases os.len(),
{
    if os.len() == 0 {
        -1
    } else {
        let r = spec_max_obj_height(os.drop_last(), id);
        if os.last().id == id && os.last().height > r {
            os.last().height as int
        } else {
            r
        }
    }
}

fn max_obj_size(os: &Vec<ObjDefSeg>, id: u16) -> (r: Option<(u16, u16)>)
    ensures
        match r {
            Option::Some(wh) => wh.0 as int == spec_max_obj_width(os@, id) && wh.1 as int
                == spec_max_obj_height(os@, id),
            Option::None => spec_max_obj_width(os@, id) == -1 && spec_max_obj_height(os@, id)
                == -1,
        },
{
    let n = os.len();
    let mut found = false;
    let mut w: u16 = 0;
    let mut h: u16 = 0;
    let mut i: usize = 0;
    proof {
        assert(os@.take(0) =~= Seq::<ObjDefSeg>::empty());
    }
    while i < n
        invariant
            i <= n,
            n == os@.len(),
            found ==> w as int == spec_max_obj_width(os@.take(i as int), id) && h as int
                == spec_max_obj_height(os@.take(i as int), id),
            !found ==> spec_max_obj_width(os@.take(i as int), id) == -1 && spec_max_obj_height(
                os@.take(i as int),
                id,
            ) == -1,
        decreases n - i,
    {
        proof {
            let pre = os@.take(i as int);
            let post = os@.take(i as int + 1);
            assert(post.drop_last() =~= pre);
            assert(post.last() == os@[i as int]);
        }
        if os[i].id == id {
            if !found {
                found = true;
                w = os[i].width;
                h = os[i].height;
            } else {
                if os[i].width > w {
                    w = os[i].width;
                }
                if os[i].height > h {
                    h = os[i].height;
                }
            }
        }
        i = i + 1;
    }
    proof {
        assert(os@.take(n as int) =~= os@);
    }
    if found {
        Option::Some((w, h))
    } else {
        Option::None
    }
}

/// A record of one non-fatal degradation: an item that could not fit within
/// the requested margin along one axis and was placed at offset zero.
#[derive(Clone, Copy, PartialEq, Eq, Structural, Debug)]
pub struct MarginWarning {
    /// Whether the item is a window (else a composition object).
    pub window: bool,
    /// Whether the horizontal axis violated the margin (else the vertical).
    pub horizontal: bool,
    /// The object id or window id of the item.
    pub id: u16,
}

/// The margin warnings the first `n` composition objects produce, in order:
/// for each object, a horizontal warning where its bounding width cannot fit
/// the cropped width with margins, then a vertical one likewise.
pub open spec fn obj_warn_seq(
    objs: Seq<CompObj>,
    defs: Seq<ObjDefSeg>,
    crop_w: int,
    crop_h: int,
    margin: int,
    n: int,
) -> Seq<MarginWarning>
    decreases n,
{
    if n <= 0 {
        Seq::<MarginWarning>::empty()
    } else {
        let o = objs[n - 1];
        obj_warn_seq(objs, defs, crop_w, crop_h, margin, n - 1) + (if spec_max_obj_width(
            defs,
            o.obj_id,
        ) + 2 * margin > crop_w {
            seq![MarginWarning { window: false, horizontal: true, id: o.obj_id }]
        } else {
            Seq::<MarginWarning>::empty()
        }) + (if spec_max_obj_height(defs, o.obj_id) + 2 * margin > crop_h {
            seq![MarginWarning { window: false, horizontal: false, id: o.obj_id }]
        } else {
            Seq::<MarginWarning>::empty()
        })
    }
}

/// The margin warnings the first `n` windows produce, in order.
pub open spec fn win_warn_seq(
    ws: Seq<WinDef>,
    crop_w: int,
    crop_h: int,
    margin: int,
    n: int,
) -> Seq<MarginWarning>
    decreases n,
{
    if n <= 0 {
        Seq::<MarginWarning>::empty()
    } else {
        let w = ws[n - 1];
        win_warn_seq(ws, crop_w, crop_h, margin, n - 1) + (if w.width + 2 * margin > crop_w {
            seq![MarginWarning { window: true, horizontal: true, id: w.id as u16 }]
        } else {
            Seq::<MarginWarning>::empty()
        }) + (if w.height + 2 * margin > crop_h {
            seq![MarginWarning { window: true, horizontal: false, id: w.id as u16 }]
        } else {
            Seq::<MarginWarning>::empty()
        })
    }
}

/// The state a display set must be in after remapping `d` to the new crop:
/// the frame size replaced, every composition object repositioned along each
/// axis by `spec_cropped_offset` under the bounding size of its object id,
/// every window repositioned under its own size, and everything else kept.
pub open spec fn remapped(
    d: DisplaySetV,
    f: DisplaySetV,
    crop_w: u16,
    crop_h: u16,
    margin: u16,
) -> bool {
    &&& f.width == crop_w
    &&& f.height == crop_h
    &&& f.pts == d.pts
    &&& f.dts == d.dts
    &&& f.comp_num == d.comp_num
    &&& f.comp_state == d.comp_state
    &&& f.pal_update == d.pal_update
    &&& f.pal_id == d.pal_id
    &&& f.palettes == d.palettes
    &&& f.objects == d.objects
    &&& f.comp_objs.len() == d.comp_objs.len()
    &&& forall|i: int|
        0 <= i < d.comp_objs.len() ==> {
            let o = d.comp_objs[i];
            let fo = #[trigger] f.comp_objs[i];
            &&& fo.obj_id == o.obj_id
            &&& fo.win_id == o.win_id
            &&& fo.crop == o.crop
            &&& fo.x as int == spec_cropped_offset(
                d.width as int,
                crop_w as int,
                spec_max_obj_width(d.objects, o.obj_id),
                o.x as int,
                margin as int,
            )
            &&& fo.y as int == spec_cropped_offset(
                d.height as int,
                crop_h as int,
                spec_max_obj_height(d.objects, o.obj_id),
                o.y as int,
                margin as int,
            )
        }
    &&& f.windows.len() == d.windows.len()
    &&& forall|i: int|
        0 <= i < d.windows.len() ==> {
            let w = d.windows[i];
            let fw = #[trigger] f.windows[i];
            &&& fw.id == w.id
            &&& fw.width == w.width
            &&& fw.height == w.height
            &&& fw.x as int == spec_cropped_offset(
                d.width as int,
                crop_w as int,
                w.width as int,
                w.x as int,
                margin as int,
            )
            &&& fw.y as int == spec_cropped_offset(
                d.height as int,
                crop_h as int,
                w.height as int,
                w.y as int,
                margin as int,
            )
        }
}

/// Remaps a display set in place for the new crop and validates window
/// exclusivity. Margin violations degrade (the offset is forced to zero) and
/// are reported as warnings, never as a failure; an expansion, an
/// unresolvable object id, and a window collision after remapping are the
/// three fatal errors, and on the first two the set is left unchanged.
#[verifier::rlimit(60)]
pub fn remap_display_set(
    ds: &mut DisplaySet,
    crop_width: u16,
    crop_height: u16,
    margin: u16,
) -> (res: Result<Vec<MarginWarning>, RemapError>)
    ensures
        match res {
            Result::Ok(warnings) => {
                &&& crop_width <= old(ds)@.width && crop_height <= old(ds)@.height
                &&& forall|i: int|
                    0 <= i < old(ds)@.comp_objs.len() ==> spec_max_obj_width(
                        old(ds)@.objects,
                        (#[trigger] old(ds)@.comp_objs[i]).obj_id,
                    ) >= 0
                &&& remapped(old(ds)@, final(ds)@, crop_width, crop_height, margin)
                &&& no_window_collision(final(ds)@.windows)
                &&& warnings@ == obj_warn_seq(
                    old(ds)@.comp_objs,
                    old(ds)@.objects,
                    crop_width as int,
                    crop_height as int,
                    margin as int,
                    old(ds)@.comp_objs.len() as int,
                ) + win_warn_seq(
                    old(ds)@.windows,
                    crop_width as int,
                    crop_height as int,
                    margin as int,
                    old(ds)@.windows.len() as int,
                )
            },
            Result::Err(e) => match e {
                RemapError::CropLargerThanFrame => final(ds)@ == old(ds)@ && (crop_width > old(
                    ds,
                )@.width || crop_height > old(ds)@.height),
                RemapError::UnknownObjectId { obj_id } => {
                    &&& final(ds)@ == old(ds)@
                    &&& crop_width <= old(ds)@.width && crop_height <= old(ds)@.height
                    &&& exists|i: int|
                        0 <= i < old(ds)@.comp_objs.len() && (#[trigger] old(
                            ds,
                        )@.comp_objs[i]).obj_id == obj_id
                    &&& spec_max_obj_width(old(ds)@.objects, obj_id) == -1
                },
                RemapError::WindowCollision { pts, first_id, second_id } => {
                    &&& crop_width <= old(ds)@.width && crop_height <= old(ds)@.height
                    &&& remapped(old(ds)@, final(ds)@, crop_width, crop_height, margin)
                    &&& pts == old(ds)@.pts
                    &&& exists|i: int, j: int|
                        {
                            &&& 0 <= i < final(ds)@.windows.len()
                            &&& 0 <= j < final(ds)@.windows.len()
                            &&& i != j
                            &&& corner_inside(
                                #[trigger] final(ds)@.windows[i],
                                #[trigger] final(ds)@.windows[j],
                            )
                            &&& first_id == final(ds)@.windows[i].id
                            &&& second_id == final(ds)@.windows[j].id
                        }
                },
            },
        },
{
    let full_w = ds.width;
    let full_h = ds.height;
    if crop_width > full_w || crop_height > full_h {
        return Result::Err(RemapError::CropLargerThanFrame);
    }
    let mut warnings: Vec<MarginWarning> = Vec::new();
    let mut new_objs: Vec<CompObj> = Vec::new();
    let n = ds.comp_objs.len();
    let mut i: usize = 0;
    proof {
        assert(warnings@ =~= obj_warn_seq(
            ds.comp_objs@,
            ds.objects@,
            crop_width as int,
            crop_height as int,
            margin as int,
            0,
        ));
    }
    while i < n
        invariant
            i <= n,
            n == ds.comp_objs@.len(),
            ds@ == old(ds)@,
            crop_width <= full_w == ds@.width,
            crop_height <= full_h == ds@.height,
            new_objs@.len() == i,
            forall|k: int|
                0 <= k < i ==> spec_max_obj_width(
                    ds@.objects,
                    (#[trigger] ds@.comp_objs[k]).obj_id,
                ) >= 0,
            forall|k: int|
                0 <= k < i ==> {
                    let o = ds@.comp_objs[k];
                    let fo = #[trigger] new_objs@[k];
                    &&& fo.obj_id == o.obj_id
                    &&& fo.win_id == o.win_id
                    &&& fo.crop == o.crop
                    &&& fo.x as int == spec_cropped_offset(
                        ds@.width as int,
                        crop_width as int,
                        spec_max_obj_width(ds@.objects, o.obj_id),
                        o.x as int,
                        margin as int,
                    )
                    &&& fo.y as int == spec_cropped_offset(
                        ds@.height as int,
                        crop_height as int,
                        spec_max_obj_height(ds@.objects, o.obj_id),
                        o.y as int,
                        margin as int,
                    )
                },
            warnings@ == obj_warn_seq(
                ds.comp_objs@,
                ds.objects@,
                crop_width as int,
                crop_height as int,
                margin as int,
                i as int,
            ),
        decreases n - i,
    {
        let o = ds.comp_objs[i];
        match max_obj_size(&ds.objects, o.obj_id) {
            Option::None => {
                return Result::Err(RemapError::UnknownObjectId { obj_id: o.obj_id });
            },
            Option::Some((ow, oh)) => {
                let ghost pre_warn = warnings@;
                if (ow as u32) + 2 * (margin as u32) > (crop_width as u32) {
                    warnings.push(MarginWarning { window: false, horizontal: true, id: o.obj_id });
                }
                if (oh as u32) + 2 * (margin as u32) > (crop_height as u32) {
                    warnings.push(MarginWarning { window: false, horizontal: false, id: o.obj_id });
                }
                let nx = cropped_offset(full_w, crop_width, ow, o.x, margin);
                let ny = cropped_offset(full_h, crop_height, oh, o.y, margin);
                new_objs.push(
                    CompObj { obj_id: o.obj_id, win_id: o.win_id, x: nx, y: ny, crop: o.crop },
                );
                proof {
                    assert(warnings@ =~= obj_warn_seq(
                        ds.comp_objs@,
                        ds.objects@,
                        crop_width as int,
                        crop_height as int,
                        margin as int,
                        i as int + 1,
                    ));
                }
            },
        }
        i = i + 1;
    }
    let ghost obj_warns = warnings@;
    let mut new_wins: Vec<WinDef> = Vec::new();
    let nw = ds.windows.len();
    let mut j: usize = 0;
    proof {
        assert(win_warn_seq(
            ds.windows@,
            crop_width as int,
            crop_height as int,
            margin as int,
            0,
        ) =~= Seq::<MarginWarning>::empty());
        assert(warnings@ =~= obj_warns + win_warn_seq(
            ds.windows@,
            crop_width as int,
            crop_height as int,
            margin as int,
            0,
        ));
    }
    while j < nw
        invariant
            j <= nw,
            nw == ds.windows@.len(),
            ds@ == old(ds)@,
            crop_width <= full_w == ds@.width,
            crop_height <= full_h == ds@.height,
            new_wins@.len() == j,
            forall|k: int|
                0 <= k < j ==> {
                    let w = ds@.windows[k];
                    let fw = #[trigger] new_wins@[k];
                    &&& fw.id == w.id
                    &&& fw.width == w.width
                    &&& fw.height == w.height
                    &&& fw.x as int == spec_cropped_offset(
                        ds@.width as int,
                        crop_width as int,
                        w.width as int,
                        w.x as int,
                        margin as int,
                    )
                    &&& fw.y as int == spec_cropped_offset(
                        ds@.height as int,
                        crop_height as int,
                        w.height as int,
                        w.y as int,
                        margin as int,
                    )
                },
            warnings@ == obj_warns + win_warn_seq(
                ds.windows@,
                crop_width as int,
                crop_height as int,
                margin as int,
                j as int,
            ),
        decreases nw - j,
    {
        let w = ds.windows[j];
        let ghost pre_warn = warnings@;
        if (w.width as u32) + 2 * (margin as u32) > (crop_width as u32) {
            warnings.push(MarginWarning { window: true, horizontal: true, id: w.id as u16 });
        }
        if (w.height as u32) + 2 * (margin as u32) > (crop_height as u32) {
            warnings.push(MarginWarning { window: true, horizontal: false, id: w.id as u16 });
        }
        let nx = cropped_offset(full_w, crop_width, w.width, w.x, margin);
        let ny = cropped_offset(full_h, crop_height, w.height, w.y, margin);
        new_wins.push(WinDef { id: w.id, x: nx, y: ny, width: w.width, height: w.height });
        proof {
            assert(warnings@ =~= obj_warns + win_warn_seq(
                ds.windows@,
                crop_width as int,
                crop_height as int,
                margin as int,
                j as int + 1,
            ));
        }
        j = j + 1;
    }
    ds.comp_objs = new_objs;
    ds.windows = new_wins;
    ds.width = crop_width;
    ds.height = crop_height;
    proof {
        assert(remapped(old(ds)@, ds@, crop_width, crop_height, margin));
        assert(warnings@ == obj_warn_seq(
            old(ds)@.comp_objs,
            old(ds)@.objects,
            crop_width as int,
            crop_height as int,
            margin as int,
            old(ds)@.comp_objs.len() as int,
        ) + win_warn_seq(
            old(ds)@.windows,
            crop_width as int,
            crop_height as int,
            margin as int,
            old(ds)@.windows.len() as int,
        ));
    }
    match check_window_collisions(&ds.windows) {
        Option::Some((a, b)) => {
            let first_id = ds.windows[a].id;
            let second_id = ds.windows[b].id;
            Result::Err(RemapError::WindowCollision { pts: ds.pts, first_id, second_id })
        },
        Option::None => Result::Ok(warnings),
    }
}

/// Splits a 90 kHz presentation timestamp into hours, minutes, seconds and
/// milliseconds, for reporting a fatal collision as a human-readable time
/// code.
pub fn timestamp_parts(pts: u32) -> (r: (u32, u32, u32, u32))
    ensures
        r.0 == pts as int / 90 / 3600000,
        r.1 == (pts as int / 90 / 60000) % 60,
        r.2 == (pts as int / 90 / 1000) % 60,
        r.3 == (pts as int / 90) % 1000,
{
    let ms = pts / 90;
    (ms / 3600000, (ms / 60000) % 60, (ms / 1000) % 60, ms % 1000)
}

} // verus!
