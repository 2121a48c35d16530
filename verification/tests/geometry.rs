use pgsmod::displayset::DisplaySet;
use pgsmod::remap::{
    MarginWarning, RemapError, check_window_collisions, cropped_offset, remap_display_set,
    timestamp_parts,
};
use pgsmod::seg::{CompObj, CompState, ObjDefSeg, WinDef};

fn empty_set(width: u16, height: u16) -> DisplaySet {
    DisplaySet {
        pts: 0,
        dts: 0,
        width,
        height,
        comp_num: 0,
        comp_state: CompState::Normal,
        pal_update: false,
        pal_id: 0,
        comp_objs: Vec::new(),
        windows: Vec::new(),
        palettes: Vec::new(),
        objects: Vec::new(),
    }
}

#[test]
fn no_crop_is_identity() {
    // Keeping the full 1920 frame leaves any offset that respects the
    // margins unchanged.
    assert_eq!(cropped_offset(1920, 1920, 100, 500, 30), 500);
    assert_eq!(cropped_offset(1920, 1920, 0, 30, 30), 30);
    assert_eq!(cropped_offset(1920, 1920, 200, 1690, 30), 1690);
}

#[test]
fn clamps_into_margin_range() {
    let r = cropped_offset(1920, 1280, 100, 960, 30);
    assert_eq!(r, 640);
    assert!(30 <= r && r <= 1150);
}

#[test]
fn clamps_to_lower_margin() {
    // 10 - (1920 - 1280) / 2 is far below the margin.
    assert_eq!(cropped_offset(1920, 1280, 100, 10, 30), 30);
}

#[test]
fn clamps_to_upper_margin() {
    // 900 - (1080 - 800) / 2 = 760, and 760 + 200 + 30 exceeds 800.
    assert_eq!(cropped_offset(1080, 800, 200, 900, 30), 570);
}

#[test]
fn margin_violation_forces_zero() {
    // 1250 + 2 * 30 > 1280: the item cannot fit between the margins.
    assert_eq!(cropped_offset(1920, 1280, 1250, 500, 30), 0);
    assert_eq!(cropped_offset(1920, 1280, 1221, 0, 30), 0);
}

#[test]
fn separated_windows_never_collide() {
    let ws = vec![
        WinDef { id: 0, x: 0, y: 0, width: 100, height: 100 },
        WinDef { id: 1, x: 200, y: 200, width: 50, height: 50 },
    ];
    assert!(check_window_collisions(&ws).is_none());
}

#[test]
fn contained_corner_always_collides() {
    let ws = vec![
        WinDef { id: 0, x: 0, y: 0, width: 100, height: 100 },
        WinDef { id: 1, x: 50, y: 50, width: 300, height: 300 },
    ];
    assert!(check_window_collisions(&ws).is_some());
}

#[test]
fn touching_edge_counts_as_collision() {
    // The boundary is inclusive: a corner exactly on the edge collides.
    let ws = vec![
        WinDef { id: 0, x: 0, y: 0, width: 100, height: 100 },
        WinDef { id: 1, x: 100, y: 100, width: 10, height: 10 },
    ];
    assert!(check_window_collisions(&ws).is_some());
}

#[test]
fn remap_rejects_expansion() {
    let mut ds = empty_set(1280, 720);
    let res = remap_display_set(&mut ds, 1920, 720, 30);
    assert_eq!(res.unwrap_err(), RemapError::CropLargerThanFrame);
    assert_eq!(ds.width, 1280);
}

#[test]
fn remap_rejects_unknown_object_id() {
    let mut ds = empty_set(1920, 1080);
    ds.comp_objs.push(CompObj { obj_id: 5, win_id: 0, x: 0, y: 0, crop: None });
    let res = remap_display_set(&mut ds, 1920, 800, 30);
    assert_eq!(res.unwrap_err(), RemapError::UnknownObjectId { obj_id: 5 });
    // The set is left unchanged on this fatal error.
    assert_eq!(ds.width, 1920);
    assert_eq!(ds.comp_objs[0].x, 0);
}

#[test]
fn remap_uses_largest_object_variant() {
    let mut ds = empty_set(1920, 1080);
    ds.comp_objs.push(CompObj { obj_id: 5, win_id: 0, x: 100, y: 900, crop: None });
    ds.objects.push(ObjDefSeg {
        id: 5,
        version: 0,
        seq_flag: 0,
        width: 300,
        height: 100,
        payload: Vec::new(),
    });
    ds.objects.push(ObjDefSeg {
        id: 5,
        version: 1,
        seq_flag: 0,
        width: 250,
        height: 200,
        payload: Vec::new(),
    });
    let warnings = remap_display_set(&mut ds, 1920, 800, 30).unwrap();
    assert!(warnings.is_empty());
    // The bounding size is 300 wide and 200 high across both variants:
    // x stays (no horizontal crop), y clamps to 800 - 200 - 30.
    assert_eq!(ds.comp_objs[0].x, 100);
    assert_eq!(ds.comp_objs[0].y, 570);
    assert_eq!(ds.width, 1920);
    assert_eq!(ds.height, 800);
}

#[test]
fn remap_reports_margin_warning_and_degrades_to_zero() {
    let mut ds = empty_set(1920, 1080);
    ds.windows.push(WinDef { id: 2, x: 10, y: 10, width: 1900, height: 100 });
    let warnings = remap_display_set(&mut ds, 1280, 800, 30).unwrap();
    assert_eq!(
        warnings,
        vec![MarginWarning { window: true, horizontal: true, id: 2 }],
    );
    // The width cannot fit 1280 with two 30-pixel margins: offset forced to 0.
    assert_eq!(ds.windows[0].x, 0);
    // The height fits; 10 - (1080 - 800) / 2 is below the margin, so 30.
    assert_eq!(ds.windows[0].y, 30);
}

#[test]
fn remap_detects_window_collision() {
    let mut ds = empty_set(1920, 1080);
    ds.pts = 900000;
    ds.windows.push(WinDef { id: 0, x: 0, y: 300, width: 800, height: 300 });
    ds.windows.push(WinDef { id: 1, x: 100, y: 350, width: 500, height: 200 });
    let err = remap_display_set(&mut ds, 1920, 800, 30).unwrap_err();
    match err {
        RemapError::WindowCollision { pts, .. } => assert_eq!(pts, 900000),
        other => panic!("expected a window collision, got {:?}", other),
    }
}

#[test]
fn timestamp_parts_splits_ticks() {
    // 2 h 3 min 4 s 567 ms at 90 kHz.
    let ms = (2 * 3600 + 3 * 60 + 4) * 1000 + 567;
    let (h, m, s, milli) = timestamp_parts(90 * ms);
    assert_eq!((h, m, s, milli), (2, 3, 4, 567));
}
