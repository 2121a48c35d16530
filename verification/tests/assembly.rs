use pgsmod::displayset::{check_writable, observe_resolution, read_display_set, write_display_set};
use pgsmod::remap::{RemapError, remap_display_set, timestamp_parts};
use pgsmod::seg::{
    CompObj, CompState, ObjDefSeg, PalDefSeg, PalEntry, PresCompSeg, Seg, SegBody, SegError,
    SegReader, WinDef, encode_seg,
};

fn pcs(pts: u32, width: u16, height: u16, comp_objs: Vec<CompObj>) -> Seg {
    Seg {
        pts,
        dts: 0,
        body: SegBody::PresComp(PresCompSeg {
            width,
            height,
            comp_num: 1,
            comp_state: CompState::EpochStart,
            pal_update: false,
            pal_id: 0,
            comp_objs,
        }),
    }
}

fn stream(segs: &[Seg]) -> SegReader {
    let mut bytes = Vec::new();
    for seg in segs {
        bytes.extend_from_slice(&encode_seg(seg));
    }
    SegReader::new(bytes)
}

#[test]
fn assembles_one_display_set() {
    let segs = [
        pcs(1000, 1920, 1080, vec![CompObj { obj_id: 7, win_id: 1, x: 5, y: 6, crop: None }]),
        Seg {
            pts: 1000,
            dts: 0,
            body: SegBody::WinDef(vec![WinDef { id: 1, x: 10, y: 20, width: 30, height: 40 }]),
        },
        Seg {
            pts: 1000,
            dts: 0,
            body: SegBody::PalDef(PalDefSeg {
                id: 0,
                version: 0,
                entries: vec![PalEntry { index: 0, y: 16, cr: 128, cb: 128, alpha: 255 }],
            }),
        },
        Seg {
            pts: 1000,
            dts: 0,
            body: SegBody::ObjDef(ObjDefSeg {
                id: 7,
                version: 0,
                seq_flag: 0,
                width: 30,
                height: 40,
                payload: vec![1, 2, 3],
            }),
        },
        Seg { pts: 1000, dts: 0, body: SegBody::End },
    ];
    let mut r = stream(&segs);
    let ds = read_display_set(&mut r).unwrap().unwrap();
    assert_eq!(ds.pts, 1000);
    assert_eq!(ds.width, 1920);
    assert_eq!(ds.height, 1080);
    assert_eq!(ds.comp_objs.len(), 1);
    assert_eq!(ds.comp_objs[0].obj_id, 7);
    assert_eq!(ds.windows.len(), 1);
    assert_eq!(ds.palettes.len(), 1);
    assert_eq!(ds.objects.len(), 1);
    assert!(read_display_set(&mut r).unwrap().is_none());
}

#[test]
fn later_window_definition_replaces_same_id() {
    let segs = [
        pcs(0, 1920, 1080, Vec::new()),
        Seg {
            pts: 0,
            dts: 0,
            body: SegBody::WinDef(vec![WinDef { id: 1, x: 1, y: 1, width: 1, height: 1 }]),
        },
        Seg {
            pts: 0,
            dts: 0,
            body: SegBody::WinDef(vec![
                WinDef { id: 1, x: 9, y: 9, width: 9, height: 9 },
                WinDef { id: 2, x: 2, y: 2, width: 2, height: 2 },
            ]),
        },
        Seg { pts: 0, dts: 0, body: SegBody::End },
    ];
    let ds = read_display_set(&mut stream(&segs)).unwrap().unwrap();
    assert_eq!(ds.windows.len(), 2);
    assert_eq!(ds.windows[0].x, 9);
    assert_eq!(ds.windows[1].id, 2);
}

#[test]
fn truncation_inside_a_set_is_fatal() {
    let segs = [pcs(0, 1920, 1080, Vec::new()), Seg { pts: 0, dts: 0, body: SegBody::End }];
    let mut bytes = Vec::new();
    for seg in &segs {
        bytes.extend_from_slice(&encode_seg(seg));
    }
    bytes.pop();
    let mut r = SegReader::new(bytes);
    assert_eq!(read_display_set(&mut r).unwrap_err(), SegError::PrematureEof);
}

#[test]
fn written_set_reads_back_equal() {
    let segs = [
        pcs(42, 1280, 720, vec![CompObj { obj_id: 3, win_id: 0, x: 1, y: 2, crop: None }]),
        Seg {
            pts: 42,
            dts: 0,
            body: SegBody::WinDef(vec![WinDef { id: 0, x: 3, y: 4, width: 5, height: 6 }]),
        },
        Seg {
            pts: 42,
            dts: 0,
            body: SegBody::ObjDef(ObjDefSeg {
                id: 3,
                version: 0,
                seq_flag: 0,
                width: 5,
                height: 6,
                payload: vec![9],
            }),
        },
        Seg { pts: 42, dts: 0, body: SegBody::End },
    ];
    let ds = read_display_set(&mut stream(&segs)).unwrap().unwrap();
    assert!(check_writable(&ds));
    let bytes = write_display_set(&ds);
    let ds2 = read_display_set(&mut SegReader::new(bytes)).unwrap().unwrap();
    assert_eq!(ds2.pts, ds.pts);
    assert_eq!(ds2.width, ds.width);
    assert_eq!(ds2.height, ds.height);
    assert_eq!(ds2.comp_objs, ds.comp_objs);
    assert_eq!(ds2.windows, ds.windows);
    assert_eq!(ds2.palettes, ds.palettes);
    assert_eq!(ds2.objects, ds.objects);
}

#[test]
fn end_to_end_reposition_against_upper_bound() {
    // A display set at 1920x1080 whose one composition object sits at y=900
    // with a 200-pixel-high object, cropped to 1920x800 with margin 30: the
    // naive shifted offset 760 would exceed the upper bound, so the object
    // lands at 800 - 200 - 30 = 570.
    let segs = [
        pcs(0, 1920, 1080, vec![CompObj { obj_id: 0, win_id: 0, x: 100, y: 900, crop: None }]),
        Seg {
            pts: 0,
            dts: 0,
            body: SegBody::ObjDef(ObjDefSeg {
                id: 0,
                version: 0,
                seq_flag: 0,
                width: 300,
                height: 200,
                payload: Vec::new(),
            }),
        },
        Seg { pts: 0, dts: 0, body: SegBody::End },
    ];
    let mut ds = read_display_set(&mut stream(&segs)).unwrap().unwrap();
    let warnings = remap_display_set(&mut ds, 1920, 800, 30).unwrap();
    assert!(warnings.is_empty());
    assert_eq!(ds.comp_objs[0].y, 570);
    assert_eq!(ds.comp_objs[0].x, 100);
    assert_eq!((ds.width, ds.height), (1920, 800));
}

#[test]
fn end_to_end_collision_names_the_timestamp() {
    // The same stream, but with two windows whose remapped rectangles
    // overlap: the conversion of this display set must fail with a collision
    // naming the set's presentation timestamp.
    let segs = [
        pcs(
            900000,
            1920,
            1080,
            vec![CompObj { obj_id: 0, win_id: 0, x: 100, y: 900, crop: None }],
        ),
        Seg {
            pts: 900000,
            dts: 0,
            body: SegBody::WinDef(vec![
                WinDef { id: 0, x: 0, y: 300, width: 800, height: 300 },
                WinDef { id: 1, x: 100, y: 350, width: 500, height: 200 },
            ]),
        },
        Seg {
            pts: 900000,
            dts: 0,
            body: SegBody::ObjDef(ObjDefSeg {
                id: 0,
                version: 0,
                seq_flag: 0,
                width: 300,
                height: 200,
                payload: Vec::new(),
            }),
        },
        Seg { pts: 900000, dts: 0, body: SegBody::End },
    ];
    let mut ds = read_display_set(&mut stream(&segs)).unwrap().unwrap();
    let err = remap_display_set(&mut ds, 1920, 800, 30).unwrap_err();
    match err {
        RemapError::WindowCollision { pts, .. } => {
            assert_eq!(pts, 900000);
            assert_eq!(timestamp_parts(pts), (0, 0, 10, 0));
        },
        other => panic!("expected a window collision, got {:?}", other),
    }
}

#[test]
fn later_palette_replaces_same_id_and_object_variants_coexist() {
    let segs = [
        pcs(0, 1920, 1080, Vec::new()),
        Seg {
            pts: 0,
            dts: 0,
            body: SegBody::PalDef(PalDefSeg { id: 4, version: 0, entries: Vec::new() }),
        },
        Seg {
            pts: 0,
            dts: 0,
            body: SegBody::PalDef(PalDefSeg {
                id: 4,
                version: 1,
                entries: vec![PalEntry { index: 0, y: 1, cr: 2, cb: 3, alpha: 4 }],
            }),
        },
        Seg {
            pts: 0,
            dts: 0,
            body: SegBody::ObjDef(ObjDefSeg {
                id: 6,
                version: 0,
                seq_flag: 0,
                width: 10,
                height: 10,
                payload: Vec::new(),
            }),
        },
        Seg {
            pts: 0,
            dts: 0,
            body: SegBody::ObjDef(ObjDefSeg {
                id: 6,
                version: 1,
                seq_flag: 0,
                width: 20,
                height: 5,
                payload: Vec::new(),
            }),
        },
        Seg { pts: 0, dts: 0, body: SegBody::End },
    ];
    let ds = read_display_set(&mut stream(&segs)).unwrap().unwrap();
    // The second palette definition replaced the first under the same id.
    assert_eq!(ds.palettes.len(), 1);
    assert_eq!(ds.palettes[0].version, 1);
    assert_eq!(ds.palettes[0].entries.len(), 1);
    // Both resolution variants of object 6 stay registered.
    assert_eq!(ds.objects.len(), 2);
}

#[test]
fn input_ending_at_a_boundary_terminates_normally() {
    // The input ends exactly before a new segment's header, here with an
    // unclosed set pending: that is normal termination, not an error.
    let segs = [pcs(0, 1920, 1080, Vec::new())];
    let mut r = stream(&segs);
    assert!(read_display_set(&mut r).unwrap().is_none());
}

#[test]
fn empty_tables_round_trip_through_serialization() {
    let segs = [pcs(7, 720, 576, Vec::new()), Seg { pts: 7, dts: 0, body: SegBody::End }];
    let ds = read_display_set(&mut stream(&segs)).unwrap().unwrap();
    assert!(check_writable(&ds));
    let bytes = write_display_set(&ds);
    let ds2 = read_display_set(&mut SegReader::new(bytes)).unwrap().unwrap();
    assert_eq!(ds2.pts, 7);
    assert_eq!((ds2.width, ds2.height), (720, 576));
    assert!(ds2.comp_objs.is_empty());
    assert!(ds2.windows.is_empty());
    assert!(ds2.palettes.is_empty());
    assert!(ds2.objects.is_empty());
}

#[test]
fn observe_resolution_reports_only_unseen_sizes() {
    let mut sizes: Vec<(u16, u16)> = Vec::new();
    assert!(observe_resolution(&mut sizes, 1920, 1080));
    assert!(!observe_resolution(&mut sizes, 1920, 1080));
    assert!(observe_resolution(&mut sizes, 1280, 720));
    assert_eq!(sizes, vec![(1920, 1080), (1280, 720)]);
}
