use pgsmod::seg::{
    CompObj, CompState, CropRect, ObjDefSeg, PalDefSeg, PalEntry, PresCompSeg, ReadExt, Seg,
    SegBody, SegError, SegReader, WinDef, encode_seg,
};

fn decode_one(bytes: Vec<u8>) -> Result<Option<Seg>, SegError> {
    let mut r = SegReader::new(bytes);
    r.read_seg()
}

fn round_trip(seg: Seg) {
    let bytes = encode_seg(&seg);
    let mut r = SegReader::new(bytes.clone());
    let got = r.read_seg().unwrap().unwrap();
    assert_eq!(got, seg);
    let again = encode_seg(&got);
    assert_eq!(again, bytes);
    assert!(matches!(r.read_seg(), Ok(None)));
}

#[test]
fn round_trip_pres_comp() {
    round_trip(Seg {
        pts: 0x01020304,
        dts: 0x0a0b0c0d,
        body: SegBody::PresComp(PresCompSeg {
            width: 1920,
            height: 1080,
            comp_num: 7,
            comp_state: CompState::EpochStart,
            pal_update: true,
            pal_id: 3,
            comp_objs: vec![
                CompObj { obj_id: 1, win_id: 0, x: 10, y: 20, crop: None },
                CompObj {
                    obj_id: 2,
                    win_id: 1,
                    x: 30,
                    y: 40,
                    crop: Some(CropRect { x: 1, y: 2, width: 3, height: 4 }),
                },
            ],
        }),
    });
}

#[test]
fn round_trip_win_def() {
    round_trip(Seg {
        pts: 90000,
        dts: 0,
        body: SegBody::WinDef(vec![
            WinDef { id: 0, x: 0, y: 0, width: 100, height: 50 },
            WinDef { id: 1, x: 600, y: 700, width: 320, height: 240 },
        ]),
    });
}

#[test]
fn round_trip_pal_def() {
    round_trip(Seg {
        pts: 1,
        dts: 2,
        body: SegBody::PalDef(PalDefSeg {
            id: 0,
            version: 1,
            entries: vec![
                PalEntry { index: 0, y: 16, cr: 128, cb: 128, alpha: 255 },
                PalEntry { index: 1, y: 235, cr: 12, cb: 240, alpha: 0 },
            ],
        }),
    });
}

#[test]
fn round_trip_obj_def() {
    round_trip(Seg {
        pts: 3,
        dts: 4,
        body: SegBody::ObjDef(ObjDefSeg {
            id: 9,
            version: 0,
            seq_flag: 0xc0,
            width: 64,
            height: 32,
            payload: vec![0xde, 0xad, 0xbe, 0xef, 0x00],
        }),
    });
}

#[test]
fn round_trip_end() {
    round_trip(Seg { pts: 5, dts: 6, body: SegBody::End });
}

#[test]
fn empty_input_is_clean_end() {
    assert!(matches!(decode_one(Vec::new()), Ok(None)));
}

#[test]
fn bad_magic_is_rejected() {
    let mut bytes = encode_seg(&Seg { pts: 0, dts: 0, body: SegBody::End });
    bytes[0] = 0x51;
    assert_eq!(decode_one(bytes).unwrap_err(), SegError::UnrecognizedMagicNumber);
}

#[test]
fn unknown_kind_is_rejected() {
    let mut bytes = encode_seg(&Seg { pts: 0, dts: 0, body: SegBody::End });
    bytes[10] = 0x42;
    assert_eq!(decode_one(bytes).unwrap_err(), SegError::UnrecognizedKind);
}

#[test]
fn truncated_header_is_premature_eof() {
    let bytes = encode_seg(&Seg { pts: 0, dts: 0, body: SegBody::End });
    for cut in 1..13 {
        let prefix = bytes[..cut].to_vec();
        assert_eq!(decode_one(prefix).unwrap_err(), SegError::PrematureEof);
    }
}

#[test]
fn truncated_body_is_premature_eof() {
    let seg = Seg {
        pts: 0,
        dts: 0,
        body: SegBody::WinDef(vec![WinDef { id: 0, x: 1, y: 2, width: 3, height: 4 }]),
    };
    let bytes = encode_seg(&seg);
    let prefix = bytes[..bytes.len() - 1].to_vec();
    assert_eq!(decode_one(prefix).unwrap_err(), SegError::PrematureEof);
}

#[test]
fn end_with_nonzero_size_is_rejected() {
    // An End segment declaring a one-byte body.
    let bytes = vec![0x50, 0x47, 0, 0, 0, 0, 0, 0, 0, 0, 0x80, 0x00, 0x01, 0xff];
    assert_eq!(decode_one(bytes).unwrap_err(), SegError::InvalidBodySize);
}

#[test]
fn bad_frame_rate_is_rejected() {
    let seg = Seg {
        pts: 0,
        dts: 0,
        body: SegBody::PresComp(PresCompSeg {
            width: 10,
            height: 10,
            comp_num: 0,
            comp_state: CompState::Normal,
            pal_update: false,
            pal_id: 0,
            comp_objs: Vec::new(),
        }),
    };
    let mut bytes = encode_seg(&seg);
    bytes[13 + 4] = 0x20;
    assert_eq!(decode_one(bytes).unwrap_err(), SegError::UnrecognizedFrameRate);
}

#[test]
fn bad_composition_state_is_rejected() {
    let seg = Seg {
        pts: 0,
        dts: 0,
        body: SegBody::PresComp(PresCompSeg {
            width: 10,
            height: 10,
            comp_num: 0,
            comp_state: CompState::Normal,
            pal_update: false,
            pal_id: 0,
            comp_objs: Vec::new(),
        }),
    };
    let mut bytes = encode_seg(&seg);
    bytes[13 + 7] = 0x55;
    assert_eq!(decode_one(bytes).unwrap_err(), SegError::UnrecognizedCompositionState);
}

#[test]
fn bad_palette_update_flag_is_rejected() {
    let seg = Seg {
        pts: 0,
        dts: 0,
        body: SegBody::PresComp(PresCompSeg {
            width: 10,
            height: 10,
            comp_num: 0,
            comp_state: CompState::Normal,
            pal_update: false,
            pal_id: 0,
            comp_objs: Vec::new(),
        }),
    };
    let mut bytes = encode_seg(&seg);
    bytes[13 + 8] = 0x01;
    assert_eq!(decode_one(bytes).unwrap_err(), SegError::UnrecognizedPaletteUpdateFlag);
}

#[test]
fn bad_cropped_flag_is_rejected() {
    let seg = Seg {
        pts: 0,
        dts: 0,
        body: SegBody::PresComp(PresCompSeg {
            width: 10,
            height: 10,
            comp_num: 0,
            comp_state: CompState::Normal,
            pal_update: false,
            pal_id: 0,
            comp_objs: vec![CompObj { obj_id: 0, win_id: 0, x: 0, y: 0, crop: None }],
        }),
    };
    let mut bytes = encode_seg(&seg);
    // The cropped-flag byte of the first composition-object record.
    bytes[13 + 11 + 3] = 0x01;
    assert_eq!(decode_one(bytes).unwrap_err(), SegError::UnrecognizedCroppedFlag);
}

#[test]
fn pcs_body_size_mismatch_is_rejected() {
    let seg = Seg {
        pts: 0,
        dts: 0,
        body: SegBody::PresComp(PresCompSeg {
            width: 10,
            height: 10,
            comp_num: 0,
            comp_state: CompState::Normal,
            pal_update: false,
            pal_id: 0,
            comp_objs: Vec::new(),
        }),
    };
    let mut bytes = encode_seg(&seg);
    // Claim two composition objects while the body carries none.
    bytes[13 + 10] = 2;
    assert_eq!(decode_one(bytes).unwrap_err(), SegError::InvalidBodySize);
}

#[test]
fn pds_body_size_mismatch_is_rejected() {
    // Palette body of 4 bytes: 2 header bytes plus 2 stray bytes, which is
    // no whole number of 5-byte entries.
    let bytes = vec![
        0x50, 0x47, 0, 0, 0, 0, 0, 0, 0, 0, 0x14, 0x00, 0x04, 0x01, 0x00, 0xaa, 0xbb,
    ];
    assert_eq!(decode_one(bytes).unwrap_err(), SegError::InvalidBodySize);
}

#[test]
fn ods_payload_length_mismatch_is_rejected() {
    let seg = Seg {
        pts: 0,
        dts: 0,
        body: SegBody::ObjDef(ObjDefSeg {
            id: 1,
            version: 0,
            seq_flag: 0,
            width: 8,
            height: 8,
            payload: vec![1, 2, 3],
        }),
    };
    let mut bytes = encode_seg(&seg);
    // Declare one payload byte more than the body holds.
    bytes[13 + 6] = 4;
    assert_eq!(decode_one(bytes).unwrap_err(), SegError::InvalidBodySize);
}

#[test]
fn reader_walks_consecutive_segments() {
    let a = Seg { pts: 1, dts: 0, body: SegBody::End };
    let b = Seg { pts: 2, dts: 0, body: SegBody::End };
    let mut bytes = encode_seg(&a);
    bytes.extend_from_slice(&encode_seg(&b));
    let mut r = SegReader::new(bytes);
    assert_eq!(r.read_seg().unwrap().unwrap().pts, 1);
    assert_eq!(r.read_seg().unwrap().unwrap().pts, 2);
    assert!(matches!(r.read_seg(), Ok(None)));
}
