//! Binary segment codec for Presentation Graphics Stream (PGS) subtitle data.
//!
//! Every segment starts with the magic number 0x5047, followed by a 32-bit
//! presentation timestamp, a 32-bit decoding timestamp, a one-byte kind tag,
//! a 16-bit body size and a kind-specific body of exactly that size. All
//! multi-byte fields are big-endian. The spec functions in this module give
//! the exact byte image of each segment; the decoder's contract states that
//! any segment it accepts reads back as precisely the bytes it came from,
//! and the encoder's contract states that it emits precisely that image.

use vstd::prelude::*;

verus! {

/// Why a segment could not be read from the input bytes.
#[derive(Clone, Copy, PartialEq, Eq, Structural, Debug)]
pub enum SegError {
    /// The input ends inside a segment (not at a segment boundary).
    PrematureEof,
    /// The two leading bytes are not the magic number 0x5047.
    UnrecognizedMagicNumber,
    /// The kind tag names no known segment kind.
    UnrecognizedKind,
    /// A presentation composition carries a frame-rate byte other than the
    /// single value the format uses.
    UnrecognizedFrameRate,
    /// A presentation composition carries an unknown composition-state byte.
    UnrecognizedCompositionState,
    /// A presentation composition carries an unknown palette-update byte.
    UnrecognizedPaletteUpdateFlag,
    /// A composition object carries an unknown cropped-flag byte.
    UnrecognizedCroppedFlag,
    /// The declared body size disagrees with the body's actual content.
    InvalidBodySize,
}

pub type SegResult<T> = Result<T, SegError>;

/// Composition state of a presentation composition segment.
#[derive(Clone, Copy, PartialEq, Eq, Structural, Debug)]
pub enum CompState {
    Normal,
    AcquisitionPoint,
    EpochStart,
}

/// Optional crop sub-rectangle of a composition object.
#[derive(Clone, Copy, PartialEq, Eq, Structural, Debug)]
pub struct CropRect {
    pub x: u16,
    pub y: u16,
    pub width: u16,
    pub height: u16,
}

/// A reference placing one bitmap object inside one window at a position.
#[derive(Clone, Copy, PartialEq, Eq, Debug)]
pub struct CompObj {
    pub obj_id: u16,
    pub win_id: u8,
    pub x: u16,
    pub y: u16,
    pub crop: Option<CropRect>,
}

/// Body of a presentation composition segment.
#[derive(Clone, PartialEq, Eq, Debug)]
pub struct PresCompSeg {
    pub width: u16,
    pub height: u16,
    pub comp_num: u16,
    pub comp_state: CompState,
    pub pal_update: bool,
    pub pal_id: u8,
    pub comp_objs: Vec<CompObj>,
}

/// One window record of a window definition segment.
#[derive(Clone, Copy, PartialEq, Eq, Structural, Debug)]
pub struct WinDef {
    pub id: u8,
    pub x: u16,
    pub y: u16,
    pub width: u16,
    pub height: u16,
}

/// One palette entry: luma, chroma and alpha bytes under an index.
#[derive(Clone, Copy, PartialEq, Eq, Structural, Debug)]
pub struct PalEntry {
    pub index: u8,
    pub y: u8,
    pub cr: u8,
    pub cb: u8,
    pub alpha: u8,
}

/// Body of a palette definition segment.
#[derive(Clone, PartialEq, Eq, Debug)]
pub struct PalDefSeg {
    pub id: u8,
    pub version: u8,
    pub entries: Vec<PalEntry>,
}

/// Body of an object definition segment. The run-length-compressed pixel
/// payload is carried through opaquely, unmodified.
#[derive(Clone, PartialEq, Eq, Debug)]
pub struct ObjDefSeg {
    pub id: u16,
    pub version: u8,
    pub seq_flag: u8,
    pub width: u16,
    pub height: u16,
    pub payload: Vec<u8>,
}

/// The kind-specific body of a segment.
#[derive(Clone, PartialEq, Eq, Debug)]
pub enum SegBody {
    PresComp(PresCompSeg),
    WinDef(Vec<WinDef>),
    PalDef(PalDefSeg),
    ObjDef(ObjDefSeg),
    End,
}

/// One segment: timestamps, kind and body.
#[derive(Clone, PartialEq, Eq, Debug)]
pub struct Seg {
    pub pts: u32,
    pub dts: u32,
    pub body: SegBody,
}

pub const MAGIC_HI: u8 = 0x50;
pub const MAGIC_LO: u8 = 0x47;
pub const KIND_PDS: u8 = 0x14;
pub const KIND_ODS: u8 = 0x15;
pub const KIND_PCS: u8 = 0x16;
pub const KIND_WDS: u8 = 0x17;
pub const KIND_END: u8 = 0x80;
pub const FRAME_RATE_BYTE: u8 = 0x10;

// ---------------------------------------------------------------------------
// Byte images: the exact encoding of every value, stated as spec functions.
// ---------------------------------------------------------------------------

pub open spec fn spec_u16_be(v: u16) -> Seq<u8> {
    seq![(v / 256) as u8, (v % 256) as u8]
}

pub open spec fn spec_u24_be(v: u32) -> Seq<u8> {
    seq![((v / 0x10000) % 256) as u8, ((v / 256) % 256) as u8, (v % 256) as u8]
}

pub open spec fn spec_u32_be(v: u32) -> Seq<u8> {
    seq![
        ((v / 0x1000000) % 256) as u8,
        ((v / 0x10000) % 256) as u8,
        ((v / 256) % 256) as u8,
        (v % 256) as u8,
    ]
}

pub open spec fn spec_comp_state_byte(s: CompState) -> u8 {
    match s {
        CompState::Normal => 0x00,
        CompState::AcquisitionPoint => 0x40,
        CompState::EpochStart => 0x80,
    }
}

pub open spec fn spec_comp_obj_bytes(o: CompObj) -> Seq<u8> {
    let head = spec_u16_be(o.obj_id) + seq![o.win_id] + seq![
        if o.crop is Some { 0x40u8 } else { 0x00u8 },
    ] + spec_u16_be(o.x) + spec_u16_be(o.y);
    match o.crop {
        Option::Some(c) => head + spec_u16_be(c.x) + spec_u16_be(c.y) + spec_u16_be(c.width)
            + spec_u16_be(c.height),
        Option::None => head,
    }
}

pub open spec fn spec_comp_objs_bytes(objs: Seq<CompObj>) -> Seq<u8>
    decreases objs.len(),
{
    if objs.len() == 0 {
        Seq::<u8>::empty()
    } else {
        spec_comp_objs_bytes(objs.drop_last()) + spec_comp_obj_bytes(objs.last())
    }
}

pub open spec fn spec_pcs_body_parts(
    width: u16,
    height: u16,
    comp_num: u16,
    comp_state: CompState,
    pal_update: bool,
    pal_id: u8,
    objs: Seq<CompObj>,
) -> Seq<u8> {
    spec_u16_be(width) + spec_u16_be(height) + seq![FRAME_RATE_BYTE] + spec_u16_be(comp_num)
        + seq![spec_comp_state_byte(comp_state)] + seq![if pal_update { 0x80u8 } else { 0x00u8 }]
        + seq![pal_id] + seq![objs.len() as u8] + spec_comp_objs_bytes(objs)
}

pub open spec fn spec_pcs_body(p: PresCompSeg) -> Seq<u8> {
    spec_pcs_body_parts(
        p.width,
        p.height,
        p.comp_num,
        p.comp_state,
        p.pal_update,
        p.pal_id,
        p.comp_objs@,
    )
}

pub open spec fn spec_win_bytes(w: WinDef) -> Seq<u8> {
    seq![w.id] + spec_u16_be(w.x) + spec_u16_be(w.y) + spec_u16_be(w.width) + spec_u16_be(w.height)
}

pub open spec fn spec_wins_bytes(ws: Seq<WinDef>) -> Seq<u8>
    decreases ws.len(),
{
    if ws.len() == 0 {
        Seq::<u8>::empty()
    } else {
        spec_wins_bytes(ws.drop_last()) + spec_win_bytes(ws.last())
    }
}

pub open spec fn spec_wds_body(ws: Seq<WinDef>) -> Seq<u8> {
    seq![ws.len() as u8] + spec_wins_bytes(ws)
}

pub open spec fn spec_pal_entry_bytes(e: PalEntry) -> Seq<u8> {
    seq![e.index, e.y, e.cr, e.cb, e.alpha]
}

pub open spec fn spec_pal_entries_bytes(es: Seq<PalEntry>) -> Seq<u8>
    decreases es.len(),
{
    if es.len() == 0 {
        Seq::<u8>::empty()
    } else {
        spec_pal_entries_bytes(es.drop_last()) + spec_pal_entry_bytes(es.last())
    }
}

pub open spec fn spec_pds_body_parts(id: u8, version: u8, entries: Seq<PalEntry>) -> Seq<u8> {
    seq![id, version] + spec_pal_entries_bytes(entries)
}

pub open spec fn spec_pds_body(p: PalDefSeg) -> Seq<u8> {
    spec_pds_body_parts(p.id, p.version, p.entries@)
}

pub open spec fn spec_ods_body_parts(
    id: u16,
    version: u8,
    seq_flag: u8,
    width: u16,
    height: u16,
    payload: Seq<u8>,
) -> Seq<u8> {
    spec_u16_be(id) + seq![version, seq_flag] + spec_u24_be(payload.len() as u32)
        + spec_u16_be(width) + spec_u16_be(height) + payload
}

pub open spec fn spec_ods_body(o: ObjDefSeg) -> Seq<u8> {
    spec_ods_body_parts(o.id, o.version, o.seq_flag, o.width, o.height, o.payload@)
}

pub open spec fn spec_kind_byte(b: SegBody) -> u8 {
    match b {
        SegBody::PresComp(_) => KIND_PCS,
        SegBody::WinDef(_) => KIND_WDS,
        SegBody::PalDef(_) => KIND_PDS,
        SegBody::ObjDef(_) => KIND_ODS,
        SegBody::End => KIND_END,
    }
}

pub open spec fn spec_body_bytes(b: SegBody) -> Seq<u8> {
    match b {
        SegBody::PresComp(p) => spec_pcs_body(p),
        SegBody::WinDef(ws) => spec_wds_body(ws@),
        SegBody::PalDef(p) => spec_pds_body(p),
        SegBody::ObjDef(o) => spec_ods_body(o),
        SegBody::End => Seq::<u8>::empty(),
    }
}

/// Frame of a whole segment around an already-encoded body.
pub open spec fn spec_seg_frame(pts: u32, dts: u32, kind: u8, body: Seq<u8>) -> Seq<u8> {
    seq![MAGIC_HI, MAGIC_LO] + spec_u32_be(pts) + spec_u32_be(dts) + seq![kind]
        + spec_u16_be(body.len() as u16) + body
}

/// The exact byte image of a segment.
pub open spec fn spec_seg_bytes(s: Seg) -> Seq<u8> {
    spec_seg_frame(s.pts, s.dts, spec_kind_byte(s.body), spec_body_bytes(s.body))
}

// ---------------------------------------------------------------------------
// Well-formedness: the counts and lengths an encodable segment must respect.
// ---------------------------------------------------------------------------

pub open spec fn wf_pcs(p: PresCompSeg) -> bool {
    p.comp_objs@.len() <= 255
}

pub open spec fn wf_wds(ws: Seq<WinDef>) -> bool {
    ws.len() <= 255
}

pub open spec fn wf_pds(p: PalDefSeg) -> bool {
    p.entries@.len() <= 13106
}

pub open spec fn wf_ods(o: ObjDefSeg) -> bool {
    o.payload@.len() <= 65524
}

pub open spec fn wf_body(b: SegBody) -> bool {
    match b {
        SegBody::PresComp(p) => wf_pcs(p),
        SegBody::WinDef(ws) => wf_wds(ws@),
        SegBody::PalDef(p) => wf_pds(p),
        SegBody::ObjDef(o) => wf_ods(o),
        SegBody::End => true,
    }
}

pub open spec fn wf_seg(s: Seg) -> bool {
    wf_body(s.body)
}

/// Each composition-object record occupies 8 bytes, or 16 when cropped.
pub proof fn lemma_comp_objs_bytes_len(objs: Seq<CompObj>)
    ensures
        spec_comp_objs_bytes(objs).len() <= 16 * objs.len(),
    decreases objs.len(),
{
    if objs.len() > 0 {
        lemma_comp_objs_bytes_len(objs.drop_last());
    }
}

pub proof fn lemma_wins_bytes_len(ws: Seq<WinDef>)
    ensures
        spec_wins_bytes(ws).len() == 9 * ws.len(),
    decreases ws.len(),
{
    if ws.len() > 0 {
        lemma_wins_bytes_len(ws.drop_last());
    }
}

pub proof fn lemma_pal_entries_bytes_len(es: Seq<PalEntry>)
    ensures
        spec_pal_entries_bytes(es).len() == 5 * es.len(),
    decreases es.len(),
{
    if es.len() > 0 {
        lemma_pal_entries_bytes_len(es.drop_last());
    }
}

/// A well-formed body always fits the 16-bit body-size field.
pub proof fn lemma_body_bytes_len(b: SegBody)
    requires
        wf_body(b),
    ensures
        spec_body_bytes(b).len() <= 65535,
{
    match b {
        SegBody::PresComp(p) => {
            lemma_comp_objs_bytes_len(p.comp_objs@);
        },
        SegBody::WinDef(ws) => {
            lemma_wins_bytes_len(ws@);
        },
        SegBody::PalDef(p) => {
            lemma_pal_entries_bytes_len(p.entries@);
        },
        SegBody::ObjDef(_) => {},
        SegBody::End => {},
    }
}

// ---------------------------------------------------------------------------
// Encoder.
// ---------------------------------------------------------------------------

fn push_u16_be(out: &mut Vec<u8>, v: u16)
    ensures
        final(out)@ == old(out)@ + spec_u16_be(v),
{
    out.push((v / 256) as u8);
    out.push((v % 256) as u8);
    assert(out@ =~= old(out)@ + spec_u16_be(v));
}

fn push_u24_be(out: &mut Vec<u8>, v: u32)
    requires
        v < 0x1000000,
    ensures
        final(out)@ == old(out)@ + spec_u24_be(v),
{
    out.push(((v / 0x10000) % 256) as u8);
    out.push(((v / 256) % 256) as u8);
    out.push((v % 256) as u8);
    assert(out@ =~= old(out)@ + spec_u24_be(v));
}

fn push_u32_be(out: &mut Vec<u8>, v: u32)
    ensures
        final(out)@ == old(out)@ + spec_u32_be(v),
{
    out.push(((v / 0x1000000) % 256) as u8);
    out.push(((v / 0x10000) % 256) as u8);
    out.push(((v / 256) % 256) as u8);
    out.push((v % 256) as u8);
    assert(out@ =~= old(out)@ + spec_u32_be(v));
}

fn encode_comp_obj(out: &mut Vec<u8>, o: &CompObj)
    ensures
        final(out)@ == old(out)@ + spec_comp_obj_bytes(*o),
{
    push_u16_be(out, o.obj_id);
    out.push(o.win_id);
    match o.crop {
        Option::Some(_) => out.push(0x40),
        Option::None => out.push(0x00),
    }
    push_u16_be(out, o.x);
    push_u16_be(out, o.y);
    match o.crop {
        Option::Some(c) => {
            push_u16_be(out, c.x);
            push_u16_be(out, c.y);
            push_u16_be(out, c.width);
            push_u16_be(out, c.height);
        },
        Option::None => {},
    }
    assert(out@ =~= old(out)@ + spec_comp_obj_bytes(*o));
}

/// Appends the body of a presentation composition segment built from the
/// given fields.
pub fn encode_pcs_parts(
    out: &mut Vec<u8>,
    width: u16,
    height: u16,
    comp_num: u16,
    comp_state: CompState,
    pal_update: bool,
    pal_id: u8,
    objs: &Vec<CompObj>,
)
    requires
        objs@.len() <= 255,
    ensures
        final(out)@ == old(out)@ + spec_pcs_body_parts(
            width,
            height,
            comp_num,
            comp_state,
            pal_update,
            pal_id,
            objs@,
        ),
{
    push_u16_be(out, width);
    push_u16_be(out, height);
    out.push(FRAME_RATE_BYTE);
    push_u16_be(out, comp_num);
    match comp_state {
        CompState::Normal => out.push(0x00),
        CompState::AcquisitionPoint => out.push(0x40),
        CompState::EpochStart => out.push(0x80),
    }
    if pal_update {
        out.push(0x80);
    } else {
        out.push(0x00);
    }
    out.push(pal_id);
    out.push(objs.len() as u8);
    let ghost mid = out@;
    let n = objs.len();
    let mut i: usize = 0;
    while i < n
        invariant
            i <= n,
            n == objs@.len(),
            out@ == mid + spec_comp_objs_bytes(objs@.take(i as int)),
        decreases n - i,
    {
        encode_comp_obj(out, &objs[i]);
        proof {
            let pre = objs@.take(i as int);
            let post = objs@.take(i as int + 1);
            assert(post.drop_last() =~= pre);
            assert(post.last() == objs@[i as int]);
            assert(mid + spec_comp_objs_bytes(pre) + spec_comp_obj_bytes(objs@[i as int]) =~= mid
                + spec_comp_objs_bytes(post));
        }
        i = i + 1;
    }
    proof {
        assert(objs@.take(n as int) =~= objs@);
        assert(out@ =~= old(out)@ + spec_pcs_body_parts(
            width,
            height,
            comp_num,
            comp_state,
            pal_update,
            pal_id,
            objs@,
        ));
    }
}

/// Appends the body of a window definition segment.
pub fn encode_wds_parts(out: &mut Vec<u8>, ws: &Vec<WinDef>)
    requires
        wf_wds(ws@),
    ensures
        final(out)@ == old(out)@ + spec_wds_body(ws@),
{
    out.push(ws.len() as u8);
    let ghost mid = out@;
    let n = ws.len();
    let mut i: usize = 0;
    while i < n
        invariant
            i <= n,
            n == ws@.len(),
            out@ == mid + spec_wins_bytes(ws@.take(i as int)),
        decreases n - i,
    {
        let w = ws[i];
        out.push(w.id);
        push_u16_be(out, w.x);
        push_u16_be(out, w.y);
        push_u16_be(out, w.width);
        push_u16_be(out, w.height);
        proof {
            let pre = ws@.take(i as int);
            let post = ws@.take(i as int + 1);
            assert(post.drop_last() =~= pre);
            assert(post.last() == ws@[i as int]);
            assert(out@ =~= mid + spec_wins_bytes(post));
        }
        i = i + 1;
    }
    proof {
        assert(ws@.take(n as int) =~= ws@);
        assert(out@ =~= old(out)@ + spec_wds_body(ws@));
    }
}

/// Appends the body of a palette definition segment.
pub fn encode_pds_parts(out: &mut Vec<u8>, id: u8, version: u8, entries: &Vec<PalEntry>)
    requires
        entries@.len() <= 13106,
    ensures
        final(out)@ == old(out)@ + spec_pds_body_parts(id, version, entries@),
{
    out.push(id);
    out.push(version);
    let ghost mid = out@;
    let n = entries.len();
    let mut i: usize = 0;
    while i < n
        invariant
            i <= n,
            n == entries@.len(),
            out@ == mid + spec_pal_entries_bytes(entries@.take(i as int)),
        decreases n - i,
    {
        let e = entries[i];
        out.push(e.index);
        out.push(e.y);
        out.push(e.cr);
        out.push(e.cb);
        out.push(e.alpha);
        proof {
            let pre = entries@.take(i as int);
            let post = entries@.take(i as int + 1);
            assert(post.drop_last() =~= pre);
            assert(post.last() == entries@[i as int]);
            assert(out@ =~= mid + spec_pal_entries_bytes(post));
        }
        i = i + 1;
    }
    proof {
        assert(entries@.take(n as int) =~= entries@);
        assert(out@ =~= old(out)@ + spec_pds_body_parts(id, version, entries@));
    }
}

/// Appends the body of an object definition segment.
pub fn encode_ods_parts(
    out: &mut Vec<u8>,
    id: u16,
    version: u8,
    seq_flag: u8,
    width: u16,
    height: u16,
    payload: &Vec<u8>,
)
    requires
        payload@.len() <= 65524,
    ensures
        final(out)@ == old(out)@ + spec_ods_body_parts(id, version, seq_flag, width, height,
            payload@),
{
    push_u16_be(out, id);
    out.push(version);
    out.push(seq_flag);
    push_u24_be(out, payload.len() as u32);
    push_u16_be(out, width);
    push_u16_be(out, height);
    let ghost mid = out@;
    let n = payload.len();
    let mut i: usize = 0;
    while i < n
        invariant
            i <= n,
            n == payload@.len(),
            out@ == mid + payload@.take(i as int),
        decreases n - i,
    {
        out.push(payload[i]);
        proof {
            assert(out@ =~= mid + payload@.take(i as int + 1));
        }
        i = i + 1;
    }
    proof {
        assert(payload@.take(n as int) =~= payload@);
        assert(out@ =~= old(out)@ + spec_ods_body_parts(id, version, seq_flag, width, height,
            payload@));
    }
}

fn encode_body(out: &mut Vec<u8>, b: &SegBody)
    requires
        wf_body(*b),
    ensures
        final(out)@ == old(out)@ + spec_body_bytes(*b),
{
    match b {
        SegBody::PresComp(p) => encode_pcs_parts(
            out,
            p.width,
            p.height,
            p.comp_num,
            p.comp_state,
            p.pal_update,
            p.pal_id,
            &p.comp_objs,
        ),
        SegBody::WinDef(ws) => encode_wds_parts(out, ws),
        SegBody::PalDef(p) => encode_pds_parts(out, p.id, p.version, &p.entries),
        SegBody::ObjDef(o) => encode_ods_parts(
            out,
            o.id,
            o.version,
            o.seq_flag,
            o.width,
            o.height,
            &o.payload,
        ),
        SegBody::End => {
            assert(out@ =~= old(out)@ + spec_body_bytes(*b));
        },
    }
}

fn kind_byte_of(b: &SegBody) -> (r: u8)
    ensures
        r == spec_kind_byte(*b),
{
    match b {
        SegBody::PresComp(_) => KIND_PCS,
        SegBody::WinDef(_) => KIND_WDS,
        SegBody::PalDef(_) => KIND_PDS,
        SegBody::ObjDef(_) => KIND_ODS,
        SegBody::End => KIND_END,
    }
}

/// Appends a whole segment frame around an already-encoded body: magic
/// number, timestamps, kind tag, and the body-size field recomputed from the
/// body's actual length.
pub fn encode_frame(out: &mut Vec<u8>, pts: u32, dts: u32, kind: u8, body: &Vec<u8>)
    requires
        body@.len() <= 65535,
    ensures
        final(out)@ == old(out)@ + spec_seg_frame(pts, dts, kind, body@),
{
    out.push(MAGIC_HI);
    out.push(MAGIC_LO);
    push_u32_be(out, pts);
    push_u32_be(out, dts);
    out.push(kind);
    push_u16_be(out, body.len() as u16);
    let mut j: usize = 0;
    let n = body.len();
    let ghost head = out@;
    while j < n
        invariant
            j <= n,
            n == body@.len(),
            out@ == head + body@.take(j as int),
        decreases n - j,
    {
        out.push(body[j]);
        proof {
            assert(out@ =~= head + body@.take(j as int + 1));
        }
        j = j + 1;
    }
    proof {
        assert(body@.take(n as int) =~= body@);
        assert(out@ =~= old(out)@ + spec_seg_frame(pts, dts, kind, body@));
    }
}

/// Serialize one segment. The body-size field is recomputed from the actual
/// content, so a segment decoded by this module and left unmodified encodes
/// back to its original bytes exactly.
pub fn encode_seg(seg: &Seg) -> (r: Vec<u8>)
    requires
        wf_seg(*seg),
    ensures
        r@ == spec_seg_bytes(*seg),
{
    let mut body: Vec<u8> = Vec::new();
    encode_body(&mut body, &seg.body);
    proof {
        lemma_body_bytes_len(seg.body);
    }
    let mut out: Vec<u8> = Vec::new();
    encode_frame(&mut out, seg.pts, seg.dts, kind_byte_of(&seg.body), &body);
    proof {
        assert(out@ =~= spec_seg_bytes(*seg));
    }
    out
}

// ---------------------------------------------------------------------------
// Decoder. The spec functions below classify, for any byte sequence, exactly
// which error reading a segment at a given position yields, or that none
// does; the executable decoder is proved to agree with that classification,
// and on success to return a segment whose byte image is precisely the
// consumed input.
// ---------------------------------------------------------------------------

pub open spec fn is_seg_kind(k: u8) -> bool {
    k == KIND_PDS || k == KIND_ODS || k == KIND_PCS || k == KIND_WDS || k == KIND_END
}

pub open spec fn spec_be16(b0: u8, b1: u8) -> int {
    b0 * 256 + b1
}

pub open spec fn spec_be24(b0: u8, b1: u8, b2: u8) -> int {
    b0 * 0x10000 + b1 * 256 + b2
}

/// Error classification of the composition-object records of a presentation
/// composition body `w`, starting at `off` with `count` records to go.
pub open spec fn pcs_objs_error(w: Seq<u8>, off: int, count: int) -> Option<SegError>
    decreases count,
{
    if count <= 0 {
        if off == w.len() {
            Option::None
        } else {
            Option::Some(SegError::InvalidBodySize)
        }
    } else if off + 4 > w.len() {
        Option::Some(SegError::InvalidBodySize)
    } else if w[off + 3] != 0x00 && w[off + 3] != 0x40 {
        Option::Some(SegError::UnrecognizedCroppedFlag)
    } else if off + 8 > w.len() {
        Option::Some(SegError::InvalidBodySize)
    } else if w[off + 3] == 0x40 && off + 16 > w.len() {
        Option::Some(SegError::InvalidBodySize)
    } else {
        pcs_objs_error(w, off + (if w[off + 3] == 0x40 { 16int } else { 8int }), count - 1)
    }
}

pub open spec fn pcs_body_error(w: Seq<u8>) -> Option<SegError> {
    if w.len() < 5 {
        Option::Some(SegError::InvalidBodySize)
    } else if w[4] != FRAME_RATE_BYTE {
        Option::Some(SegError::UnrecognizedFrameRate)
    } else if w.len() < 11 {
        Option::Some(SegError::InvalidBodySize)
    } else if w[7] != 0x00 && w[7] != 0x40 && w[7] != 0x80 {
        Option::Some(SegError::UnrecognizedCompositionState)
    } else if w[8] != 0x00 && w[8] != 0x80 {
        Option::Some(SegError::UnrecognizedPaletteUpdateFlag)
    } else {
        pcs_objs_error(w, 11, w[10] as int)
    }
}

pub open spec fn wds_body_error(w: Seq<u8>) -> Option<SegError> {
    if w.len() < 1 {
        Option::Some(SegError::InvalidBodySize)
    } else if w.len() != 1 + 9 * (w[0] as int) {
        Option::Some(SegError::InvalidBodySize)
    } else {
        Option::None
    }
}

pub open spec fn pds_body_error(w: Seq<u8>) -> Option<SegError> {
    if w.len() < 2 {
        Option::Some(SegError::InvalidBodySize)
    } else if (w.len() - 2) % 5 != 0 {
        Option::Some(SegError::InvalidBodySize)
    } else {
        Option::None
    }
}

pub open spec fn ods_body_error(w: Seq<u8>) -> Option<SegError> {
    if w.len() < 11 {
        Option::Some(SegError::InvalidBodySize)
    } else if w.len() != 11 + spec_be24(w[4], w[5], w[6]) {
        Option::Some(SegError::InvalidBodySize)
    } else {
        Option::None
    }
}

pub open spec fn body_error(kind: u8, w: Seq<u8>) -> Option<SegError> {
    if kind == KIND_PCS {
        pcs_body_error(w)
    } else if kind == KIND_WDS {
        wds_body_error(w)
    } else if kind == KIND_PDS {
        pds_body_error(w)
    } else if kind == KIND_ODS {
        ods_body_error(w)
    } else {
        if w.len() == 0 {
            Option::None
        } else {
            Option::Some(SegError::InvalidBodySize)
        }
    }
}

/// Exactly which error reading a segment of `s` at position `p` yields:
/// `None` either at a clean end of input (`p == s.len()`) or where a
/// well-formed segment starts.
pub open spec fn spec_seg_error(s: Seq<u8>, p: int) -> Option<SegError> {
    if p == s.len() {
        Option::None
    } else if s.len() - p < 2 {
        Option::Some(SegError::PrematureEof)
    } else if !(s[p] == MAGIC_HI && s[p + 1] == MAGIC_LO) {
        Option::Some(SegError::UnrecognizedMagicNumber)
    } else if s.len() - p < 11 {
        Option::Some(SegError::PrematureEof)
    } else if !is_seg_kind(s[p + 10]) {
        Option::Some(SegError::UnrecognizedKind)
    } else if s.len() - p < 13 {
        Option::Some(SegError::PrematureEof)
    } else if s.len() - p - 13 < spec_be16(s[p + 11], s[p + 12]) {
        Option::Some(SegError::PrematureEof)
    } else {
        body_error(s[p + 10], s.subrange(p + 13, p + 13 + spec_be16(s[p + 11], s[p + 12])))
    }
}

fn read_u16_at(buf: &Vec<u8>, i: usize) -> (r: u16)
    requires
        i + 2 <= buf@.len(),
    ensures
        r as int == spec_be16(buf@[i as int], buf@[i as int + 1]),
        spec_u16_be(r) == buf@.subrange(i as int, i as int + 2),
{
    let n = buf.len();
    proof {
        assert(i + 2 <= n);
    }
    let b0 = buf[i];
    let b1 = buf[i + 1];
    let r: u16 = (b0 as u16) * 256 + (b1 as u16);
    proof {
        assert(r / 256 == b0 as u16 && r % 256 == b1 as u16) by (bit_vector)
            requires
                r == (b0 as u16) * 256 + (b1 as u16),
        ;
        assert(spec_u16_be(r) =~= buf@.subrange(i as int, i as int + 2));
    }
    r
}

fn read_u24_at(buf: &Vec<u8>, i: usize) -> (r: u32)
    requires
        i + 3 <= buf@.len(),
    ensures
        r as int == spec_be24(buf@[i as int], buf@[i as int + 1], buf@[i as int + 2]),
        r < 0x1000000,
        spec_u24_be(r) == buf@.subrange(i as int, i as int + 3),
{
    let n = buf.len();
    proof {
        assert(i + 3 <= n);
    }
    let b0 = buf[i];
    let b1 = buf[i + 1];
    let b2 = buf[i + 2];
    let r: u32 = (b0 as u32) * 0x10000 + (b1 as u32) * 256 + (b2 as u32);
    proof {
        assert((r / 0x10000) % 256 == b0 as u32 && (r / 256) % 256 == b1 as u32 && r % 256 == b2
            as u32) by (bit_vector)
            requires
                r == (b0 as u32) * 0x10000 + (b1 as u32) * 256 + (b2 as u32),
        ;
        assert(spec_u24_be(r) =~= buf@.subrange(i as int, i as int + 3));
    }
    r
}

fn read_u32_at(buf: &Vec<u8>, i: usize) -> (r: u32)
    requires
        i + 4 <= buf@.len(),
    ensures
        spec_u32_be(r) == buf@.subrange(i as int, i as int + 4),
{
    let n = buf.len();
    proof {
        assert(i + 4 <= n);
    }
    let b0 = buf[i];
    let b1 = buf[i + 1];
    let b2 = buf[i + 2];
    let b3 = buf[i + 3];
    let r: u32 = (b0 as u32) * 0x1000000 + (b1 as u32) * 0x10000 + (b2 as u32) * 256 + (b3 as u32);
    proof {
        assert((r / 0x1000000) % 256 == b0 as u32 && (r / 0x10000) % 256 == b1 as u32 && (r / 256)
            % 256 == b2 as u32 && r % 256 == b3 as u32) by (bit_vector)
            requires
                r == (b0 as u32) * 0x1000000 + (b1 as u32) * 0x10000 + (b2 as u32) * 256 + (b3
                    as u32),
        ;
        assert(spec_u32_be(r) =~= buf@.subrange(i as int, i as int + 4));
    }
    r
}

fn decode_pcs_body(buf: &Vec<u8>, bstart: usize, bend: usize) -> (r: SegResult<PresCompSeg>)
    requires
        bstart <= bend,
        bend <= buf@.len(),
    ensures
        ({
            let w = buf@.subrange(bstart as int, bend as int);
            match r {
                Result::Ok(p) => wf_pcs(p) && spec_pcs_body(p) == w && pcs_body_error(w) is None,
                Result::Err(e) => pcs_body_error(w) == Option::Some(e),
            }
        }),
{
    let ghost w = buf@.subrange(bstart as int, bend as int);
    if bend - bstart < 5 {
        return Result::Err(SegError::InvalidBodySize);
    }
    if buf[bstart + 4] != FRAME_RATE_BYTE {
        return Result::Err(SegError::UnrecognizedFrameRate);
    }
    if bend - bstart < 11 {
        return Result::Err(SegError::InvalidBodySize);
    }
    let state_b = buf[bstart + 7];
    let comp_state: CompState;
    if state_b == 0x00 {
        comp_state = CompState::Normal;
    } else if state_b == 0x40 {
        comp_state = CompState::AcquisitionPoint;
    } else if state_b == 0x80 {
        comp_state = CompState::EpochStart;
    } else {
        return Result::Err(SegError::UnrecognizedCompositionState);
    }
    let pal_b = buf[bstart + 8];
    let pal_update: bool;
    if pal_b == 0x00 {
        pal_update = false;
    } else if pal_b == 0x80 {
        pal_update = true;
    } else {
        return Result::Err(SegError::UnrecognizedPaletteUpdateFlag);
    }
    let width = read_u16_at(buf, bstart);
    let height = read_u16_at(buf, bstart + 2);
    let comp_num = read_u16_at(buf, bstart + 5);
    let pal_id = buf[bstart + 9];
    let count = buf[bstart + 10];
    let mut objs: Vec<CompObj> = Vec::new();
    let mut off: usize = bstart + 11;
    let mut i: usize = 0;
    proof {
        assert(spec_comp_objs_bytes(objs@) =~= buf@.subrange(
            bstart as int + 11,
            bstart as int + 11,
        ));
    }
    while i < count as usize
        invariant
            bstart + 11 <= off <= bend <= buf@.len(),
            i <= count as usize,
            w == buf@.subrange(bstart as int, bend as int),
            objs@.len() == i,
            spec_comp_objs_bytes(objs@) == buf@.subrange(bstart as int + 11, off as int),
            pcs_body_error(w) == pcs_objs_error(w, 11, count as int),
            pcs_objs_error(w, 11, count as int) == pcs_objs_error(
                w,
                off - bstart,
                count as int - i,
            ),
        decreases count as int - i,
    {
        proof {
            assert(w.len() == bend - bstart);
        }
        if bend - off < 4 {
            return Result::Err(SegError::InvalidBodySize);
        }
        let flag = buf[off + 3];
        proof {
            assert(w[off - bstart + 3] == flag);
        }
        if flag != 0x00 && flag != 0x40 {
            return Result::Err(SegError::UnrecognizedCroppedFlag);
        }
        if bend - off < 8 {
            return Result::Err(SegError::InvalidBodySize);
        }
        let obj_id = read_u16_at(buf, off);
        let win_id = buf[off + 2];
        let x = read_u16_at(buf, off + 4);
        let y = read_u16_at(buf, off + 6);
        let crop: Option<CropRect>;
        let step: usize;
        if flag == 0x40 {
            if bend - off < 16 {
                return Result::Err(SegError::InvalidBodySize);
            }
            let cx = read_u16_at(buf, off + 8);
            let cy = read_u16_at(buf, off + 10);
            let cw = read_u16_at(buf, off + 12);
            let ch = read_u16_at(buf, off + 14);
            crop = Option::Some(CropRect { x: cx, y: cy, width: cw, height: ch });
            step = 16;
        } else {
            crop = Option::None;
            step = 8;
        }
        let obj = CompObj { obj_id, win_id, x, y, crop };
        proof {
            assert(spec_comp_obj_bytes(obj) =~= buf@.subrange(off as int, off as int + step as int));
            assert(buf@.subrange(bstart as int + 11, off as int) + buf@.subrange(
                off as int,
                off as int + step as int,
            ) =~= buf@.subrange(bstart as int + 11, off as int + step as int));
            let post = objs@.push(obj);
            assert(post.drop_last() =~= objs@);
            assert(pcs_objs_error(w, off - bstart, count as int - i) == pcs_objs_error(
                w,
                off - bstart + step,
                count as int - (i + 1),
            ));
        }
        objs.push(obj);
        off = off + step;
        i = i + 1;
    }
    proof {
        assert(w.len() == bend - bstart);
    }
    if off != bend {
        return Result::Err(SegError::InvalidBodySize);
    }
    let p = PresCompSeg { width, height, comp_num, comp_state, pal_update, pal_id, comp_objs: objs };
    proof {
        assert(w[4] == buf@[bstart as int + 4]);
        assert(w[7] == buf@[bstart as int + 7]);
        assert(w[8] == buf@[bstart as int + 8]);
        assert(w[9] == buf@[bstart as int + 9]);
        assert(w[10] == buf@[bstart as int + 10]);
        assert(spec_pcs_body(p) =~= w);
    }
    Result::Ok(p)
}

fn decode_wds_body(buf: &Vec<u8>, bstart: usize, bend: usize) -> (r: SegResult<Vec<WinDef>>)
    requires
        bstart <= bend,
        bend <= buf@.len(),
    ensures
        ({
            let w = buf@.subrange(bstart as int, bend as int);
            match r {
                Result::Ok(ws) => wf_wds(ws@) && spec_wds_body(ws@) == w && wds_body_error(w)
                    is None,
                Result::Err(e) => wds_body_error(w) == Option::Some(e),
            }
        }),
{
    let ghost w = buf@.subrange(bstart as int, bend as int);
    proof {
        assert(w.len() == bend - bstart);
    }
    if bend - bstart < 1 {
        return Result::Err(SegError::InvalidBodySize);
    }
    let count = buf[bstart];
    proof {
        assert(w[0] == count);
    }
    if bend - bstart != 1 + 9 * (count as usize) {
        return Result::Err(SegError::InvalidBodySize);
    }
    let mut ws: Vec<WinDef> = Vec::new();
    let mut off: usize = bstart + 1;
    let mut i: usize = 0;
    proof {
        assert(spec_wins_bytes(ws@) =~= buf@.subrange(bstart as int + 1, bstart as int + 1));
    }
    while i < count as usize
        invariant
            off == bstart + 1 + 9 * i,
            i <= count as usize,
            bend == bstart + 1 + 9 * (count as usize),
            bend <= buf@.len(),
            ws@.len() == i,
            spec_wins_bytes(ws@) == buf@.subrange(bstart as int + 1, off as int),
        decreases count as int - i,
    {
        let id = buf[off];
        let x = read_u16_at(buf, off + 1);
        let y = read_u16_at(buf, off + 3);
        let width = read_u16_at(buf, off + 5);
        let height = read_u16_at(buf, off + 7);
        let wd = WinDef { id, x, y, width, height };
        proof {
            assert(spec_win_bytes(wd) =~= buf@.subrange(off as int, off as int + 9));
            assert(buf@.subrange(bstart as int + 1, off as int) + buf@.subrange(
                off as int,
                off as int + 9,
            ) =~= buf@.subrange(bstart as int + 1, off as int + 9));
            let post = ws@.push(wd);
            assert(post.drop_last() =~= ws@);
        }
        ws.push(wd);
        off = off + 9;
        i = i + 1;
    }
    proof {
        assert(spec_wds_body(ws@) =~= w);
    }
    Result::Ok(ws)
}

fn decode_pds_body(buf: &Vec<u8>, bstart: usize, bend: usize) -> (r: SegResult<PalDefSeg>)
    requires
        bstart <= bend,
        bend <= buf@.len(),
        bend - bstart <= 65535,
    ensures
        ({
            let w = buf@.subrange(bstart as int, bend as int);
            match r {
                Result::Ok(p) => wf_pds(p) && spec_pds_body(p) == w && pds_body_error(w) is None,
                Result::Err(e) => pds_body_error(w) == Option::Some(e),
            }
        }),
{
    let ghost w = buf@.subrange(bstart as int, bend as int);
    proof {
        assert(w.len() == bend - bstart);
    }
    if bend - bstart < 2 {
        return Result::Err(SegError::InvalidBodySize);
    }
    let rem = bend - bstart - 2;
    if rem % 5 != 0 {
        return Result::Err(SegError::InvalidBodySize);
    }
    let n = rem / 5;
    let id = buf[bstart];
    let version = buf[bstart + 1];
    let mut entries: Vec<PalEntry> = Vec::new();
    let mut off: usize = bstart + 2;
    let mut i: usize = 0;
    proof {
        assert(spec_pal_entries_bytes(entries@) =~= buf@.subrange(
            bstart as int + 2,
            bstart as int + 2,
        ));
    }
    while i < n
        invariant
            off == bstart + 2 + 5 * i,
            i <= n,
            bend == bstart + 2 + 5 * n,
            bend <= buf@.len(),
            entries@.len() == i,
            spec_pal_entries_bytes(entries@) == buf@.subrange(bstart as int + 2, off as int),
        decreases n - i,
    {
        let e = PalEntry {
            index: buf[off],
            y: buf[off + 1],
            cr: buf[off + 2],
            cb: buf[off + 3],
            alpha: buf[off + 4],
        };
        proof {
            assert(spec_pal_entry_bytes(e) =~= buf@.subrange(off as int, off as int + 5));
            assert(buf@.subrange(bstart as int + 2, off as int) + buf@.subrange(
                off as int,
                off as int + 5,
            ) =~= buf@.subrange(bstart as int + 2, off as int + 5));
            let post = entries@.push(e);
            assert(post.drop_last() =~= entries@);
        }
        entries.push(e);
        off = off + 5;
        i = i + 1;
    }
    let p = PalDefSeg { id, version, entries };
    proof {
        assert(w[0] == id && w[1] == version);
        assert(spec_pds_body(p) =~= w);
    }
    Result::Ok(p)
}

fn decode_ods_body(buf: &Vec<u8>, bstart: usize, bend: usize) -> (r: SegResult<ObjDefSeg>)
    requires
        bstart <= bend,
        bend <= buf@.len(),
        bend - bstart <= 65535,
    ensures
        ({
            let w = buf@.subrange(bstart as int, bend as int);
            match r {
                Result::Ok(o) => wf_ods(o) && spec_ods_body(o) == w && ods_body_error(w) is None,
                Result::Err(e) => ods_body_error(w) == Option::Some(e),
            }
        }),
{
    let ghost w = buf@.subrange(bstart as int, bend as int);
    proof {
        assert(w.len() == bend - bstart);
    }
    if bend - bstart < 11 {
        return Result::Err(SegError::InvalidBodySize);
    }
    let plen = read_u24_at(buf, bstart + 4);
    proof {
        assert(w[4] == buf@[bstart as int + 4]);
        assert(w[5] == buf@[bstart as int + 5]);
        assert(w[6] == buf@[bstart as int + 6]);
    }
    if (bend - bstart - 11) as u64 != plen as u64 {
        return Result::Err(SegError::InvalidBodySize);
    }
    let id = read_u16_at(buf, bstart);
    let version = buf[bstart + 2];
    let seq_flag = buf[bstart + 3];
    let width = read_u16_at(buf, bstart + 7);
    let height = read_u16_at(buf, bstart + 9);
    let mut payload: Vec<u8> = Vec::new();
    let mut off: usize = bstart + 11;
    proof {
        assert(payload@ =~= buf@.subrange(bstart as int + 11, bstart as int + 11));
    }
    while off < bend
        invariant
            bstart + 11 <= off <= bend <= buf@.len(),
            payload@ == buf@.subrange(bstart as int + 11, off as int),
        decreases bend - off,
    {
        payload.push(buf[off]);
        proof {
            assert(payload@ =~= buf@.subrange(bstart as int + 11, off as int + 1));
        }
        off = off + 1;
    }
    let o = ObjDefSeg { id, version, seq_flag, width, height, payload };
    proof {
        assert(o.payload@.len() == bend - bstart - 11);
        assert(w[2] == version && w[3] == seq_flag);
        assert(spec_ods_body(o) =~= w);
    }
    Result::Ok(o)
}

/// Round trip: a segment whose byte image was read from the input, left
/// unmodified, encodes back to exactly the bytes it came from. The decoder
/// ensures the first premise of any segment it returns, and the encoder's
/// result is the byte image named in the second.
pub proof fn lemma_seg_round_trip(bytes: Seq<u8>, seg: Seg, reencoded: Seq<u8>, p: int, q: int)
    requires
        0 <= p <= q <= bytes.len(),
        bytes.subrange(p, q) == spec_seg_bytes(seg),
        reencoded == spec_seg_bytes(seg),
    ensures
        reencoded == bytes.subrange(p, q),
{
}

/// A cursor over the bytes of a segment stream.
pub struct SegReader {
    pub buf: Vec<u8>,
    pub pos: usize,
}

impl SegReader {
    pub open spec fn wf(&self) -> bool {
        self.pos <= self.buf@.len()
    }

    pub fn new(buf: Vec<u8>) -> (r: SegReader)
        ensures
            r.buf@ == buf@,
            r.pos == 0,
            r.wf(),
    {
        SegReader { buf, pos: 0 }
    }
}

/// Reading one segment from a byte source.
pub trait ReadExt {
    spec fn ready(&self) -> bool;

    /// Reads the next segment. `Ok(None)` is the normal termination signal:
    /// the input ended exactly at a segment boundary.
    fn read_seg(&mut self) -> (r: SegResult<Option<Seg>>)
        requires
            old(self).ready(),
    ;
}

impl ReadExt for SegReader {
    open spec fn ready(&self) -> bool {
        self.wf()
    }

    #[verifier::rlimit(60)]
    fn read_seg(&mut self) -> (r: SegResult<Option<Seg>>)
        ensures
            final(self).wf(),
            final(self).buf@ == old(self).buf@,
            match r {
                Result::Ok(opt) => match opt {
                    Option::Some(seg) => {
                        &&& wf_seg(seg)
                        &&& old(self).pos < old(self).buf@.len()
                        &&& spec_seg_error(old(self).buf@, old(self).pos as int) is None
                        &&& final(self).pos as int == old(self).pos + spec_seg_bytes(seg).len()
                        &&& old(self).buf@.subrange(old(self).pos as int, final(self).pos as int)
                            == spec_seg_bytes(seg)
                    },
                    Option::None => {
                        &&& old(self).pos == old(self).buf@.len()
                        &&& final(self).pos == old(self).pos
                    },
                },
                Result::Err(e) => {
                    &&& spec_seg_error(old(self).buf@, old(self).pos as int) == Option::Some(e)
                    &&& final(self).pos == old(self).pos
                },
            },
    {
        let ghost s = self.buf@;
        let n = self.buf.len();
        let p = self.pos;
        if p == n {
            return Result::Ok(Option::None);
        }
        if n - p < 2 {
            return Result::Err(SegError::PrematureEof);
        }
        if !(self.buf[p] == MAGIC_HI && self.buf[p + 1] == MAGIC_LO) {
            return Result::Err(SegError::UnrecognizedMagicNumber);
        }
        if n - p < 11 {
            return Result::Err(SegError::PrematureEof);
        }
        let kind = self.buf[p + 10];
        if !(kind == KIND_PDS || kind == KIND_ODS || kind == KIND_PCS || kind == KIND_WDS || kind
            == KIND_END) {
            return Result::Err(SegError::UnrecognizedKind);
        }
        if n - p < 13 {
            return Result::Err(SegError::PrematureEof);
        }
        let size = read_u16_at(&self.buf, p + 11);
        if n - p - 13 < size as usize {
            return Result::Err(SegError::PrematureEof);
        }
        let pts = read_u32_at(&self.buf, p + 2);
        let dts = read_u32_at(&self.buf, p + 6);
        let bstart = p + 13;
        let bend = bstart + size as usize;
        let ghost w = s.subrange(bstart as int, bend as int);
        proof {
            assert(w == s.subrange(p as int + 13, p + 13 + spec_be16(s[p as int + 11], s[p as int
                + 12])));
        }
        let body: SegBody;
        if kind == KIND_PCS {
            match decode_pcs_body(&self.buf, bstart, bend) {
                Result::Ok(b) => {
                    body = SegBody::PresComp(b);
                },
                Result::Err(e) => {
                    return Result::Err(e);
                },
            }
        } else if kind == KIND_WDS {
            match decode_wds_body(&self.buf, bstart, bend) {
                Result::Ok(b) => {
                    body = SegBody::WinDef(b);
                },
                Result::Err(e) => {
                    return Result::Err(e);
                },
            }
        } else if kind == KIND_PDS {
            match decode_pds_body(&self.buf, bstart, bend) {
                Result::Ok(b) => {
                    body = SegBody::PalDef(b);
                },
                Result::Err(e) => {
                    return Result::Err(e);
                },
            }
        } else if kind == KIND_ODS {
            match decode_ods_body(&self.buf, bstart, bend) {
                Result::Ok(b) => {
                    body = SegBody::ObjDef(b);
                },
                Result::Err(e) => {
                    return Result::Err(e);
                },
            }
        } else {
            if size != 0 {
                return Result::Err(SegError::InvalidBodySize);
            }
            body = SegBody::End;
            proof {
                assert(w =~= spec_body_bytes(body));
            }
        }
        let seg = Seg { pts, dts, body };
        proof {
            assert(spec_body_bytes(seg.body) == w);
            assert(spec_body_bytes(seg.body).len() == size);
            assert(spec_kind_byte(seg.body) == kind);
            assert(spec_seg_bytes(seg) =~= s.subrange(p as int, bend as int));
        }
        self.pos = bend;
        Result::Ok(Option::Some(seg))
    }
}

} // verus!
