//! Display-set assembly: grouping the segment stream into self-contained
//! display sets, one per subtitle presentation event.
//!
//! A display set is closed by an End segment. A presentation composition
//! segment supplies the set's dimensions and composition-object table; window,
//! palette and object definition segments extend the respective mapping,
//! keyed by window id, palette id, and object id plus version. Cross-set
//! epoch inheritance (carry-forward of unchanged windows or palettes between
//! sets) is deliberately not modelled: each consumed display set is treated
//! as self-contained.

use vstd::prelude::*;
use crate::seg::{
    CompObj, CompState, ObjDefSeg, PalDefSeg, ReadExt, Seg, SegBody, SegReader,
    SegResult, WinDef, wf_seg, spec_seg_bytes, spec_seg_error, spec_seg_frame,
    spec_pcs_body_parts, spec_wds_body, spec_pds_body_parts, spec_ods_body_parts,
    KIND_PCS, KIND_WDS, KIND_PDS, KIND_ODS, KIND_END,
    encode_pcs_parts, encode_wds_parts, encode_pds_parts, encode_ods_parts, encode_frame,
    lemma_comp_objs_bytes_len, lemma_wins_bytes_len, lemma_pal_entries_bytes_len,
};

verus! {

/// One subtitle presentation event: screen size, composition-object table,
/// and the window, palette and object mappings the segments of the set
/// defined.
#[derive(Debug)]
pub struct DisplaySet {
    pub pts: u32,
    pub dts: u32,
    pub width: u16,
    pub height: u16,
    pub comp_num: u16,
    pub comp_state: CompState,
    pub pal_update: bool,
    pub pal_id: u8,
    pub comp_objs: Vec<CompObj>,
    pub windows: Vec<WinDef>,
    pub palettes: Vec<PalDefSeg>,
    pub objects: Vec<ObjDefSeg>,
}

/// Mathematical model of a display set.
pub struct DisplaySetV {
    pub pts: u32,
    pub dts: u32,
    pub width: u16,
    pub height: u16,
    pub comp_num: u16,
    pub comp_state: CompState,
    pub pal_update: bool,
    pub pal_id: u8,
    pub comp_objs: Seq<CompObj>,
    pub windows: Seq<WinDef>,
    pub palettes: Seq<PalDefSeg>,
    pub objects: Seq<ObjDefSeg>,
}

impl View for DisplaySet {
    type V = DisplaySetV;

    open spec fn view(&self) -> DisplaySetV {
        DisplaySetV {
            pts: self.pts,
            dts: self.dts,
            width: self.width,
            height: self.height,
            comp_num: self.comp_num,
            comp_state: self.comp_state,
            pal_update: self.pal_update,
            pal_id: self.pal_id,
            comp_objs: self.comp_objs@,
            windows: self.windows@,
            palettes: self.palettes@,
            objects: self.objects@,
        }
    }
}

/// The empty display set a fresh presentation event starts from.
pub open spec fn init_display_set(pts: u32, dts: u32) -> DisplaySetV {
    DisplaySetV {
        pts,
        dts,
        width: 0,
        height: 0,
        comp_num: 0,
        comp_state: CompState::Normal,
        pal_update: false,
        pal_id: 0,
        comp_objs: Seq::<CompObj>::empty(),
        windows: Seq::<WinDef>::empty(),
        palettes: Seq::<PalDefSeg>::empty(),
        objects: Seq::<ObjDefSeg>::empty(),
    }
}

/// Index of the first window with this id, or -1 where none has it.
pub open spec fn win_index(ws: Seq<WinDef>, id: u8) -> int
    decreases ws.len(),
{
    if ws.len() == 0 {
        -1
    } else if ws[0].id == id {
        0
    } else {
        let r = win_index(ws.drop_first(), id);
        if r < 0 {
            -1
        } else {
            r + 1
        }
    }
}

/// Index of the first palette with this id, or -1 where none has it.
pub open spec fn pal_index(ps: Seq<PalDefSeg>, id: u8) -> int
    decreases ps.len(),
{
    if ps.len() == 0 {
        -1
    } else if ps[0].id == id {
        0
    } else {
        let r = pal_index(ps.drop_first(), id);
        if r < 0 {
            -1
        } else {
            r + 1
        }
    }
}

/// Index of the first object with this id and version, or -1.
pub open spec fn obj_index(os: Seq<ObjDefSeg>, id: u16, version: u8) -> int
    decreases os.len(),
{
    if os.len() == 0 {
        -1
    } else if os[0].id == id && os[0].version == version {
        0
    } else {
        let r = obj_index(os.drop_first(), id, version);
        if r < 0 {
            -1
        } else {
            r + 1
        }
    }
}

pub open spec fn upsert_window(ws: Seq<WinDef>, w: WinDef) -> Seq<WinDef> {
    let i = win_index(ws, w.id);
    if i < 0 {
        ws.push(w)
    } else {
        ws.update(i, w)
    }
}

/// Insert-or-replace each window of `add` in order.
pub open spec fn upsert_windows(ws: Seq<WinDef>, add: Seq<WinDef>) -> Seq<WinDef>
    decreases add.len(),
{
    if add.len() == 0 {
        ws
    } else {
        upsert_window(upsert_windows(ws, add.drop_last()), add.last())
    }
}

pub open spec fn upsert_palette(ps: Seq<PalDefSeg>, p: PalDefSeg) -> Seq<PalDefSeg> {
    let i = pal_index(ps, p.id);
    if i < 0 {
        ps.push(p)
    } else {
        ps.update(i, p)
    }
}

pub open spec fn upsert_object(os: Seq<ObjDefSeg>, o: ObjDefSeg) -> Seq<ObjDefSeg> {
    let i = obj_index(os, o.id, o.version);
    if i < 0 {
        os.push(o)
    } else {
        os.update(i, o)
    }
}

/// How one segment extends a display set under assembly.
pub open spec fn apply_seg(d: DisplaySetV, s: Seg) -> DisplaySetV {
    match s.body {
        SegBody::PresComp(p) => DisplaySetV {
            width: p.width,
            height: p.height,
            comp_num: p.comp_num,
            comp_state: p.comp_state,
            pal_update: p.pal_update,
            pal_id: p.pal_id,
            comp_objs: p.comp_objs@,
            ..d
        },
        SegBody::WinDef(ws) => DisplaySetV { windows: upsert_windows(d.windows, ws@), ..d },
        SegBody::PalDef(p) => DisplaySetV { palettes: upsert_palette(d.palettes, p), ..d },
        SegBody::ObjDef(o) => DisplaySetV { objects: upsert_object(d.objects, o), ..d },
        SegBody::End => d,
    }
}

/// Assembly of a display set from a run of segments, in order.
pub open spec fn assemble(d: DisplaySetV, segs: Seq<Seg>) -> DisplaySetV
    decreases segs.len(),
{
    if segs.len() == 0 {
        d
    } else {
        apply_seg(assemble(d, segs.drop_last()), segs.last())
    }
}

/// Concatenated byte images of a run of segments.
pub open spec fn segs_bytes(segs: Seq<Seg>) -> Seq<u8>
    decreases segs.len(),
{
    if segs.len() == 0 {
        Seq::<u8>::empty()
    } else {
        segs_bytes(segs.drop_last()) + spec_seg_bytes(segs.last())
    }
}

/// A run of well-formed segments, none of them an End, whose byte images
/// cover `bytes[start..end)` exactly.
pub open spec fn open_run(bytes: Seq<u8>, start: int, end: int, segs: Seq<Seg>) -> bool {
    &&& segs_bytes(segs) == bytes.subrange(start, end)
    &&& forall|k: int| 0 <= k < segs.len() ==> wf_seg(#[trigger] segs[k])
    &&& forall|k: int| 0 <= k < segs.len() ==> !((#[trigger] segs[k]).body is End)
}

/// `bytes[start..end)` is exactly one display set: a run of well-formed
/// segments whose last and only End closes it, and `d` is the set those
/// segments assemble, starting from the first segment's timestamps.
pub open spec fn displayset_parse(
    bytes: Seq<u8>,
    start: int,
    end: int,
    segs: Seq<Seg>,
    d: DisplaySetV,
) -> bool {
    &&& segs.len() >= 1
    &&& segs_bytes(segs) == bytes.subrange(start, end)
    &&& forall|k: int| 0 <= k < segs.len() ==> wf_seg(#[trigger] segs[k])
    &&& forall|k: int| 0 <= k < segs.len() - 1 ==> !((#[trigger] segs[k]).body is End)
    &&& segs.last().body is End
    &&& d == assemble(init_display_set(segs[0].pts, segs[0].dts), segs)
}

proof fn lemma_win_index_found(ws: Seq<WinDef>, id: u8, i: int)
    requires
        0 <= i < ws.len(),
        ws[i].id == id,
        forall|k: int| 0 <= k < i ==> ws[k].id != id,
    ensures
        win_index(ws, id) == i,
    decreases ws.len(),
{
    if i > 0 {
        lemma_win_index_found(ws.drop_first(), id, i - 1);
    }
}

proof fn lemma_win_index_none(ws: Seq<WinDef>, id: u8)
    requires
        forall|k: int| 0 <= k < ws.len() ==> ws[k].id != id,
    ensures
        win_index(ws, id) == -1,
    decreases ws.len(),
{
    if ws.len() > 0 {
        lemma_win_index_none(ws.drop_first(), id);
    }
}

proof fn lemma_pal_index_found(ps: Seq<PalDefSeg>, id: u8, i: int)
    requires
        0 <= i < ps.len(),
        ps[i].id == id,
        forall|k: int| 0 <= k < i ==> ps[k].id != id,
    ensures
        pal_index(ps, id) == i,
    decreases ps.len(),
{
    if i > 0 {
        lemma_pal_index_found(ps.drop_first(), id, i - 1);
    }
}

proof fn lemma_pal_index_none(ps: Seq<PalDefSeg>, id: u8)
    requires
        forall|k: int| 0 <= k < ps.len() ==> ps[k].id != id,
    ensures
        pal_index(ps, id) == -1,
    decreases ps.len(),
{
    if ps.len() > 0 {
        lemma_pal_index_none(ps.drop_first(), id);
    }
}

proof fn lemma_obj_index_found(os: Seq<ObjDefSeg>, id: u16, version: u8, i: int)
    requires
        0 <= i < os.len(),
        os[i].id == id && os[i].version == version,
        forall|k: int| 0 <= k < i ==> os[k].id != id || os[k].version != version,
    ensures
        obj_index(os, id, version) == i,
    decreases os.len(),
{
    if i > 0 {
        lemma_obj_index_found(os.drop_first(), id, version, i - 1);
    }
}

proof fn lemma_obj_index_none(os: Seq<ObjDefSeg>, id: u16, version: u8)
    requires
        forall|k: int| 0 <= k < os.len() ==> os[k].id != id || os[k].version != version,
    ensures
        obj_index(os, id, version) == -1,
    decreases os.len(),
{
    if os.len() > 0 {
        lemma_obj_index_none(os.drop_first(), id, version);
    }
}

fn upsert_window_exec(ws: &mut Vec<WinDef>, w: WinDef)
    ensures
        final(ws)@ == upsert_window(old(ws)@, w),
{
    let n = ws.len();
    let mut i: usize = 0;
    while i < n
        invariant
            i <= n,
            n == ws@.len(),
            ws@ == old(ws)@,
            forall|k: int| 0 <= k < i ==> ws@[k].id != w.id,
        decreases n - i,
    {
        if ws[i].id == w.id {
            proof {
                lemma_win_index_found(ws@, w.id, i as int);
            }
            ws.set(i, w);
            return ;
        }
        i = i + 1;
    }
    proof {
        lemma_win_index_none(ws@, w.id);
    }
    ws.push(w);
}

fn upsert_palette_exec(ps: &mut Vec<PalDefSeg>, p: PalDefSeg)
    ensures
        final(ps)@ == upsert_palette(old(ps)@, p),
{
    let n = ps.len();
    let mut i: usize = 0;
    while i < n
        invariant
            i <= n,
            n == ps@.len(),
            ps@ == old(ps)@,
            forall|k: int| 0 <= k < i ==> ps@[k].id != p.id,
        decreases n - i,
    {
        if ps[i].id == p.id {
            proof {
                lemma_pal_index_found(ps@, p.id, i as int);
            }
            ps.set(i, p);
            return ;
        }
        i = i + 1;
    }
    proof {
        lemma_pal_index_none(ps@, p.id);
    }
    ps.push(p);
}

fn upsert_object_exec(os: &mut Vec<ObjDefSeg>, o: ObjDefSeg)
    ensures
        final(os)@ == upsert_object(old(os)@, o),
{
    let n = os.len();
    let mut i: usize = 0;
    while i < n
        invariant
            i <= n,
            n == os@.len(),
            os@ == old(os)@,
            forall|k: int| 0 <= k < i ==> os@[k].id != o.id || os@[k].version != o.version,
        decreases n - i,
    {
        if os[i].id == o.id && os[i].version == o.version {
            proof {
                lemma_obj_index_found(os@, o.id, o.version, i as int);
            }
            os.set(i, o);
            return ;
        }
        i = i + 1;
    }
    proof {
        lemma_obj_index_none(os@, o.id, o.version);
    }
    os.push(o);
}

fn apply_seg_exec(ds: &mut DisplaySet, seg: Seg)
    ensures
        final(ds)@ == apply_seg(old(ds)@, seg),
{
    match seg.body {
        SegBody::PresComp(p) => {
            ds.width = p.width;
            ds.height = p.height;
            ds.comp_num = p.comp_num;
            ds.comp_state = p.comp_state;
            ds.pal_update = p.pal_update;
            ds.pal_id = p.pal_id;
            ds.comp_objs = p.comp_objs;
        },
        SegBody::WinDef(ws) => {
            let n = ws.len();
            let mut i: usize = 0;
            while i < n
                invariant
                    i <= n,
                    n == ws@.len(),
                    ds.windows@ == upsert_windows(old(ds).windows@, ws@.take(i as int)),
                    ds.pts == old(ds).pts,
                    ds.dts == old(ds).dts,
                    ds.width == old(ds).width,
                    ds.height == old(ds).height,
                    ds.comp_num == old(ds).comp_num,
                    ds.comp_state == old(ds).comp_state,
                    ds.pal_update == old(ds).pal_update,
                    ds.pal_id == old(ds).pal_id,
                    ds.comp_objs@ == old(ds).comp_objs@,
                    ds.palettes@ == old(ds).palettes@,
                    ds.objects@ == old(ds).objects@,
                decreases n - i,
            {
                proof {
                    let pre = ws@.take(i as int);
                    let post = ws@.take(i as int + 1);
                    assert(post.drop_last() =~= pre);
                    assert(post.last() == ws@[i as int]);
                }
                upsert_window_exec(&mut ds.windows, ws[i]);
                i = i + 1;
            }
            proof {
                assert(ws@.take(n as int) =~= ws@);
            }
        },
        SegBody::PalDef(p) => {
            upsert_palette_exec(&mut ds.palettes, p);
        },
        SegBody::ObjDef(o) => {
            upsert_object_exec(&mut ds.objects, o);
        },
        SegBody::End => {},
    }
}

/// Pulls segments until an End segment closes the set. `Ok(None)` is the
/// normal termination signal: the input ended exactly at a segment boundary
/// rather than inside a segment. The contract names the exact run of
/// segments consumed and states that the returned set is their assembly.
#[verifier::rlimit(60)]
pub fn read_display_set(r: &mut SegReader) -> (res: SegResult<Option<DisplaySet>>)
    requires
        old(r).wf(),
    ensures
        final(r).wf(),
        final(r).buf@ == old(r).buf@,
        old(r).pos <= final(r).pos <= old(r).buf@.len(),
        match res {
            Result::Ok(opt) => match opt {
                Option::Some(ds) => exists|segs: Seq<Seg>|
                    #[trigger] displayset_parse(
                        old(r).buf@,
                        old(r).pos as int,
                        final(r).pos as int,
                        segs,
                        ds@,
                    ),
                Option::None => final(r).pos == old(r).buf@.len() && exists|segs: Seq<Seg>|
                    #[trigger] open_run(
                        old(r).buf@,
                        old(r).pos as int,
                        final(r).pos as int,
                        segs,
                    ),
            },
            Result::Err(e) => spec_seg_error(old(r).buf@, final(r).pos as int) == Option::Some(e)
                && exists|segs: Seq<Seg>|
                #[trigger] open_run(old(r).buf@, old(r).pos as int, final(r).pos as int, segs),
        },
{
    let ghost start = r.pos as int;
    let mut ds = DisplaySet {
        pts: 0,
        dts: 0,
        width: 0,
        height: 0,
        comp_num: 0,
        comp_state: CompState::Normal,
        pal_update: false,
        pal_id: 0,
        comp_objs: Vec::new(),
        windows: Vec::new(),
        palettes: Vec::new(),
        objects: Vec::new(),
    };
    let ghost mut segs: Seq<Seg> = Seq::<Seg>::empty();
    let mut first = true;
    proof {
        assert(segs_bytes(segs) =~= old(r).buf@.subrange(start, start));
    }
    loop
        invariant
            r.wf(),
            r.buf@ == old(r).buf@,
            start == old(r).pos as int,
            start <= r.pos as int <= r.buf@.len(),
            segs_bytes(segs) == old(r).buf@.subrange(start, r.pos as int),
            forall|k: int| 0 <= k < segs.len() ==> wf_seg(#[trigger] segs[k]),
            forall|k: int| 0 <= k < segs.len() ==> !((#[trigger] segs[k]).body is End),
            first ==> segs.len() == 0 && ds@ == init_display_set(0, 0),
            !first ==> segs.len() >= 1 && ds@ == assemble(
                init_display_set(segs[0].pts, segs[0].dts),
                segs,
            ),
        decreases r.buf@.len() - r.pos,
    {
        let ghost prev_pos = r.pos as int;
        let step = r.read_seg();
        match step {
            Result::Err(e) => {
                proof {
                    assert(open_run(old(r).buf@, start, r.pos as int, segs));
                }
                return Result::Err(e);
            },
            Result::Ok(opt) => match opt {
                Option::None => {
                    proof {
                        assert(open_run(old(r).buf@, start, r.pos as int, segs));
                    }
                    return Result::Ok(Option::None);
                },
                Option::Some(seg) => {
                    let ghost gseg = seg;
                    let ghost pre_segs = segs;
                    if first {
                        ds.pts = seg.pts;
                        ds.dts = seg.dts;
                        first = false;
                        proof {
                            assert(ds@ =~~= init_display_set(gseg.pts, gseg.dts));
                        }
                    }
                    let is_end = matches!(seg.body, SegBody::End);
                    proof {
                        segs = segs.push(gseg);
                        assert(segs.drop_last() =~= pre_segs);
                        assert(segs.last() == gseg);
                        assert(segs[0] == if pre_segs.len() == 0 {
                            gseg
                        } else {
                            pre_segs[0]
                        });
                        assert(old(r).buf@.subrange(start, prev_pos) + spec_seg_bytes(gseg)
                            =~= old(r).buf@.subrange(start, r.pos as int));
                        assert(segs_bytes(segs) == old(r).buf@.subrange(start, r.pos as int));
                    }
                    let ghost pre_ds = ds@;
                    apply_seg_exec(&mut ds, seg);
                    proof {
                        assert(ds@ == apply_seg(pre_ds, gseg));
                        let d0 = init_display_set(segs[0].pts, segs[0].dts);
                        if pre_segs.len() == 0 {
                            assert(pre_ds == init_display_set(gseg.pts, gseg.dts));
                            assert(assemble(d0, pre_segs) == pre_ds);
                        } else {
                            assert(segs[0] == pre_segs[0]);
                            assert(assemble(d0, pre_segs) == pre_ds);
                        }
                        assert(assemble(d0, segs) == apply_seg(
                            assemble(d0, segs.drop_last()),
                            segs.last(),
                        ));
                        assert(ds@ == assemble(d0, segs));
                    }
                    if is_end {
                        proof {
                            assert(displayset_parse(
                                old(r).buf@,
                                start,
                                r.pos as int,
                                segs,
                                ds@,
                            ));
                        }
                        return Result::Ok(Option::Some(ds));
                    }
                },
            },
        }
    }
}

/// The byte stream a display set writes back as: one presentation
/// composition segment, one window definition segment where any window
/// exists, one palette definition segment per palette, one object definition
/// segment per object, and the closing End segment, all carrying the set's
/// timestamps.
pub open spec fn pal_segs_bytes(pts: u32, dts: u32, ps: Seq<PalDefSeg>) -> Seq<u8>
    decreases ps.len(),
{
    if ps.len() == 0 {
        Seq::<u8>::empty()
    } else {
        pal_segs_bytes(pts, dts, ps.drop_last()) + spec_seg_frame(
            pts,
            dts,
            KIND_PDS,
            spec_pds_body_parts(ps.last().id, ps.last().version, ps.last().entries@),
        )
    }
}

pub open spec fn obj_segs_bytes(pts: u32, dts: u32, os: Seq<ObjDefSeg>) -> Seq<u8>
    decreases os.len(),
{
    if os.len() == 0 {
        Seq::<u8>::empty()
    } else {
        obj_segs_bytes(pts, dts, os.drop_last()) + spec_seg_frame(
            pts,
            dts,
            KIND_ODS,
            spec_ods_body_parts(
                os.last().id,
                os.last().version,
                os.last().seq_flag,
                os.last().width,
                os.last().height,
                os.last().payload@,
            ),
        )
    }
}

pub open spec fn spec_display_set_bytes(d: DisplaySetV) -> Seq<u8> {
    spec_seg_frame(
        d.pts,
        d.dts,
        KIND_PCS,
        spec_pcs_body_parts(
            d.width,
            d.height,
            d.comp_num,
            d.comp_state,
            d.pal_update,
            d.pal_id,
            d.comp_objs,
        ),
    ) + (if d.windows.len() == 0 {
        Seq::<u8>::empty()
    } else {
        spec_seg_frame(d.pts, d.dts, KIND_WDS, spec_wds_body(d.windows))
    }) + pal_segs_bytes(d.pts, d.dts, d.palettes) + obj_segs_bytes(d.pts, d.dts, d.objects)
        + spec_seg_frame(d.pts, d.dts, KIND_END, Seq::<u8>::empty())
}

/// The counts and lengths a display set must respect to be serializable.
pub open spec fn wf_display_set(d: DisplaySetV) -> bool {
    &&& d.comp_objs.len() <= 255
    &&& d.windows.len() <= 255
    &&& forall|k: int| 0 <= k < d.palettes.len() ==> (#[trigger] d.palettes[k]).entries@.len()
        <= 13106
    &&& forall|k: int| 0 <= k < d.objects.len() ==> (#[trigger] d.objects[k]).payload@.len()
        <= 65524
}

/// Whether this display set can be serialized; callers outside the verified
/// world test this before writing.
pub fn check_writable(ds: &DisplaySet) -> (r: bool)
    ensures
        r == wf_display_set(ds@),
{
    if ds.comp_objs.len() > 255 || ds.windows.len() > 255 {
        return false;
    }
    let np = ds.palettes.len();
    let mut i: usize = 0;
    while i < np
        invariant
            i <= np,
            np == ds.palettes@.len(),
            forall|k: int| 0 <= k < i ==> (#[trigger] ds.palettes@[k]).entries@.len() <= 13106,
        decreases np - i,
    {
        if ds.palettes[i].entries.len() > 13106 {
            proof {
                assert((ds@.palettes[i as int]).entries@.len() > 13106);
            }
            return false;
        }
        i = i + 1;
    }
    let no = ds.objects.len();
    let mut j: usize = 0;
    while j < no
        invariant
            j <= no,
            no == ds.objects@.len(),
            forall|k: int| 0 <= k < j ==> (#[trigger] ds.objects@[k]).payload@.len() <= 65524,
        decreases no - j,
    {
        if ds.objects[j].payload.len() > 65524 {
            proof {
                assert((ds@.objects[j as int]).payload@.len() > 65524);
            }
            return false;
        }
        j = j + 1;
    }
    true
}

/// Records a frame resolution in the accumulator of resolutions observed so
/// far, and says whether it was previously unseen. The accumulator is
/// explicit state passed in and out of each orchestration step.
pub fn observe_resolution(sizes: &mut Vec<(u16, u16)>, width: u16, height: u16) -> (is_new: bool)
    ensures
        is_new == !old(sizes)@.contains((width, height)),
        is_new ==> final(sizes)@ == old(sizes)@.push((width, height)),
        !is_new ==> final(sizes)@ == old(sizes)@,
{
    let n = sizes.len();
    let mut i: usize = 0;
    while i < n
        invariant
            i <= n,
            n == sizes@.len(),
            sizes@ == old(sizes)@,
            forall|k: int| 0 <= k < i ==> sizes@[k] != (width, height),
        decreases n - i,
    {
        if sizes[i].0 == width && sizes[i].1 == height {
            proof {
                assert(sizes@[i as int] == (width, height));
            }
            return false;
        }
        i = i + 1;
    }
    proof {
        assert(!old(sizes)@.contains((width, height)));
    }
    sizes.push((width, height));
    true
}

/// Serialize one display set back into segment frames.
pub fn write_display_set(ds: &DisplaySet) -> (r: Vec<u8>)
    requires
        wf_display_set(ds@),
    ensures
        r@ == spec_display_set_bytes(ds@),
{
    let mut out: Vec<u8> = Vec::new();
    let mut body: Vec<u8> = Vec::new();
    encode_pcs_parts(
        &mut body,
        ds.width,
        ds.height,
        ds.comp_num,
        ds.comp_state,
        ds.pal_update,
        ds.pal_id,
        &ds.comp_objs,
    );
    proof {
        lemma_comp_objs_bytes_len(ds.comp_objs@);
    }
    encode_frame(&mut out, ds.pts, ds.dts, KIND_PCS, &body);
    if ds.windows.len() > 0 {
        let mut wbody: Vec<u8> = Vec::new();
        encode_wds_parts(&mut wbody, &ds.windows);
        proof {
            lemma_wins_bytes_len(ds.windows@);
        }
        encode_frame(&mut out, ds.pts, ds.dts, KIND_WDS, &wbody);
    }
    let ghost head = out@;
    let np = ds.palettes.len();
    proof {
        assert forall|k: int| 0 <= k < np implies (#[trigger] ds.palettes@[k]).entries@.len()
            <= 13106 by {
            assert((ds@.palettes[k]).entries@.len() <= 13106);
        };
    }
    let mut i: usize = 0;
    while i < np
        invariant
            i <= np,
            np == ds.palettes@.len(),
            forall|k: int| 0 <= k < np ==> (#[trigger] ds.palettes@[k]).entries@.len() <= 13106,
            out@ == head + pal_segs_bytes(ds.pts, ds.dts, ds.palettes@.take(i as int)),
        decreases np - i,
    {
        let mut pbody: Vec<u8> = Vec::new();
        let p = &ds.palettes[i];
        encode_pds_parts(&mut pbody, p.id, p.version, &p.entries);
        proof {
            lemma_pal_entries_bytes_len(p.entries@);
        }
        encode_frame(&mut out, ds.pts, ds.dts, KIND_PDS, &pbody);
        proof {
            let pre = ds.palettes@.take(i as int);
            let post = ds.palettes@.take(i as int + 1);
            assert(post.drop_last() =~= pre);
            assert(post.last() == ds.palettes@[i as int]);
            assert(out@ =~= head + pal_segs_bytes(ds.pts, ds.dts, post));
        }
        i = i + 1;
    }
    proof {
        assert(ds.palettes@.take(np as int) =~= ds.palettes@);
    }
    let ghost head2 = out@;
    let no = ds.objects.len();
    proof {
        assert forall|k: int| 0 <= k < no implies (#[trigger] ds.objects@[k]).payload@.len()
            <= 65524 by {
            assert((ds@.objects[k]).payload@.len() <= 65524);
        };
    }
    let mut j: usize = 0;
    while j < no
        invariant
            j <= no,
            no == ds.objects@.len(),
            forall|k: int| 0 <= k < no ==> (#[trigger] ds.objects@[k]).payload@.len() <= 65524,
            out@ == head2 + obj_segs_bytes(ds.pts, ds.dts, ds.objects@.take(j as int)),
        decreases no - j,
    {
        let mut obody: Vec<u8> = Vec::new();
        let o = &ds.objects[j];
        encode_ods_parts(&mut obody, o.id, o.version, o.seq_flag, o.width, o.height, &o.payload);
        encode_frame(&mut out, ds.pts, ds.dts, KIND_ODS, &obody);
        proof {
            let pre = ds.objects@.take(j as int);
            let post = ds.objects@.take(j as int + 1);
            assert(post.drop_last() =~= pre);
            assert(post.last() == ds.objects@[j as int]);
            assert(out@ =~= head2 + obj_segs_bytes(ds.pts, ds.dts, post));
        }
        j = j + 1;
    }
    proof {
        assert(ds.objects@.take(no as int) =~= ds.objects@);
    }
    let ebody: Vec<u8> = Vec::new();
    encode_frame(&mut out, ds.pts, ds.dts, KIND_END, &ebody);
    proof {
        assert(out@ =~= spec_display_set_bytes(ds@));
    }
    out
}

} // verus!
