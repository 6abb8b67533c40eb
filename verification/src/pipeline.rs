//! Which image operations each processing mode runs, in which order, and the
//! kernel sizes they use.
use vstd::prelude::*;
use crate::geometry::Point;
use crate::session::{dialog_extensions, Session};

verus! {

/// What processing produces.
#[derive(Clone, Copy, PartialEq, Eq, Debug)]
pub enum Mode {
    /// The image with its background made transparent.
    BgRemove,
    /// The traced outline of the image's shapes.
    ExtractContour,
}

/// The integer settings of a processing run. The binarisation threshold is
/// handed to the image backend as it is and plays no part in these decisions.
#[derive(Clone, Copy, PartialEq, Eq, Debug)]
pub struct ImgSolveCfgs {
    /// Pixels of bleed added around the shapes before the background goes.
    pub bleed: i32,
    /// Non-zero: the background removal also clears the shapes' holes.
    pub is_delete_inner: u8,
    /// Size of the edge smoothing; 0 for none.
    pub smooth: i32,
    /// Pixels by which the outline is grown; 0 for none.
    pub offset: i32,
    /// Outline simplification, in thousandths of the outline's length; 0 for none.
    pub simplify: i32,
    /// Size of the specks removed inside the shapes.
    pub remove_noise_inner: i32,
    /// Size of the specks removed outside the shapes.
    pub remove_noise_outer: i32,
    /// Non-zero: the outline also traces the shapes' holes.
    pub is_contain_inner: u8,
}

/// One image operation of a processing run.
#[derive(Clone, Copy, PartialEq, Eq, Debug)]
pub enum Step {
    /// Binarise the working image with the configured threshold.
    Binarize,
    /// Bleed the working image `expand` pixels beyond the shapes of the mask.
    Bleed { expand: i32 },
    /// Remove specks of the given sizes from the mask; fill its holes unless `keep_holes`.
    RemoveNoise { inner_size: i32, outer_size: i32, keep_holes: bool },
    /// Simplify the mask's outlines by `permille` thousandths of their length.
    SimplifyMask { permille: i32 },
    /// Smooth the mask's edges with a kernel of about `size` pixels.
    Smooth { size: i32 },
    /// Grow the mask by `expand` pixels.
    Dilate { expand: i32 },
    /// Trace the mask's contours, holes included when `with_inner` holds.
    FindContours { with_inner: bool },
    /// Simplify the traced contours by `permille` thousandths of their length.
    SimplifyContours { permille: i32 },
    /// Keep the working image only where the mask is set, on a transparent background.
    RemoveBackground { delete_inner: bool },
    /// Keep the traced contours in the session, for saving.
    StoreContours,
    /// Draw the traced contours, black on white, at the image's size.
    DrawContours,
    /// Export the result under the source's stem.
    ExportNamedAfterSource,
    /// Export the result under a fresh scratch name.
    ExportNamedTemp,
    /// Forget any contours kept in the session.
    ClearContours,
}

/// `step` when `cond` holds, else nothing.
pub open spec fn step_if(cond: bool, step: Step) -> Seq<Step> {
    if cond {
        seq![step]
    } else {
        Seq::empty()
    }
}

/// The operations of a background removal: bleed (then binarise again),
/// remove specks, simplify, smooth, cut out, export, forget contours.
pub open spec fn bg_remove_plan(c: ImgSolveCfgs) -> Seq<Step> {
    seq![Step::Binarize] + (if c.bleed > 0 {
        seq![Step::Bleed { expand: c.bleed }, Step::Binarize]
    } else {
        Seq::empty()
    }) + seq![
        Step::RemoveNoise {
            inner_size: c.remove_noise_inner,
            outer_size: c.remove_noise_outer,
            keep_holes: c.is_delete_inner > 0,
        },
    ] + step_if(c.simplify > 0, Step::SimplifyMask { permille: c.simplify }) + step_if(
        c.smooth > 0,
        Step::Smooth { size: c.smooth },
    ) + seq![
        Step::RemoveBackground { delete_inner: c.is_delete_inner > 0 },
        Step::ExportNamedAfterSource,
        Step::ClearContours,
    ]
}

/// The operations of an outline extraction: remove specks, smooth, grow,
/// trace, simplify, keep the contours, draw them, export.
pub open spec fn extract_plan(c: ImgSolveCfgs) -> Seq<Step> {
    seq![
        Step::Binarize,
        Step::RemoveNoise {
            inner_size: c.remove_noise_inner,
            outer_size: c.remove_noise_outer,
            keep_holes: c.is_contain_inner > 0,
        },
    ] + step_if(c.smooth > 0, Step::Smooth { size: c.smooth }) + step_if(
        c.offset != 0,
        Step::Dilate { expand: c.offset },
    ) + seq![Step::FindContours { with_inner: c.is_contain_inner > 0 }] + step_if(
        c.simplify > 0,
        Step::SimplifyContours { permille: c.simplify },
    ) + seq![Step::StoreContours, Step::DrawContours, Step::ExportNamedTemp]
}

/// The operations that `mode` runs with settings `c`, in order.
pub open spec fn plan_of(mode: Mode, c: ImgSolveCfgs) -> Seq<Step> {
    match mode {
        Mode::BgRemove => bg_remove_plan(c),
        Mode::ExtractContour => extract_plan(c),
    }
}

/// The operations that `mode` runs with settings `cfgs`, in order.
pub fn solve_plan(mode: Mode, cfgs: &ImgSolveCfgs) -> (steps: Vec<Step>)
    ensures
        steps@ == plan_of(mode, *cfgs),
{
    let mut steps: Vec<Step> = Vec::new();
    let c = *cfgs;
    match mode {
        Mode::BgRemove => {
            steps.push(Step::Binarize);
            if c.bleed > 0 {
                steps.push(Step::Bleed { expand: c.bleed });
                steps.push(Step::Binarize);
            }
            steps.push(
                Step::RemoveNoise {
                    inner_size: c.remove_noise_inner,
                    outer_size: c.remove_noise_outer,
                    keep_holes: c.is_delete_inner > 0,
                },
            );
            if c.simplify > 0 {
                steps.push(Step::SimplifyMask { permille: c.simplify });
            }
            if c.smooth > 0 {
                steps.push(Step::Smooth { size: c.smooth });
            }
            steps.push(Step::RemoveBackground { delete_inner: c.is_delete_inner > 0 });
            steps.push(Step::ExportNamedAfterSource);
            steps.push(Step::ClearContours);
            assert(steps@ =~= bg_remove_plan(c));
        },
        Mode::ExtractContour => {
            steps.push(Step::Binarize);
            steps.push(
                Step::RemoveNoise {
                    inner_size: c.remove_noise_inner,
                    outer_size: c.remove_noise_outer,
                    keep_holes: c.is_contain_inner > 0,
                },
            );
            if c.smooth > 0 {
                steps.push(Step::Smooth { size: c.smooth });
            }
            if c.offset != 0 {
                steps.push(Step::Dilate { expand: c.offset });
            }
            steps.push(Step::FindContours { with_inner: c.is_contain_inner > 0 });
            if c.simplify > 0 {
                steps.push(Step::SimplifyContours { permille: c.simplify });
            }
            steps.push(Step::StoreContours);
            steps.push(Step::DrawContours);
            steps.push(Step::ExportNamedTemp);
            assert(steps@ =~= extract_plan(c));
        },
    }
    steps
}

/// A background removal never traces or keeps contours, and ends by
/// forgetting any that were kept.
pub proof fn lemma_bg_remove_forgets_contours(c: ImgSolveCfgs)
    ensures
        plan_of(Mode::BgRemove, c).last() == Step::ClearContours,
        forall|i: int|
            0 <= i < plan_of(Mode::BgRemove, c).len() ==> (!(#[trigger] plan_of(Mode::BgRemove, c)[i] is FindContours)
                && plan_of(Mode::BgRemove, c)[i] != Step::StoreContours),
{
}

/// An outline extraction keeps the contours it traced, before drawing and
/// exporting them, and never forgets them.
pub proof fn lemma_extract_keeps_traced_contours(c: ImgSolveCfgs)
    ensures
        exists|i: int, j: int|
            (0 <= i < j < plan_of(Mode::ExtractContour, c).len() && #[trigger] plan_of(Mode::ExtractContour, c)[i]
                == (Step::FindContours { with_inner: c.is_contain_inner > 0 })
                && #[trigger] plan_of(Mode::ExtractContour, c)[j] == Step::StoreContours),
        forall|i: int|
            0 <= i < plan_of(Mode::ExtractContour, c).len() ==> #[trigger] plan_of(Mode::ExtractContour, c)[i]
                != Step::ClearContours,
        plan_of(Mode::ExtractContour, c).last() == Step::ExportNamedTemp,
{
    let p = plan_of(Mode::ExtractContour, c);
    let k = p.len() - 4;
    if c.simplify > 0 {
        assert(p[k - 1] == Step::FindContours { with_inner: c.is_contain_inner > 0 });
        assert(p[k + 1] == Step::StoreContours);
    } else {
        assert(p[k] == Step::FindContours { with_inner: c.is_contain_inner > 0 });
        assert(p[k + 1] == Step::StoreContours);
    }
}

/// Each optional operation runs exactly when its setting asks for it:
/// smoothing when `smooth` is positive, bleeding (removal only) when `bleed`
/// is positive, growing (extraction only) when `offset` is non-zero.
pub proof fn lemma_optional_steps(mode: Mode, c: ImgSolveCfgs)
    ensures
        plan_of(mode, c).contains((Step::Smooth { size: c.smooth })) <==> (c.smooth > 0),
        plan_of(Mode::BgRemove, c).contains((Step::Bleed { expand: c.bleed })) <==> (c.bleed > 0),
        plan_of(Mode::ExtractContour, c).contains((Step::Dilate { expand: c.offset })) <==> (c.offset
            != 0),
{
    let b = plan_of(Mode::BgRemove, c);
    let e = plan_of(Mode::ExtractContour, c);
    if c.smooth > 0 {
        let kb = b.len() - 4;
        assert(b[kb] == Step::Smooth { size: c.smooth });
        assert(e[2] == Step::Smooth { size: c.smooth });
    }
    if c.bleed > 0 {
        assert(b[1] == Step::Bleed { expand: c.bleed });
    }
    if c.offset != 0 {
        let ke = if c.smooth > 0 { 3int } else { 2int };
        assert(e[ke] == Step::Dilate { expand: c.offset });
    }
}

/// Simplification runs exactly when `simplify` is positive, whatever the
/// other settings: an outline extraction simplifies the traced contours
/// right after tracing them and before keeping them; a background removal
/// simplifies the mask right after removing specks.
pub proof fn lemma_simplification_steps(c: ImgSolveCfgs)
    ensures
        plan_of(Mode::ExtractContour, c).contains((Step::SimplifyContours { permille: c.simplify })) <==> (
        c.simplify > 0),
        plan_of(Mode::BgRemove, c).contains((Step::SimplifyMask { permille: c.simplify })) <==> (c.simplify
            > 0),
        c.simplify > 0 ==> (exists|i: int|
            0 <= i && i + 2 < plan_of(Mode::ExtractContour, c).len() && #[trigger] plan_of(
                Mode::ExtractContour,
                c,
            )[i] == (Step::FindContours { with_inner: c.is_contain_inner > 0 }) && plan_of(
                Mode::ExtractContour,
                c,
            )[i + 1] == (Step::SimplifyContours { permille: c.simplify }) && plan_of(
                Mode::ExtractContour,
                c,
            )[i + 2] == Step::StoreContours),
        c.simplify > 0 ==> (exists|i: int|
            0 <= i && i + 1 < plan_of(Mode::BgRemove, c).len() && #[trigger] plan_of(Mode::BgRemove, c)[i]
                == (Step::RemoveNoise {
                inner_size: c.remove_noise_inner,
                outer_size: c.remove_noise_outer,
                keep_holes: c.is_delete_inner > 0,
            }) && plan_of(Mode::BgRemove, c)[i + 1] == (Step::SimplifyMask { permille: c.simplify })),
{
    let e = plan_of(Mode::ExtractContour, c);
    let b = plan_of(Mode::BgRemove, c);
    if c.simplify > 0 {
        let k = 2 + (if c.smooth > 0 { 1int } else { 0int }) + (if c.offset != 0 { 1int } else { 0int });
        assert(e[k] == (Step::FindContours { with_inner: c.is_contain_inner > 0 }));
        assert(e[k + 1] == (Step::SimplifyContours { permille: c.simplify }));
        assert(e[k + 2] == Step::StoreContours);
        let j = if c.bleed > 0 { 3int } else { 1int };
        assert(b[j] == (Step::RemoveNoise {
            inner_size: c.remove_noise_inner,
            outer_size: c.remove_noise_outer,
            keep_holes: c.is_delete_inner > 0,
        }));
        assert(b[j + 1] == (Step::SimplifyMask { permille: c.simplify }));
    }
}

/// The exact order of an outline extraction: binarise, remove specks (with
/// the hole switch of `is_contain_inner`), smooth if asked, grow if asked,
/// trace, simplify if asked, then keep, draw and export; nothing else.
pub proof fn lemma_extraction_order(c: ImgSolveCfgs)
    ensures
        ({
            let p = plan_of(Mode::ExtractContour, c);
            let sm: int = if c.smooth > 0 { 1 } else { 0 };
            let gr: int = if c.offset != 0 { 1 } else { 0 };
            let si: int = if c.simplify > 0 { 1 } else { 0 };
            &&& p.len() == 6 + sm + gr + si
            &&& p[0] == Step::Binarize
            &&& p[1] == (Step::RemoveNoise {
                inner_size: c.remove_noise_inner,
                outer_size: c.remove_noise_outer,
                keep_holes: c.is_contain_inner > 0,
            })
            &&& (c.smooth > 0 ==> p[2] == (Step::Smooth { size: c.smooth }))
            &&& (c.offset != 0 ==> p[2 + sm] == (Step::Dilate { expand: c.offset }))
            &&& p[2 + sm + gr] == (Step::FindContours { with_inner: c.is_contain_inner > 0 })
            &&& (c.simplify > 0 ==> p[3 + sm + gr] == (Step::SimplifyContours { permille: c.simplify }))
            &&& p[p.len() - 3] == Step::StoreContours
            &&& p[p.len() - 2] == Step::DrawContours
            &&& p[p.len() - 1] == Step::ExportNamedTemp
        }),
{
}

/// The exact order of a background removal: binarise, bleed and binarise
/// again if asked, remove specks (with the hole switch of
/// `is_delete_inner`), simplify if asked, smooth if asked, then cut out,
/// export under the source's stem and forget contours; nothing else.
pub proof fn lemma_removal_order(c: ImgSolveCfgs)
    ensures
        ({
            let p = plan_of(Mode::BgRemove, c);
            let bl: int = if c.bleed > 0 { 2 } else { 0 };
            let si: int = if c.simplify > 0 { 1 } else { 0 };
            let sm: int = if c.smooth > 0 { 1 } else { 0 };
            &&& p.len() == 5 + bl + si + sm
            &&& p[0] == Step::Binarize
            &&& (c.bleed > 0 ==> p[1] == (Step::Bleed { expand: c.bleed }) && p[2] == Step::Binarize)
            &&& p[1 + bl] == (Step::RemoveNoise {
                inner_size: c.remove_noise_inner,
                outer_size: c.remove_noise_outer,
                keep_holes: c.is_delete_inner > 0,
            })
            &&& (c.simplify > 0 ==> p[2 + bl] == (Step::SimplifyMask { permille: c.simplify }))
            &&& (c.smooth > 0 ==> p[2 + bl + si] == (Step::Smooth { size: c.smooth }))
            &&& p[p.len() - 3] == (Step::RemoveBackground { delete_inner: c.is_delete_inner > 0 })
            &&& p[p.len() - 2] == Step::ExportNamedAfterSource
            &&& p[p.len() - 1] == Step::ClearContours
        }),
{
}

/// The operations an outline extraction may run.
pub open spec fn allowed_in_extraction(s: Step) -> bool {
    !(s is Bleed) && !(s is SimplifyMask) && !(s is RemoveBackground) && s != Step::ClearContours && s
        != Step::ExportNamedAfterSource
}

/// The operations a background removal may run.
pub open spec fn allowed_in_removal(s: Step) -> bool {
    !(s is Dilate) && !(s is FindContours) && !(s is SimplifyContours) && s != Step::StoreContours && s
        != Step::DrawContours && s != Step::ExportNamedTemp
}

proof fn lemma_all_concat(a: Seq<Step>, b: Seq<Step>, pred: spec_fn(Step) -> bool)
    requires
        forall|i: int| 0 <= i < a.len() ==> pred(#[trigger] a[i]),
        forall|i: int| 0 <= i < b.len() ==> pred(#[trigger] b[i]),
    ensures
        forall|i: int| 0 <= i < (a + b).len() ==> pred(#[trigger] (a + b)[i]),
{
    assert forall|i: int| 0 <= i < (a + b).len() implies pred(#[trigger] (a + b)[i]) by {
        if i < a.len() {
            assert((a + b)[i] == a[i]);
        } else {
            assert((a + b)[i] == b[i - a.len()]);
        }
    }
}

/// Each mode runs only its own operations: an outline extraction never
/// bleeds, simplifies the mask, cuts out the background or forgets
/// contours; a background removal never grows the mask, traces, simplifies
/// or keeps contours, or draws them. Both start by binarising.
pub proof fn lemma_modes_keep_to_their_steps(c: ImgSolveCfgs)
    ensures
        plan_of(Mode::ExtractContour, c)[0] == Step::Binarize,
        plan_of(Mode::BgRemove, c)[0] == Step::Binarize,
        forall|i: int|
            0 <= i < plan_of(Mode::ExtractContour, c).len() ==> !(#[trigger] plan_of(Mode::ExtractContour, c)[i] is Bleed)
                && !(plan_of(Mode::ExtractContour, c)[i] is SimplifyMask) && !(plan_of(
                Mode::ExtractContour,
                c,
            )[i] is RemoveBackground) && plan_of(Mode::ExtractContour, c)[i] != Step::ClearContours
                && plan_of(Mode::ExtractContour, c)[i] != Step::ExportNamedAfterSource,
        forall|i: int|
            0 <= i < plan_of(Mode::BgRemove, c).len() ==> !(#[trigger] plan_of(Mode::BgRemove, c)[i] is Dilate)
                && !(plan_of(Mode::BgRemove, c)[i] is FindContours) && !(plan_of(Mode::BgRemove, c)[i] is SimplifyContours)
                && plan_of(Mode::BgRemove, c)[i] != Step::StoreContours && plan_of(Mode::BgRemove, c)[i]
                != Step::DrawContours && plan_of(Mode::BgRemove, c)[i] != Step::ExportNamedTemp,
{
    let fe = |s: Step| allowed_in_extraction(s);
    let e0 = seq![
        Step::Binarize,
        Step::RemoveNoise {
            inner_size: c.remove_noise_inner,
            outer_size: c.remove_noise_outer,
            keep_holes: c.is_contain_inner > 0,
        },
    ];
    let e1 = step_if(c.smooth > 0, Step::Smooth { size: c.smooth });
    let e2 = step_if(c.offset != 0, Step::Dilate { expand: c.offset });
    let e3 = seq![Step::FindContours { with_inner: c.is_contain_inner > 0 }];
    let e4 = step_if(c.simplify > 0, Step::SimplifyContours { permille: c.simplify });
    let e5 = seq![Step::StoreContours, Step::DrawContours, Step::ExportNamedTemp];
    assert(forall|i: int| 0 <= i < e0.len() ==> fe(#[trigger] e0[i]));
    assert(forall|i: int| 0 <= i < e1.len() ==> fe(#[trigger] e1[i]));
    assert(forall|i: int| 0 <= i < e2.len() ==> fe(#[trigger] e2[i]));
    assert(forall|i: int| 0 <= i < e3.len() ==> fe(#[trigger] e3[i]));
    assert(forall|i: int| 0 <= i < e4.len() ==> fe(#[trigger] e4[i]));
    assert(forall|i: int| 0 <= i < e5.len() ==> fe(#[trigger] e5[i]));
    lemma_all_concat(e0, e1, fe);
    lemma_all_concat(e0 + e1, e2, fe);
    lemma_all_concat(e0 + e1 + e2, e3, fe);
    lemma_all_concat(e0 + e1 + e2 + e3, e4, fe);
    lemma_all_concat(e0 + e1 + e2 + e3 + e4, e5, fe);
    assert(plan_of(Mode::ExtractContour, c) == e0 + e1 + e2 + e3 + e4 + e5);

    let fb = |s: Step| allowed_in_removal(s);
    let b0 = seq![Step::Binarize];
    let b1 = if c.bleed > 0 {
        seq![Step::Bleed { expand: c.bleed }, Step::Binarize]
    } else {
        Seq::empty()
    };
    let b2 = seq![
        Step::RemoveNoise {
            inner_size: c.remove_noise_inner,
            outer_size: c.remove_noise_outer,
            keep_holes: c.is_delete_inner > 0,
        },
    ];
    let b3 = step_if(c.simplify > 0, Step::SimplifyMask { permille: c.simplify });
    let b4 = step_if(c.smooth > 0, Step::Smooth { size: c.smooth });
    let b5 = seq![
        Step::RemoveBackground { delete_inner: c.is_delete_inner > 0 },
        Step::ExportNamedAfterSource,
        Step::ClearContours,
    ];
    assert(forall|i: int| 0 <= i < b0.len() ==> fb(#[trigger] b0[i]));
    assert(forall|i: int| 0 <= i < b1.len() ==> fb(#[trigger] b1[i]));
    assert(forall|i: int| 0 <= i < b2.len() ==> fb(#[trigger] b2[i]));
    assert(forall|i: int| 0 <= i < b3.len() ==> fb(#[trigger] b3[i]));
    assert(forall|i: int| 0 <= i < b4.len() ==> fb(#[trigger] b4[i]));
    assert(forall|i: int| 0 <= i < b5.len() ==> fb(#[trigger] b5[i]));
    lemma_all_concat(b0, b1, fb);
    lemma_all_concat(b0 + b1, b2, fb);
    lemma_all_concat(b0 + b1 + b2, b3, fb);
    lemma_all_concat(b0 + b1 + b2 + b3, b4, fb);
    lemma_all_concat(b0 + b1 + b2 + b3 + b4, b5, fb);
    assert(plan_of(Mode::BgRemove, c) == b0 + b1 + b2 + b3 + b4 + b5);
    let e = plan_of(Mode::ExtractContour, c);
    let b = plan_of(Mode::BgRemove, c);
    assert forall|i: int| 0 <= i < e.len() implies allowed_in_extraction(#[trigger] e[i]) by {
        assert(fe(e[i]));
    }
    assert forall|i: int| 0 <= i < b.len() implies allowed_in_removal(#[trigger] b[i]) by {
        assert(fb(b[i]));
    }
}

/// Whether contours are kept in the session after running `steps`, when
/// `before` says whether they were kept at the start: keeping stores them,
/// forgetting clears them, every other step leaves them as they are.
pub open spec fn contours_kept_after(steps: Seq<Step>, before: bool) -> bool
    decreases steps.len(),
{
    if steps.len() == 0 {
        before
    } else {
        let kept = contours_kept_after(steps.drop_last(), before);
        match steps.last() {
            Step::StoreContours => true,
            Step::ClearContours => false,
            _ => kept,
        }
    }
}

proof fn lemma_kept_after_append(a: Seq<Step>, b: Seq<Step>, before: bool)
    ensures
        contours_kept_after(a + b, before) == contours_kept_after(b, contours_kept_after(a, before)),
    decreases b.len(),
{
    if b.len() == 0 {
        assert(a + b =~= a);
    } else {
        lemma_kept_after_append(a, b.drop_last(), before);
        assert((a + b).drop_last() =~= a + b.drop_last());
        assert((a + b).last() == b.last());
    }
}

/// After a whole processing run the mode decides what can be saved: an
/// outline extraction leaves its contours kept, so the save dialog offers
/// SVG and DXF; a background removal leaves none kept, so it offers only
/// PNG and JPEG, whatever was kept before.
pub proof fn lemma_mode_decides_save_formats(mode: Mode, c: ImgSolveCfgs, before: bool)
    ensures
        contours_kept_after(plan_of(mode, c), before) == (mode is ExtractContour),
        dialog_extensions(contours_kept_after(plan_of(mode, c), before)) == (if mode is ExtractContour {
            seq!["png"@, "jpg"@, "jpeg"@, "svg"@, "dxf"@]
        } else {
            seq!["png"@, "jpg"@, "jpeg"@]
        }),
{
    let p = plan_of(mode, c);
    match mode {
        Mode::BgRemove => {
            assert(p.len() > 0);
            assert(p.last() == Step::ClearContours);
            assert(!contours_kept_after(p, before));
            assert(!contours_kept_after(plan_of(mode, c), before));
        },
        Mode::ExtractContour => {
            let n = p.len();
            let head = p.subrange(0, n - 2);
            let tail = p.subrange(n - 2, n as int);
            assert(p =~= head + tail);
            assert(tail =~= seq![Step::DrawContours, Step::ExportNamedTemp]);
            lemma_kept_after_append(head, tail, before);
            assert(head.last() == Step::StoreContours);
            assert(tail.drop_last() =~= seq![Step::DrawContours]);
            assert(tail.drop_last().drop_last() =~= Seq::<Step>::empty());
            assert(head.len() > 0);
            assert(contours_kept_after(head, before));
            assert(contours_kept_after(tail.drop_last().drop_last(), true));
            assert(contours_kept_after(tail.drop_last(), true));
            assert(contours_kept_after(tail, true));
            assert(contours_kept_after(plan_of(mode, c), before));
        },
    }
}

/// The message when processing starts with no image loaded.
pub open spec fn no_source_panic_message() -> Seq<char> {
    "Thread panicked"@
}

/// The image bytes and stem that processing starts from; processing without
/// them fails as a panicked worker does.
pub fn solve_source(session: &Session) -> (r: Result<(&Vec<u8>, &String), String>)
    ensures
        r is Ok <==> (session.src_data is Some && session.src_stem is Some),
        r matches Ok((data, stem)) ==> session.src_data == Some(*data) && session.src_stem == Some(
            *stem,
        ),
        r matches Err(m) ==> m@ == no_source_panic_message(),
{
    match (&session.src_data, &session.src_stem) {
        (Some(data), Some(stem)) => Ok((data, stem)),
        _ => Err(String::from_str("Thread panicked")),
    }
}

/// The side of the smoothing kernel for a requested `size`: `size` when it
/// is odd, the next number when it is even.
pub open spec fn smooth_kernel(size: int) -> int {
    if size % 2 == 0 {
        size + 1
    } else {
        size
    }
}

/// The smoothing kernel's side is odd, and the requested size or one more.
pub proof fn lemma_smooth_kernel_is_odd(size: int)
    ensures
        smooth_kernel(size) % 2 == 1,
        size <= smooth_kernel(size) <= size + 1,
{
}

/// The side of the smoothing kernel for a requested `size`.
pub fn smooth_kernel_size(size: i32) -> (k: i32)
    ensures
        k == smooth_kernel(size as int),
{
    if size % 2 == 0 {
        size + 1
    } else {
        size
    }
}

/// The side and anchor of the elliptic kernel that grows a mask by `expand`
/// pixels: side `2 * expand + 1`, anchored at its centre.
pub fn dilation_kernel(expand: i32) -> (kernel: (i32, Point))
    requires
        -1073741824 <= expand <= 1073741823,
    ensures
        kernel.0 == 2 * expand + 1,
        kernel.1 == (Point { x: expand, y: expand }),
{
    (2 * expand + 1, Point { x: expand, y: expand })
}

} // verus!
