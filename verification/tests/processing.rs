use cutliner::geometry::Point;
use cutliner::pipeline::{dilation_kernel, smooth_kernel_size, solve_plan, solve_source, ImgSolveCfgs, Mode, Step};
use cutliner::session::{save_dialog_extensions, Session};

fn cfgs() -> ImgSolveCfgs {
    ImgSolveCfgs {
        bleed: 0,
        is_delete_inner: 0,
        smooth: 0,
        offset: 0,
        simplify: 0,
        remove_noise_inner: 3,
        remove_noise_outer: 4,
        is_contain_inner: 0,
    }
}

#[test]
fn bg_remove_minimal_plan() {
    assert_eq!(
        solve_plan(Mode::BgRemove, &cfgs()),
        vec![
            Step::Binarize,
            Step::RemoveNoise { inner_size: 3, outer_size: 4, keep_holes: false },
            Step::RemoveBackground { delete_inner: false },
            Step::ExportNamedAfterSource,
            Step::ClearContours,
        ]
    );
}

#[test]
fn bg_remove_full_plan() {
    let c = ImgSolveCfgs { bleed: 5, is_delete_inner: 1, smooth: 4, simplify: 20, offset: 9, ..cfgs() };
    assert_eq!(
        solve_plan(Mode::BgRemove, &c),
        vec![
            Step::Binarize,
            Step::Bleed { expand: 5 },
            Step::Binarize,
            Step::RemoveNoise { inner_size: 3, outer_size: 4, keep_holes: true },
            Step::SimplifyMask { permille: 20 },
            Step::Smooth { size: 4 },
            Step::RemoveBackground { delete_inner: true },
            Step::ExportNamedAfterSource,
            Step::ClearContours,
        ]
    );
}

#[test]
fn extract_minimal_plan() {
    assert_eq!(
        solve_plan(Mode::ExtractContour, &cfgs()),
        vec![
            Step::Binarize,
            Step::RemoveNoise { inner_size: 3, outer_size: 4, keep_holes: false },
            Step::FindContours { with_inner: false },
            Step::StoreContours,
            Step::DrawContours,
            Step::ExportNamedTemp,
        ]
    );
}

#[test]
fn extract_full_plan() {
    let c = ImgSolveCfgs { bleed: 5, is_contain_inner: 2, smooth: 3, simplify: 1, offset: -2, ..cfgs() };
    assert_eq!(
        solve_plan(Mode::ExtractContour, &c),
        vec![
            Step::Binarize,
            Step::RemoveNoise { inner_size: 3, outer_size: 4, keep_holes: true },
            Step::Smooth { size: 3 },
            Step::Dilate { expand: -2 },
            Step::FindContours { with_inner: true },
            Step::SimplifyContours { permille: 1 },
            Step::StoreContours,
            Step::DrawContours,
            Step::ExportNamedTemp,
        ]
    );
}

#[test]
fn negative_settings_skip_optional_steps() {
    let c = ImgSolveCfgs { bleed: -1, smooth: -4, simplify: -3, ..cfgs() };
    assert_eq!(solve_plan(Mode::BgRemove, &c).len(), 5);
    assert_eq!(solve_plan(Mode::ExtractContour, &c).len(), 6);
}

#[test]
fn processing_needs_loaded_image() {
    let mut s = Session::new();
    assert_eq!(solve_source(&s), Err("Thread panicked".to_string()));
    s.ready(vec![7, 8], "sample.png");
    let (data, stem) = solve_source(&s).unwrap();
    assert_eq!(data, &vec![7u8, 8]);
    assert_eq!(stem, "sample");
}

#[test]
fn picked_source_without_stem_keeps_old_stem() {
    let mut s = Session::new();
    s.init(vec![1], "/r/demo.png".to_string(), "demo.png");
    s.pick_source(vec![2, 3], None);
    let (data, stem) = solve_source(&s).unwrap();
    assert_eq!(data, &vec![2u8, 3]);
    assert_eq!(stem, "demo");
    s.pick_source(vec![4], Some("other".to_string()));
    assert_eq!(solve_source(&s).unwrap().1, "other");
}

#[test]
fn smoothing_kernel_is_odd() {
    assert_eq!(smooth_kernel_size(4), 5);
    assert_eq!(smooth_kernel_size(5), 5);
    assert_eq!(smooth_kernel_size(0), 1);
    assert_eq!(smooth_kernel_size(-2), -1);
    assert_eq!(smooth_kernel_size(-3), -3);
    assert_eq!(smooth_kernel_size(i32::MAX), i32::MAX);
}

#[test]
fn dilation_kernel_is_centred() {
    assert_eq!(dilation_kernel(3), (7, Point::new(3, 3)));
    assert_eq!(dilation_kernel(0), (1, Point::new(0, 0)));
    assert_eq!(dilation_kernel(-2), (-3, Point::new(-2, -2)));
}

#[test]
fn ready_names_results_without_extension() {
    let mut s = Session::new();
    s.ready(vec![1], "logo.png");
    assert_eq!(s.src_stem.as_deref(), Some("logo"));
}

fn run_session_effects(s: &mut Session, mode: Mode) {
    for step in solve_plan(mode, &cfgs()) {
        match step {
            Step::StoreContours => s.store_contours(vec![vec![Point::new(0, 0), Point::new(1, 1)]]),
            Step::ClearContours => s.clear_contours(),
            _ => {}
        }
    }
}

#[test]
fn mode_decides_offered_save_formats() {
    let mut s = Session::new();
    run_session_effects(&mut s, Mode::ExtractContour);
    assert_eq!(save_dialog_extensions(&s), vec!["png", "jpg", "jpeg", "svg", "dxf"]);
    run_session_effects(&mut s, Mode::BgRemove);
    assert_eq!(save_dialog_extensions(&s), vec!["png", "jpg", "jpeg"]);
}
