use cutliner::geometry::Point;
use cutliner::session::{
    plan_save, plan_save_to, save_dialog_extensions, save_file_name, save_format, SaveAction,
    SaveFormat, Session,
};
use cutliner::svg::build_svg_from_contours;

fn with_contours() -> Session {
    let mut s = Session::new();
    s.set_image_size(5, 6);
    s.store_contours(vec![vec![Point::new(0, 0), Point::new(1, 2)]]);
    s
}

#[test]
fn formats_ignore_ascii_case() {
    assert_eq!(save_format("svg"), SaveFormat::Svg);
    assert_eq!(save_format("SVG"), SaveFormat::Svg);
    assert_eq!(save_format("Dxf"), SaveFormat::Dxf);
    assert_eq!(save_format("png"), SaveFormat::Raster);
    assert_eq!(save_format(""), SaveFormat::Raster);
    assert_eq!(save_format("svgz"), SaveFormat::Raster);
    assert_eq!(save_format("sv"), SaveFormat::Raster);
}

#[test]
fn svg_target_gets_svg_document() {
    let s = with_contours();
    let svg = build_svg_from_contours(&vec![vec![Point::new(0, 0), Point::new(1, 2)]], 5, 6);
    assert_eq!(
        plan_save(&s, "/o/x.SVG", Some("SVG")),
        Ok(SaveAction::WriteSvg { target: "/o/x.SVG".to_string(), svg: svg.clone() })
    );
    assert_eq!(
        plan_save_to(&s, "/o/x.svg"),
        Ok(SaveAction::WriteSvg { target: "/o/x.svg".to_string(), svg })
    );
}

#[test]
fn dxf_target_gets_conversion() {
    let s = with_contours();
    match plan_save_to(&s, "/o/cut.dxf") {
        Ok(SaveAction::ConvertToDxf { target, svg }) => {
            assert_eq!(target, "/o/cut.dxf");
            assert!(svg.starts_with("<svg"));
        }
        other => panic!("{:?}", other),
    }
}

#[test]
fn vector_targets_fail_without_contours() {
    let mut s = Session::new();
    s.set_current_path("/tmp/a.png".to_string());
    let msg = Err("当前没有可保存的轮廓数据".to_string());
    assert_eq!(plan_save_to(&s, "/o/x.svg"), msg);
    assert_eq!(plan_save_to(&s, "/o/x.dxf"), msg);
}

#[test]
fn raster_target_copies_current_file() {
    let mut s = with_contours();
    s.set_current_path("/tmp/cutliner/cat_1.png".to_string());
    assert_eq!(
        plan_save_to(&s, "/o/out.jpg"),
        Ok(SaveAction::CopySource {
            source: "/tmp/cutliner/cat_1.png".to_string(),
            target: "/o/out.jpg".to_string()
        })
    );
    assert_eq!(
        plan_save_to(&s, "/o/out"),
        Ok(SaveAction::CopySource {
            source: "/tmp/cutliner/cat_1.png".to_string(),
            target: "/o/out.png".to_string()
        })
    );
    assert_eq!(
        plan_save(&s, "/o/out.", Some("")),
        Ok(SaveAction::CopySource {
            source: "/tmp/cutliner/cat_1.png".to_string(),
            target: "/o/out..png".to_string()
        })
    );
}

#[test]
fn raster_target_fails_without_current_file() {
    let s = Session::new();
    assert_eq!(plan_save_to(&s, "/o/out.png"), Err("当前源路径不存在".to_string()));
}

#[test]
fn dialog_offers_vector_formats_only_with_contours() {
    assert_eq!(save_dialog_extensions(&Session::new()), vec!["png", "jpg", "jpeg"]);
    assert_eq!(save_dialog_extensions(&with_contours()), vec!["png", "jpg", "jpeg", "svg", "dxf"]);
}

#[test]
fn proposed_name_uses_stem_or_output() {
    let mut s = Session::new();
    assert_eq!(save_file_name(&s), "output.png");
    s.init(vec![1, 2], "/res/assets/demo.jpg".to_string(), "demo.jpg");
    assert_eq!(save_file_name(&s), "demo.png");
}
