use cutliner::ident::new_uuid_text;
use cutliner::names::{
    copy_name_with_id, export_names_with_id, new_export_names, new_temp_name, stem_of_name,
    temp_name_with_id,
};
use cutliner::session::Session;

fn is_v4_uuid(s: &str) -> bool {
    let b: Vec<char> = s.chars().collect();
    if b.len() != 36 {
        return false;
    }
    for (i, c) in b.iter().enumerate() {
        if i == 8 || i == 13 || i == 18 || i == 23 {
            if *c != '-' {
                return false;
            }
        } else if !(c.is_ascii_digit() || ('a'..='f').contains(c)) {
            return false;
        }
    }
    b[14] == '4' && "89ab".contains(b[19])
}

#[test]
fn stem_drops_last_extension() {
    assert_eq!(stem_of_name("logo.png"), "logo");
    assert_eq!(stem_of_name("archive.tar.gz"), "archive.tar");
    assert_eq!(stem_of_name("README"), "README");
    assert_eq!(stem_of_name(".hidden"), "");
    assert_eq!(stem_of_name("trailing."), "trailing");
    assert_eq!(stem_of_name("图片.jpg"), "图片");
    assert_eq!(stem_of_name(""), "");
}

#[test]
fn stem_of_joined_name_is_the_stem() {
    for (stem, ext) in [("a", "b"), ("x.y", "png"), ("", "jpg"), ("名字", "")] {
        assert_eq!(stem_of_name(&format!("{}.{}", stem, ext)), stem);
    }
}

#[test]
fn scratch_names() {
    assert_eq!(temp_name_with_id("abc", "svg"), "temp_abc.svg");
    let (a, b) = export_names_with_id("photo", "1234");
    assert_eq!(a, "temp_1234.png");
    assert_eq!(b, "photo_1234.png");
}

#[test]
fn copy_names_default_stem_and_extension() {
    assert_eq!(copy_name_with_id(Some("cat"), "id", Some("jpg")), "cat_id.jpg");
    assert_eq!(copy_name_with_id(None, "id", Some("bmp")), "temp_id.bmp");
    assert_eq!(copy_name_with_id(Some("cat"), "id", None), "cat_id.png");
    assert_eq!(copy_name_with_id(None, "id", None), "temp_id.png");
}

#[test]
fn fresh_temp_names_carry_a_random_uuid() {
    let a = new_temp_name("png").unwrap();
    let b = new_temp_name("png").unwrap();
    assert_ne!(a, b);
    assert!(a.starts_with("temp_") && a.ends_with(".png"));
    assert!(is_v4_uuid(&a["temp_".len()..a.len() - ".png".len()]));
}

#[test]
fn fresh_export_names_share_one_uuid() {
    let (scratch, kept) = new_export_names("shape").unwrap();
    let id = &scratch["temp_".len()..scratch.len() - ".png".len()];
    assert!(is_v4_uuid(id));
    assert_eq!(kept, format!("shape_{}.png", id));
}

#[test]
fn random_identifiers_have_v4_shape() {
    for _ in 0..64 {
        let id = new_uuid_text().unwrap();
        assert!(is_v4_uuid(&id), "{}", id);
    }
}

fn picked(path: &str) -> (String, Option<String>) {
    let mut s = Session::new();
    s.init(vec![], "/r/demo.png".to_string(), "demo.png");
    let name = s.select_source(path, vec![9, 9]).unwrap();
    assert_eq!(s.src_data, Some(vec![9, 9]));
    (name, s.src_stem)
}

#[test]
fn picked_image_keeps_stem_and_extension() {
    let (name, stem) = picked("/home/u/pics/cat.JPG");
    assert_eq!(stem.as_deref(), Some("cat"));
    assert!(name.starts_with("cat_") && name.ends_with(".JPG"));
    assert!(is_v4_uuid(&name["cat_".len()..name.len() - ".JPG".len()]));
}

#[test]
fn picked_image_without_extension_gets_png() {
    let (name, stem) = picked("/tmp/scan");
    assert_eq!(stem.as_deref(), Some("scan"));
    assert!(name.starts_with("scan_") && name.ends_with(".png"));
}

#[test]
fn picked_dotfile_keeps_whole_name_as_stem() {
    let (name, stem) = picked("pics/.profile");
    assert_eq!(stem.as_deref(), Some(".profile"));
    assert!(name.starts_with(".profile_") && name.ends_with(".png"));
}

#[test]
fn picked_path_without_file_name_keeps_old_stem() {
    let (name, stem) = picked("/");
    assert_eq!(stem.as_deref(), Some("demo"));
    assert!(name.starts_with("temp_") && name.ends_with(".png"));
}

#[test]
fn picked_name_with_several_dots() {
    let (name, stem) = picked("a.b.tar.gz");
    assert_eq!(stem.as_deref(), Some("a.b.tar"));
    assert!(name.starts_with("a.b.tar_") && name.ends_with(".gz"));
}
