//! The state that the commands share, and what saving does with it.
use vstd::prelude::*;
use crate::geometry::{Point, contours_view};
use crate::ident::{is_v4_uuid_text, new_uuid_text};
use crate::names::{
    copy_name, copy_name_with_id, extension_fits, name_stem, opt_text, path_extension, path_file_stem,
    stem_fits, stem_of_name,
};
use crate::svg::{build_svg_from_contours, svg_document};

verus! {

/// What the commands remember between calls.
pub struct Session {
    /// The bytes of the image being worked on.
    pub src_data: Option<Vec<u8>>,
    /// Its file name without extension, after which saved files are named.
    pub src_stem: Option<String>,
    /// The file that a plain save copies.
    pub current_path: Option<String>,
    /// Width and height of the image last processed.
    pub image_size: (i32, i32),
    /// The contours last extracted, kept for saving as SVG or DXF.
    pub contours: Option<Vec<Vec<Point>>>,
}

/// The message when there are no contours to save.
pub open spec fn no_contours_message() -> Seq<char> {
    "当前没有可保存的轮廓数据"@
}

/// The message when there is no source file to copy.
pub open spec fn no_source_message() -> Seq<char> {
    "当前源路径不存在"@
}

/// The SVG document of the stored contours at the stored image size, if
/// contours are stored.
pub open spec fn svg_of(s: Session) -> Option<Seq<char>> {
    match s.contours {
        Some(c) => Some(svg_document(contours_view(c@), s.image_size.0, s.image_size.1)),
        None => None,
    }
}

impl Session {
    /// The state at start-up: nothing loaded, size zero.
    pub fn new() -> (s: Session)
        ensures
            s.src_data is None,
            s.src_stem is None,
            s.current_path is None,
            s.image_size == (0i32, 0i32),
            s.contours is None,
    {
        Session { src_data: None, src_stem: None, current_path: None, image_size: (0, 0), contours: None }
    }

    /// Loading a bundled image `img_name_with_ext` from `resource_path`:
    /// keeps its bytes, makes it the file a plain save copies, and names
    /// results after the name without its extension.
    pub fn init(&mut self, image_data: Vec<u8>, resource_path: String, img_name_with_ext: &str)
        ensures
            final(self).src_data == Some(image_data),
            final(self).current_path == Some(resource_path),
            final(self).src_stem matches Some(stem) && stem@ == name_stem(img_name_with_ext@),
            final(self).image_size == old(self).image_size,
            final(self).contours == old(self).contours,
    {
        self.src_data = Some(image_data);
        self.current_path = Some(resource_path);
        let stem = stem_of_name(img_name_with_ext);
        self.src_stem = Some(stem);
    }

    /// Loading a bundled image by its name: keeps its bytes and names results
    /// after the name without its extension.
    pub fn ready(&mut self, image_data: Vec<u8>, img_name: &str)
        ensures
            final(self).src_data == Some(image_data),
            final(self).src_stem matches Some(stem) && stem@ == name_stem(img_name@),
            final(self).current_path == old(self).current_path,
            final(self).image_size == old(self).image_size,
            final(self).contours == old(self).contours,
    {
        self.src_data = Some(image_data);
        self.src_stem = Some(stem_of_name(img_name));
    }

    /// A picked image was read: keeps its bytes, and its stem when the path
    /// has one (else the earlier stem stays).
    pub fn pick_source(&mut self, image_data: Vec<u8>, stem: Option<String>)
        ensures
            final(self).src_data == Some(image_data),
            final(self).src_stem == (match stem {
                Some(s) => Some(s),
                None => old(self).src_stem,
            }),
            final(self).current_path == old(self).current_path,
            final(self).image_size == old(self).image_size,
            final(self).contours == old(self).contours,
    {
        self.src_data = Some(image_data);
        match stem {
            Some(s) => {
                self.src_stem = Some(s);
            },
            None => {},
        }
    }

    /// The image at `path` was picked and its bytes read: keeps the bytes
    /// and, when the path has a file stem, that stem (else the earlier stem
    /// stays). Returns the name of the image's scratch copy,
    /// `<stem>_<uuid>.<extension>` of the path, with `temp` and `png` for a
    /// missing stem or extension; `None` when no random identifier can be had.
    pub fn select_source(&mut self, path: &str, image_data: Vec<u8>) -> (copy: Option<String>)
        ensures
            final(self).src_data == Some(image_data),
            final(self).current_path == old(self).current_path,
            final(self).image_size == old(self).image_size,
            final(self).contours == old(self).contours,
            exists|stem: Option<Seq<char>>, ext: Option<Seq<char>>, id: Seq<char>|
                #![trigger copy_name(stem, id, ext)]
                stem_fits(path@, stem) && extension_fits(path@, ext) && opt_text(final(self).src_stem)
                    == (match stem {
                    Some(st) => Some(st),
                    None => opt_text(old(self).src_stem),
                }) && (copy matches Some(c) ==> is_v4_uuid_text(id) && c@ == copy_name(stem, id, ext)),
    {
        let id = new_uuid_text();
        let ghost id_text = match &id {
            Some(i) => i@,
            None => Seq::<char>::empty(),
        };
        let copy = self.select_source_with_id(path, image_data, id);
        proof {
            let (stem, ext) = choose|stem: Option<Seq<char>>, ext: Option<Seq<char>>|
                #![trigger stem_fits(path@, stem), extension_fits(path@, ext)]
                stem_fits(path@, stem) && extension_fits(path@, ext) && opt_text(self.src_stem) == (match stem {
                    Some(st) => Some(st),
                    None => opt_text(old(self).src_stem),
                }) && (copy matches Some(c) ==> c@ == copy_name(stem, id_text, ext));
            assert(copy_name(stem, id_text, ext) == copy_name(stem, id_text, ext));
        }
        copy
    }

    /// The image at `path` was picked and its bytes read, and `id` is the
    /// random identifier drawn for its scratch copy: keeps the bytes and,
    /// when the path has a file stem, that stem (else the earlier stem
    /// stays). Returns the copy's name `<stem>_<id>.<extension>` of the path,
    /// with `temp` and `png` for a missing stem or extension, whenever an
    /// identifier was drawn, whatever the image's bytes; `None` only when
    /// none was.
    pub fn select_source_with_id(&mut self, path: &str, image_data: Vec<u8>, id: Option<String>) -> (copy: Option<String>)
        ensures
            final(self).src_data == Some(image_data),
            final(self).current_path == old(self).current_path,
            final(self).image_size == old(self).image_size,
            final(self).contours == old(self).contours,
            copy is Some <==> id is Some,
            exists|stem: Option<Seq<char>>, ext: Option<Seq<char>>|
                #![trigger stem_fits(path@, stem), extension_fits(path@, ext)]
                stem_fits(path@, stem) && extension_fits(path@, ext) && opt_text(final(self).src_stem)
                    == (match stem {
                    Some(st) => Some(st),
                    None => opt_text(old(self).src_stem),
                }) && (copy matches Some(c) ==> c@ == copy_name(stem, id->0@, ext)),
    {
        let ext = path_extension(path);
        let stem = path_file_stem(path);
        let ghost old_stem = opt_text(self.src_stem);
        self.pick_source(image_data, stem.clone());
        let ghost new_stem = opt_text(self.src_stem);
        assert(new_stem == (match opt_text(stem) {
            Some(st) => Some(st),
            None => old_stem,
        }));
        assert(stem_fits(path@, opt_text(stem)) && extension_fits(path@, opt_text(ext)));
        match id {
            Some(id) => {
                let name = copy_name_with_id(
                    match &stem {
                        Some(st) => Some(st.as_str()),
                        None => None,
                    },
                    id.as_str(),
                    match &ext {
                        Some(e) => Some(e.as_str()),
                        None => None,
                    },
                );
                assert(name@ == copy_name(opt_text(stem), id@, opt_text(ext)));
                Some(name)
            },
            None => None,
        }
    }

    /// Makes `path` the file that a plain save copies.
    pub fn set_current_path(&mut self, path: String)
        ensures
            final(self).current_path == Some(path),
            final(self).src_data == old(self).src_data,
            final(self).src_stem == old(self).src_stem,
            final(self).image_size == old(self).image_size,
            final(self).contours == old(self).contours,
    {
        self.current_path = Some(path);
    }

    /// Records the size of the image being processed.
    pub fn set_image_size(&mut self, width: i32, height: i32)
        ensures
            final(self).image_size == (width, height),
            final(self).src_data == old(self).src_data,
            final(self).src_stem == old(self).src_stem,
            final(self).current_path == old(self).current_path,
            final(self).contours == old(self).contours,
    {
        self.image_size = (width, height);
    }

    /// Keeps `contours` for saving.
    pub fn store_contours(&mut self, contours: Vec<Vec<Point>>)
        ensures
            final(self).contours == Some(contours),
            final(self).src_data == old(self).src_data,
            final(self).src_stem == old(self).src_stem,
            final(self).current_path == old(self).current_path,
            final(self).image_size == old(self).image_size,
    {
        self.contours = Some(contours);
    }

    /// Forgets the stored contours.
    pub fn clear_contours(&mut self)
        ensures
            final(self).contours is None,
            final(self).src_data == old(self).src_data,
            final(self).src_stem == old(self).src_stem,
            final(self).current_path == old(self).current_path,
            final(self).image_size == old(self).image_size,
    {
        self.contours = None;
    }
}

/// The SVG document of the stored contours, sized to the stored image size;
/// an error when no contours are stored.
pub fn generate_svg_data(session: &Session) -> (r: Result<String, String>)
    ensures
        r is Ok <==> session.contours is Some,
        r matches Ok(svg) ==> svg_of(*session) == Some(svg@),
        r matches Err(m) ==> m@ == no_contours_message(),
{
    match &session.contours {
        Some(c) => Ok(build_svg_from_contours(c, session.image_size.0, session.image_size.1)),
        None => Err(String::from_str("当前没有可保存的轮廓数据")),
    }
}

/// Whether `a` is the letter `lower`, in either ASCII case.
pub open spec fn same_letter_ignoring_ascii_case(a: char, lower: char) -> bool {
    a == lower || ('a' <= lower && lower <= 'z' && (a as int) + 32 == lower as int)
}

/// Whether `s` spells the lowercase word `lower`, in any mix of ASCII cases.
/// For the words `svg` and `dxf` this is exactly whether Unicode lowercasing
/// turns `s` into the word: only the ASCII letters lowercase to s, v, g, d,
/// x or f.
pub open spec fn eq_ignoring_ascii_case(s: Seq<char>, lower: Seq<char>) -> bool {
    &&& s.len() == lower.len()
    &&& forall|i: int| 0 <= i < s.len() ==> same_letter_ignoring_ascii_case(s[i], lower[i])
}

fn equals_ignoring_ascii_case(s: &str, lower: &str) -> (b: bool)
    ensures
        b == eq_ignoring_ascii_case(s@, lower@),
{
    let n = s.unicode_len();
    if n != lower.unicode_len() {
        return false;
    }
    for i in 0..n
        invariant
            n == s@.len(),
            n == lower@.len(),
            forall|j: int| 0 <= j < i ==> same_letter_ignoring_ascii_case(s@[j], lower@[j]),
    {
        let a = s.get_char(i);
        let l = lower.get_char(i);
        let same = a == l || ('a' <= l && l <= 'z' && (a as u32) + 32 == (l as u32));
        if !same {
            return false;
        }
    }
    true
}

/// How a save target is written, by its extension.
#[derive(Clone, Copy, PartialEq, Eq, Debug)]
pub enum SaveFormat {
    /// The contours as an SVG document.
    Svg,
    /// The contours converted to DXF.
    Dxf,
    /// A copy of the current image file.
    Raster,
}

/// The format that the extension `ext` of a save target asks for; the
/// extension is read without regard to case.
pub open spec fn format_of(ext: Seq<char>) -> SaveFormat {
    if eq_ignoring_ascii_case(ext, "svg"@) {
        SaveFormat::Svg
    } else if eq_ignoring_ascii_case(ext, "dxf"@) {
        SaveFormat::Dxf
    } else {
        SaveFormat::Raster
    }
}

/// The format that the extension `ext` of a save target asks for.
pub fn save_format(ext: &str) -> (f: SaveFormat)
    ensures
        f == format_of(ext@),
{
    if equals_ignoring_ascii_case(ext, "svg") {
        SaveFormat::Svg
    } else if equals_ignoring_ascii_case(ext, "dxf") {
        SaveFormat::Dxf
    } else {
        SaveFormat::Raster
    }
}

/// What saving to a chosen path does.
#[derive(Debug, PartialEq, Eq)]
pub enum SaveAction {
    /// Write `svg` to `target`.
    WriteSvg { target: String, svg: String },
    /// Convert the SVG document `svg` to a DXF file at `target`.
    ConvertToDxf { target: String, svg: String },
    /// Copy the file at `source` to `target`.
    CopySource { source: String, target: String },
}

/// A save action, as text.
pub enum SavePlan {
    WriteSvg { target: Seq<char>, svg: Seq<char> },
    ConvertToDxf { target: Seq<char>, svg: Seq<char> },
    CopySource { source: Seq<char>, target: Seq<char> },
}

impl View for SaveAction {
    type V = SavePlan;

    open spec fn view(&self) -> SavePlan {
        match self {
            SaveAction::WriteSvg { target, svg } => SavePlan::WriteSvg { target: target@, svg: svg@ },
            SaveAction::ConvertToDxf { target, svg } => SavePlan::ConvertToDxf {
                target: target@,
                svg: svg@,
            },
            SaveAction::CopySource { source, target } => SavePlan::CopySource {
                source: source@,
                target: target@,
            },
        }
    }
}

/// A save result, as text.
pub open spec fn save_result_view(r: Result<SaveAction, String>) -> Result<SavePlan, Seq<char>> {
    match r {
        Ok(a) => Ok(a@),
        Err(m) => Err(m@),
    }
}

/// What saving to `path`, whose extension reads `ext` (empty when it has
/// none), does in state `s`: an `svg` target gets the SVG of the stored
/// contours, a `dxf` target their conversion, both failing when no contours
/// are stored; any other target gets a copy of the current file, with
/// `.png` added when the target has no extension, failing when there is no
/// current file.
pub open spec fn save_outcome(s: Session, path: Seq<char>, ext: Seq<char>) -> Result<SavePlan, Seq<char>> {
    match format_of(ext) {
        SaveFormat::Svg => match svg_of(s) {
            Some(svg) => Ok(SavePlan::WriteSvg { target: path, svg }),
            None => Err(no_contours_message()),
        },
        SaveFormat::Dxf => match svg_of(s) {
            Some(svg) => Ok(SavePlan::ConvertToDxf { target: path, svg }),
            None => Err(no_contours_message()),
        },
        SaveFormat::Raster => match s.current_path {
            Some(p) => Ok(
                SavePlan::CopySource {
                    source: p@,
                    target: if ext.len() == 0 {
                        path + ".png"@
                    } else {
                        path
                    },
                },
            ),
            None => Err(no_source_message()),
        },
    }
}

/// The text of a path's extension, empty when it has none.
pub open spec fn ext_or_empty(ext: Option<Seq<char>>) -> Seq<char> {
    match ext {
        Some(e) => e,
        None => Seq::empty(),
    }
}

/// What saving to `save_path` does, given the extension that the path has.
pub fn plan_save(session: &Session, save_path: &str, ext: Option<&str>) -> (r: Result<SaveAction, String>)
    ensures
        save_result_view(r) == save_outcome(
            *session,
            save_path@,
            ext_or_empty(
                match ext {
                    Some(e) => Some(e@),
                    None => None,
                },
            ),
        ),
{
    let e: &str = match ext {
        Some(e) => e,
        None => {
            proof { reveal_strlit(""); }
            ""
        },
    };
    let format = save_format(e);
    match format {
        SaveFormat::Svg => match generate_svg_data(session) {
            Ok(svg) => Ok(SaveAction::WriteSvg { target: String::from_str(save_path), svg }),
            Err(m) => Err(m),
        },
        SaveFormat::Dxf => match generate_svg_data(session) {
            Ok(svg) => Ok(SaveAction::ConvertToDxf { target: String::from_str(save_path), svg }),
            Err(m) => Err(m),
        },
        SaveFormat::Raster => match &session.current_path {
            Some(p) => {
                let mut target = String::from_str(save_path);
                if e.unicode_len() == 0 {
                    target.append(".png");
                }
                Ok(SaveAction::CopySource { source: p.clone(), target })
            },
            None => Err(String::from_str("当前源路径不存在")),
        },
    }
}

/// What saving to `save_path` does, reading the path's extension.
pub fn plan_save_to(session: &Session, save_path: &str) -> (r: Result<SaveAction, String>)
    ensures
        exists|ext: Option<Seq<char>>|
            extension_fits(save_path@, ext) && save_result_view(r) == #[trigger] save_outcome(
                *session,
                save_path@,
                ext_or_empty(ext),
            ),
{
    let ext = path_extension(save_path);
    let r = plan_save(
        session,
        save_path,
        match &ext {
            Some(e) => Some(e.as_str()),
            None => None,
        },
    );
    assert(save_result_view(r) == save_outcome(*session, save_path@, ext_or_empty(opt_text(ext))));
    r
}

/// The extensions offered when saving, by whether contours are stored.
pub open spec fn dialog_extensions(has_contours: bool) -> Seq<Seq<char>> {
    if has_contours {
        seq!["png"@, "jpg"@, "jpeg"@, "svg"@, "dxf"@]
    } else {
        seq!["png"@, "jpg"@, "jpeg"@]
    }
}

/// The extensions offered when saving: SVG and DXF only while contours are stored.
pub fn save_dialog_extensions(session: &Session) -> (exts: Vec<&'static str>)
    ensures
        exts@.map_values(|e: &str| e@) == dialog_extensions(session.contours is Some),
{
    let exts = if session.contours.is_some() {
        vec!["png", "jpg", "jpeg", "svg", "dxf"]
    } else {
        vec!["png", "jpg", "jpeg"]
    };
    proof {
        if session.contours is Some {
            assert(exts@.map_values(|e: &str| e@) =~= seq!["png"@, "jpg"@, "jpeg"@, "svg"@, "dxf"@]);
        } else {
            assert(exts@.map_values(|e: &str| e@) =~= seq!["png"@, "jpg"@, "jpeg"@]);
        }
    }
    exts
}

/// The name proposed when saving: the source's stem, else `output`, with `.png`.
pub fn save_file_name(session: &Session) -> (name: String)
    ensures
        name@ == (match session.src_stem {
            Some(s) => s@,
            None => "output"@,
        }) + ".png"@,
{
    let mut name = match &session.src_stem {
        Some(s) => s.clone(),
        None => String::from_str("output"),
    };
    name.append(".png");
    name
}


/// Saving to an SVG target writes the document of the contours that are
/// stored, at the stored image size.
pub proof fn lemma_svg_save_writes_stored_contours(
    s: Session,
    contours: Vec<Vec<Point>>,
    path: Seq<char>,
    ext: Seq<char>,
)
    requires
        s.contours == Some(contours),
        format_of(ext) == SaveFormat::Svg,
    ensures
        save_outcome(s, path, ext) == Ok::<SavePlan, Seq<char>>(
            SavePlan::WriteSvg {
                target: path,
                svg: svg_document(contours_view(contours@), s.image_size.0, s.image_size.1),
            },
        ),
{
}

/// With no contours stored, saving to an SVG or DXF target fails with the
/// message that there are no contours to save.
pub proof fn lemma_vector_save_needs_contours(s: Session, path: Seq<char>, ext: Seq<char>)
    requires
        s.contours is None,
        format_of(ext) != SaveFormat::Raster,
    ensures
        save_outcome(s, path, ext) == Err::<SavePlan, Seq<char>>("当前没有可保存的轮廓数据"@),
{
}

/// Saving to any other target depends only on the current file, not on
/// the stored contours.
pub proof fn lemma_raster_save_ignores_contours(s1: Session, s2: Session, path: Seq<char>, ext: Seq<char>)
    requires
        format_of(ext) == SaveFormat::Raster,
        s1.current_path == s2.current_path,
    ensures
        save_outcome(s1, path, ext) == save_outcome(s2, path, ext),
{
}

/// A target without extension receives a copy of the current file under the
/// target's name with `.png` added.
pub proof fn lemma_bare_target_gets_png(s: Session, path: Seq<char>)
    requires
        s.current_path is Some,
    ensures
        save_outcome(s, path, Seq::empty()) == Ok::<SavePlan, Seq<char>>(
            SavePlan::CopySource { source: s.current_path->0@, target: path + ".png"@ },
        ),
{
    assert(format_of(Seq::empty()) == SaveFormat::Raster) by {
        reveal_strlit("svg");
        reveal_strlit("dxf");
    }
}

/// A target with a non-empty extension other than SVG and DXF receives a
/// copy of the current file at exactly the chosen path.
pub proof fn lemma_raster_target_is_chosen_path(s: Session, path: Seq<char>, ext: Seq<char>)
    requires
        ext.len() > 0,
        format_of(ext) == SaveFormat::Raster,
        s.current_path is Some,
    ensures
        save_outcome(s, path, ext) == Ok::<SavePlan, Seq<char>>(
            SavePlan::CopySource { source: s.current_path->0@, target: path },
        ),
{
}

/// Saving to a DXF target converts the document of the stored contours, at
/// the stored image size, into a file at the chosen path.
pub proof fn lemma_dxf_save_converts_stored_contours(
    s: Session,
    contours: Vec<Vec<Point>>,
    path: Seq<char>,
    ext: Seq<char>,
)
    requires
        s.contours == Some(contours),
        format_of(ext) == SaveFormat::Dxf,
    ensures
        save_outcome(s, path, ext) == Ok::<SavePlan, Seq<char>>(
            SavePlan::ConvertToDxf {
                target: path,
                svg: svg_document(contours_view(contours@), s.image_size.0, s.image_size.1),
            },
        ),
{
}

/// An extension asks for SVG exactly when it is `svg` in any mix of cases,
/// for DXF exactly when it is `dxf` in any mix of cases, and for a copy
/// otherwise.
pub proof fn lemma_format_by_extension(ext: Seq<char>)
    ensures
        (format_of(ext) == SaveFormat::Svg) <==> (ext.len() == 3 && (ext[0] == 's' || ext[0] == 'S') && (
        ext[1] == 'v' || ext[1] == 'V') && (ext[2] == 'g' || ext[2] == 'G')),
        (format_of(ext) == SaveFormat::Dxf) <==> (ext.len() == 3 && (ext[0] == 'd' || ext[0] == 'D') && (
        ext[1] == 'x' || ext[1] == 'X') && (ext[2] == 'f' || ext[2] == 'F')),
{
    reveal_strlit("svg");
    reveal_strlit("dxf");
    if ext.len() == 3 {
        assert(same_letter_ignoring_ascii_case(ext[0], 's') <==> (ext[0] == 's' || ext[0] == 'S'));
        assert(same_letter_ignoring_ascii_case(ext[1], 'v') <==> (ext[1] == 'v' || ext[1] == 'V'));
        assert(same_letter_ignoring_ascii_case(ext[2], 'g') <==> (ext[2] == 'g' || ext[2] == 'G'));
        assert(same_letter_ignoring_ascii_case(ext[0], 'd') <==> (ext[0] == 'd' || ext[0] == 'D'));
        assert(same_letter_ignoring_ascii_case(ext[1], 'x') <==> (ext[1] == 'x' || ext[1] == 'X'));
        assert(same_letter_ignoring_ascii_case(ext[2], 'f') <==> (ext[2] == 'f' || ext[2] == 'F'));
        if eq_ignoring_ascii_case(ext, "svg"@) {
            assert(same_letter_ignoring_ascii_case(ext[0], "svg"@[0]));
            assert(same_letter_ignoring_ascii_case(ext[1], "svg"@[1]));
            assert(same_letter_ignoring_ascii_case(ext[2], "svg"@[2]));
        }
        if eq_ignoring_ascii_case(ext, "dxf"@) {
            assert(same_letter_ignoring_ascii_case(ext[0], "dxf"@[0]));
            assert(same_letter_ignoring_ascii_case(ext[1], "dxf"@[1]));
            assert(same_letter_ignoring_ascii_case(ext[2], "dxf"@[2]));
        }
    }
}

/// With no current file, saving to a target other than SVG and DXF fails
/// with the message that the source path does not exist.
pub proof fn lemma_raster_save_needs_current_file(s: Session, path: Seq<char>, ext: Seq<char>)
    requires
        s.current_path is None,
        format_of(ext) == SaveFormat::Raster,
    ensures
        save_outcome(s, path, ext) == Err::<SavePlan, Seq<char>>("当前源路径不存在"@),
{
}

} // verus!
