//! Names of the files the tool writes, and the parts of a file name that it reads.
use vstd::prelude::*;
use crate::ident::{is_v4_uuid_text, new_uuid_text};

verus! {

/// Whether `t` occurs in `p` starting at index `i`.
pub open spec fn occurs_at(p: Seq<char>, t: Seq<char>, i: int) -> bool {
    0 <= i && i + t.len() <= p.len() && p.subrange(i, i + t.len()) == t
}

/// The text after the last `/` of a path.
pub open spec fn last_segment(p: Seq<char>) -> Seq<char> {
    p.subrange(last_index_of(p, '/') + 1, p.len() as int)
}

/// A path whose file name is its text after the last `/` on every
/// platform: no `\` and no `:` (so no Windows prefix), not starting with
/// `//`, and ending in a name other than `.` and `..`.
pub open spec fn is_plain_path(p: Seq<char>) -> bool {
    &&& !p.contains('\\')
    &&& !p.contains(':')
    &&& !(p.len() >= 2 && p[0] == '/' && p[1] == '/')
    &&& last_segment(p).len() > 0
    &&& last_segment(p) != seq!['.']
    &&& last_segment(p) != seq!['.', '.']
}

/// The extension of a file name, as `std::path::Path::extension` documents
/// it: the text after the last `.`, none when there is no `.` or only a
/// leading one.
pub open spec fn file_name_extension(name: Seq<char>) -> Option<Seq<char>> {
    let k = last_index_of(name, '.');
    if k > 0 {
        Some(name.subrange(k + 1, name.len() as int))
    } else {
        None
    }
}

/// The stem of a file name, as `std::path::Path::file_stem` documents it:
/// the text before the last `.`, the whole name when there is no `.` or
/// only a leading one.
pub open spec fn file_name_stem(name: Seq<char>) -> Seq<char> {
    let k = last_index_of(name, '.');
    if k > 0 {
        name.subrange(0, k)
    } else {
        name
    }
}

/// What holds of the extension `std::path::Path::extension` finds in `p` on
/// every platform: it follows a `.` in the path, and in a plain path it is
/// the extension of the last segment.
pub open spec fn extension_fits(p: Seq<char>, ext: Option<Seq<char>>) -> bool {
    &&& (ext matches Some(e) ==> exists|i: int| #[trigger] occurs_at(p, e, i + 1) && p[i] == '.')
    &&& (is_plain_path(p) ==> ext == file_name_extension(last_segment(p)))
}

/// What holds of the stem `std::path::Path::file_stem` finds in `p` on every
/// platform: it is a non-empty part of the path, and in a plain path it is
/// the stem of the last segment.
pub open spec fn stem_fits(p: Seq<char>, stem: Option<Seq<char>>) -> bool {
    &&& (stem matches Some(s) ==> s.len() > 0 && exists|i: int| #[trigger] occurs_at(p, s, i))
    &&& (is_plain_path(p) ==> stem == Some(file_name_stem(last_segment(p))))
}

/// The text of an optional string.
pub open spec fn opt_text(o: Option<String>) -> Option<Seq<char>> {
    match o {
        Some(s) => Some(s@),
        None => None,
    }
}

/// Calls `std::path::Path::extension` on the path and returns it as text.
/// Its documentation: the part of the file name after its final `.`; `None`
/// when there is no file name, no `.` in it, or only a leading one. The file
/// name is a part of the path, so the extension follows a `.` in the path;
/// which part is the file name depends on the platform's separators, and is
/// claimed only for plain paths, where every platform reads the text after
/// the last `/`.
#[verifier::external_body]
pub(crate) fn path_extension(path: &str) -> (r: Option<String>)
    ensures
        extension_fits(path@, opt_text(r)),
{
    std::path::Path::new(path).extension().and_then(|s| s.to_str()).map(|s| s.to_string())
}

/// Calls `std::path::Path::file_stem` on the path and returns it as text.
/// Its documentation: the file name before its final `.`, or the whole file
/// name when it holds no `.` but a leading one; `None` when there is no file
/// name. A file name is a non-empty part of the path, and so is the stem;
/// which part is the file name is claimed only for plain paths, as for
/// `path_extension`.
#[verifier::external_body]
pub(crate) fn path_file_stem(path: &str) -> (r: Option<String>)
    ensures
        stem_fits(path@, opt_text(r)),
{
    std::path::Path::new(path).file_stem().and_then(|s| s.to_str()).map(|s| s.to_string())
}

/// The index of the last occurrence of `c` in `s`, or -1.
pub open spec fn last_index_of(s: Seq<char>, c: char) -> int
    decreases s.len(),
{
    if s.len() == 0 {
        -1
    } else if s.last() == c {
        s.len() - 1
    } else {
        last_index_of(s.drop_last(), c)
    }
}

/// A file name without its extension: everything before the last `.`, or the
/// whole name when it holds no `.`.
pub open spec fn name_stem(name: Seq<char>) -> Seq<char> {
    let k = last_index_of(name, '.');
    if k >= 0 {
        name.subrange(0, k)
    } else {
        name
    }
}

proof fn lemma_last_index_of(s: Seq<char>, c: char)
    ensures
        -1 <= last_index_of(s, c) < s.len(),
        last_index_of(s, c) >= 0 ==> s[last_index_of(s, c)] == c,
        forall|i: int| last_index_of(s, c) < i < s.len() ==> s[i] != c,
    decreases s.len(),
{
    if s.len() > 0 && s.last() != c {
        let t = s.drop_last();
        lemma_last_index_of(t, c);
        assert forall|i: int| last_index_of(s, c) < i < s.len() implies s[i] != c by {
            if i < s.len() - 1 {
                assert(s[i] == t[i]);
            }
        }
    }
}

/// The name of a file without its extension, as the name before its last
/// `.` (the whole name when there is none).
pub fn stem_of_name(name: &str) -> (stem: String)
    ensures
        stem@ == name_stem(name@),
{
    let n = name.unicode_len();
    let mut i = n;
    assert(name@.take(n as int) =~= name@);
    while i > 0
        invariant
            n == name@.len(),
            i <= n,
            last_index_of(name@, '.') == last_index_of(name@.take(i as int), '.'),
        decreases i,
    {
        if name.get_char(i - 1) == '.' {
            proof {
                assert(name@.take(i as int).last() == '.');
            }
            let s = name.substring_char(0, i - 1);
            return String::from_str(s);
        }
        proof {
            assert(name@.take(i as int).drop_last() =~= name@.take(i - 1));
        }
        i = i - 1;
    }
    proof {
        assert(name@.take(0) =~= Seq::<char>::empty());
    }
    String::from_str(name)
}

/// A stem followed by a `.` and an extension without `.` has that stem.
pub proof fn lemma_stem_of_joined_name(stem: Seq<char>, ext: Seq<char>)
    requires
        !ext.contains('.'),
    ensures
        name_stem(stem + seq!['.'] + ext) == stem,
{
    let name = stem + seq!['.'] + ext;
    lemma_last_index_of(name, '.');
    let k = last_index_of(name, '.');
    let d = stem.len() as int;
    assert(name[d] == '.');
    if k > d {
        assert(name[k] == ext[k - d - 1]);
        assert(false);
    }
    assert(name.subrange(0, d) =~= stem);
}

/// A name without `.` is its own stem.
pub proof fn lemma_stem_of_plain_name(name: Seq<char>)
    requires
        !name.contains('.'),
    ensures
        name_stem(name) == name,
{
    lemma_last_index_of(name, '.');
    if last_index_of(name, '.') >= 0 {
        assert(name[last_index_of(name, '.')] == '.');
    }
}

/// `temp_<id>.<ext>`: the name of a scratch file.
pub open spec fn temp_name(id: Seq<char>, ext: Seq<char>) -> Seq<char> {
    "temp_"@ + id + "."@ + ext
}

/// `<stem>_<id>.png`: the name under which a result is kept for saving.
pub open spec fn kept_name(stem: Seq<char>, id: Seq<char>) -> Seq<char> {
    stem + "_"@ + id + ".png"@
}

/// `<stem>_<id>.<ext>`, where a missing stem reads `temp` and a missing
/// extension `png`: the name of the scratch copy of a picked image.
pub open spec fn copy_name(stem: Option<Seq<char>>, id: Seq<char>, ext: Option<Seq<char>>) -> Seq<char> {
    let s = match stem {
        Some(s) => s,
        None => "temp"@,
    };
    let e = match ext {
        Some(e) => e,
        None => "png"@,
    };
    s + "_"@ + id + "."@ + e
}

/// The scratch file name for the identifier `id` and extension `ext`.
pub fn temp_name_with_id(id: &str, ext: &str) -> (name: String)
    ensures
        name@ == temp_name(id@, ext@),
{
    let mut name = String::from_str("temp_");
    name.append(id);
    name.append(".");
    name.append(ext);
    name
}

/// A fresh scratch file name with extension `ext`; `None` when no random
/// identifier can be had.
pub fn new_temp_name(ext: &str) -> (name: Option<String>)
    ensures
        name matches Some(n) ==> exists|id: Seq<char>| is_v4_uuid_text(id) && #[trigger] temp_name(id, ext@) == n@,
{
    match new_uuid_text() {
        Some(id) => Some(temp_name_with_id(id.as_str(), ext)),
        None => None,
    }
}

/// The two names of an exported image that share the identifier `id`: the
/// scratch name it is first written under, and the name `<real>_<id>.png`
/// it is then renamed to.
pub fn export_names_with_id(real_file_name: &str, id: &str) -> (names: (String, String))
    ensures
        names.0@ == temp_name(id@, "png"@),
        names.1@ == kept_name(real_file_name@, id@),
{
    let scratch = temp_name_with_id(id, "png");
    let mut kept = String::from_str(real_file_name);
    kept.append("_");
    kept.append(id);
    kept.append(".png");
    (scratch, kept)
}

/// Fresh names for exporting an image named after `real_file_name`; both
/// carry the same new identifier. `None` when no random identifier can be had.
pub fn new_export_names(real_file_name: &str) -> (names: Option<(String, String)>)
    ensures
        names matches Some(n) ==> exists|id: Seq<char>|
            is_v4_uuid_text(id) && #[trigger] temp_name(id, "png"@) == n.0@ && n.1@ == kept_name(
                real_file_name@,
                id,
            ),
{
    match new_uuid_text() {
        Some(id) => Some(export_names_with_id(real_file_name, id.as_str())),
        None => None,
    }
}

/// The name of the scratch copy of a picked image, from the picked file's
/// stem and extension and the identifier `id`.
pub fn copy_name_with_id(stem: Option<&str>, id: &str, ext: Option<&str>) -> (name: String)
    ensures
        name@ == copy_name(
            match stem {
                Some(s) => Some(s@),
                None => None,
            },
            id@,
            match ext {
                Some(e) => Some(e@),
                None => None,
            },
        ),
{
    let mut name = match stem {
        Some(s) => String::from_str(s),
        None => String::from_str("temp"),
    };
    name.append("_");
    name.append(id);
    name.append(".");
    match ext {
        Some(e) => name.append(e),
        None => name.append("png"),
    }
    name
}

/// The scratch copy of a picked file keeps its extension: when neither the
/// identifier nor the extension holds a `.`, the copy's name is
/// `<stem>_<id>` followed by `.` and the extension, and its stem is
/// `<stem>_<id>`; a missing stem reads `temp`, a missing extension `png`.
pub proof fn lemma_copy_keeps_extension(stem: Option<Seq<char>>, id: Seq<char>, ext: Option<Seq<char>>)
    requires
        !id.contains('.'),
        ext matches Some(e) ==> !e.contains('.'),
    ensures
        ({
            let s = match stem {
                Some(s) => s,
                None => "temp"@,
            };
            let e = match ext {
                Some(e) => e,
                None => "png"@,
            };
            &&& copy_name(stem, id, ext) == s + "_"@ + id + seq!['.'] + e
            &&& name_stem(copy_name(stem, id, ext)) == s + "_"@ + id
        }),
{
    reveal_strlit("png");
    reveal_strlit(".");
    let s = match stem {
        Some(s) => s,
        None => "temp"@,
    };
    let e = match ext {
        Some(e) => e,
        None => "png"@,
    };
    assert(!e.contains('.')) by {
        if ext is None {
            assert(e =~= seq!['p', 'n', 'g']);
        }
    }
    assert("."@ =~= seq!['.']);
    assert(copy_name(stem, id, ext) =~= s + "_"@ + id + seq!['.'] + e);
    lemma_stem_of_joined_name(s + "_"@ + id, e);
}

/// An exported image is written under `temp_<id>.png` and kept under
/// `<base>_<id>.png`: both are PNG files, and the kept one's stem is the
/// base name followed by `_` and the identifier.
pub proof fn lemma_export_names_are_png(base: Seq<char>, id: Seq<char>)
    requires
        !id.contains('.'),
    ensures
        temp_name(id, "png"@) == "temp_"@ + id + seq!['.'] + "png"@,
        kept_name(base, id) == base + "_"@ + id + seq!['.'] + "png"@,
        name_stem(kept_name(base, id)) == base + "_"@ + id,
        name_stem(temp_name(id, "png"@)) == "temp_"@ + id,
{
    reveal_strlit("png");
    reveal_strlit(".");
    reveal_strlit(".png");
    assert("."@ =~= seq!['.']);
    assert(".png"@ =~= seq!['.'] + "png"@);
    assert(!"png"@.contains('.')) by {
        assert("png"@ =~= seq!['p', 'n', 'g']);
    }
    assert(temp_name(id, "png"@) =~= "temp_"@ + id + seq!['.'] + "png"@);
    assert(kept_name(base, id) =~= base + "_"@ + id + seq!['.'] + "png"@);
    lemma_stem_of_joined_name(base + "_"@ + id, "png"@);
    lemma_stem_of_joined_name("temp_"@ + id, "png"@);
}

} // verus!
