//! Image types of gallery pages and covers, read from a name or from the
//! extension of a file path.
use vstd::prelude::*;

use crate::text::{
    chars_of, invalid_image_type, invalid_image_type_message, normalize, normalized_text,
    lemma_lowercase_ascii_fixed, lemma_trimmed_fixed, lemma_lowercase_ignores_ascii_case,
    all_ascii, ascii_lower, ascii_upper, all_white_space, is_white_space, lowercase_text,
    lemma_trimmed_removes_surrounding,
};

verus! {

broadcast use vstd::string::group_string_axioms;

/// The image formats that galleries use.
#[derive(Clone, PartialEq, Eq, Structural)]
pub enum ImageType {
    Gif,
    Jpg,
    Png,
    Webp,
}

/// The image type that a lowercase, trimmed name stands for: each type has a
/// one-letter short form and its usual file extension, and `jpeg` is read as
/// `jpg` too.
pub open spec fn image_type_named(s: Seq<char>) -> Option<ImageType> {
    if s == seq!['g'] || s == seq!['g', 'i', 'f'] {
        Some(ImageType::Gif)
    } else if s == seq!['j'] || s == seq!['j', 'p', 'g'] || s == seq!['j', 'p', 'e', 'g'] {
        Some(ImageType::Jpg)
    } else if s == seq!['p'] || s == seq!['p', 'n', 'g'] {
        Some(ImageType::Png)
    } else if s == seq!['w'] || s == seq!['w', 'e', 'b', 'p'] {
        Some(ImageType::Webp)
    } else {
        None
    }
}

/// The image type that a text names once it is lowercased and trimmed.
pub open spec fn image_type_of_text(s: Seq<char>) -> Option<ImageType> {
    image_type_named(normalized_text(s))
}

/// The one-letter form of an image type, as the database stores it.
pub open spec fn short_form_of(t: ImageType) -> Seq<char> {
    match t {
        ImageType::Gif => seq!['g'],
        ImageType::Jpg => seq!['j'],
        ImageType::Png => seq!['p'],
        ImageType::Webp => seq!['w'],
    }
}

/// The file extension of an image type, as it is shown to people.
pub open spec fn long_form_of(t: ImageType) -> Seq<char> {
    match t {
        ImageType::Gif => seq!['g', 'i', 'f'],
        ImageType::Jpg => seq!['j', 'p', 'g'],
        ImageType::Png => seq!['p', 'n', 'g'],
        ImageType::Webp => seq!['w', 'e', 'b', 'p'],
    }
}

/// The extension of a path: everything after its last `.`, or the whole path
/// where it holds no `.`.
pub open spec fn extension_of(path: Seq<char>) -> Seq<char>
    decreases path.len(),
{
    if path.len() == 0 {
        path
    } else if path.last() == '.' {
        Seq::empty()
    } else {
        extension_of(path.drop_last()).push(path.last())
    }
}

/// The image type that a path's extension names.
pub open spec fn image_type_of_path(path: Seq<char>) -> Option<ImageType> {
    image_type_of_text(extension_of(path))
}

/// Whether a result of reading an image type from a text is the right one:
/// the type the text names, or else the message that refuses the text.
pub open spec fn image_type_result_of(s: Seq<char>, r: Result<ImageType, String>) -> bool {
    match r {
        Ok(t) => image_type_of_text(s) == Some(t),
        Err(m) => image_type_of_text(s) is None && m@ == invalid_image_type_message(s),
    }
}

impl ImageType {
    /// Reads the image type that a lowercase, trimmed name stands for.
    pub fn from_normalized(s: &str) -> (r: Option<ImageType>)
        ensures
            r == image_type_named(s@),
    {
        let c = chars_of(s);
        let n = c.len();
        if n == 1 {
            if c[0] == 'g' {
                assert(c@ =~= seq!['g']);
                Some(ImageType::Gif)
            } else if c[0] == 'j' {
                assert(c@ =~= seq!['j']);
                Some(ImageType::Jpg)
            } else if c[0] == 'p' {
                assert(c@ =~= seq!['p']);
                Some(ImageType::Png)
            } else if c[0] == 'w' {
                assert(c@ =~= seq!['w']);
                Some(ImageType::Webp)
            } else {
                None
            }
        } else if n == 3 {
            if c[0] == 'g' && c[1] == 'i' && c[2] == 'f' {
                assert(c@ =~= seq!['g', 'i', 'f']);
                Some(ImageType::Gif)
            } else if c[0] == 'j' && c[1] == 'p' && c[2] == 'g' {
                assert(c@ =~= seq!['j', 'p', 'g']);
                Some(ImageType::Jpg)
            } else if c[0] == 'p' && c[1] == 'n' && c[2] == 'g' {
                assert(c@ =~= seq!['p', 'n', 'g']);
                Some(ImageType::Png)
            } else {
                assert(c@ != seq!['g', 'i', 'f']);
                assert(c@ != seq!['j', 'p', 'g']);
                assert(c@ != seq!['p', 'n', 'g']);
                None
            }
        } else if n == 4 {
            if c[0] == 'j' && c[1] == 'p' && c[2] == 'e' && c[3] == 'g' {
                assert(c@ =~= seq!['j', 'p', 'e', 'g']);
                Some(ImageType::Jpg)
            } else if c[0] == 'w' && c[1] == 'e' && c[2] == 'b' && c[3] == 'p' {
                assert(c@ =~= seq!['w', 'e', 'b', 'p']);
                Some(ImageType::Webp)
            } else {
                assert(c@ != seq!['j', 'p', 'e', 'g']);
                assert(c@ != seq!['w', 'e', 'b', 'p']);
                None
            }
        } else {
            None
        }
    }

    /// Reads an image type from a name, ignoring case and surrounding
    /// whitespace: `g`/`gif`, `j`/`jpg`/`jpeg`, `p`/`png`, `w`/`webp`. Any other
    /// name is refused with the message `Invalid image type: "<name>"`.
    pub fn from_str(s: &str) -> (r: Result<ImageType, String>)
        ensures
            image_type_result_of(s@, r),
    {
        let normalized = normalize(s);
        match ImageType::from_normalized(normalized.as_str()) {
            Some(t) => Ok(t),
            None => Err(invalid_image_type(s)),
        }
    }

    /// The one-letter form of the image type, as the database stores it.
    pub fn short_form(&self) -> (r: String)
        ensures
            r@ == short_form_of(*self),
    {
        match self {
            ImageType::Gif => {
                proof { reveal_strlit("g"); }
                String::from_str("g")
            },
            ImageType::Jpg => {
                proof { reveal_strlit("j"); }
                String::from_str("j")
            },
            ImageType::Png => {
                proof { reveal_strlit("p"); }
                String::from_str("p")
            },
            ImageType::Webp => {
                proof { reveal_strlit("w"); }
                String::from_str("w")
            },
        }
    }

    /// The file extension of the image type, as it is shown to people.
    pub fn long_form(&self) -> (r: String)
        ensures
            r@ == long_form_of(*self),
    {
        match self {
            ImageType::Gif => {
                proof { reveal_strlit("gif"); }
                String::from_str("gif")
            },
            ImageType::Jpg => {
                proof { reveal_strlit("jpg"); }
                String::from_str("jpg")
            },
            ImageType::Png => {
                proof { reveal_strlit("png"); }
                String::from_str("png")
            },
            ImageType::Webp => {
                proof { reveal_strlit("webp"); }
                String::from_str("webp")
            },
        }
    }
}

/// Finds the extension of a path: the part after its last `.`.
pub fn path_extension(path: &str) -> (r: &str)
    ensures
        r@ == extension_of(path@),
{
    let c = chars_of(path);
    let n = c.len();
    let mut j: usize = n;
    assert(c@.take(n as int) =~= c@);
    assert(c@.subrange(n as int, n as int) =~= Seq::<char>::empty());
    loop
        invariant
            j <= n,
            n == c@.len(),
            c@ == path@,
            extension_of(path@) == extension_of(c@.take(j as int)) + c@.subrange(j as int, n as int),
        ensures
            extension_of(path@) == c@.subrange(j as int, n as int),
        decreases j,
    {
        if j == 0 {
            assert(c@.take(0) =~= Seq::<char>::empty());
            assert(extension_of(path@) =~= c@.subrange(j as int, n as int));
            break;
        }
        let ghost prefix = c@.take(j as int);
        assert(prefix.last() == c@[j - 1]);
        if c[j - 1] == '.' {
            assert(extension_of(prefix) =~= Seq::<char>::empty());
            assert(extension_of(path@) =~= c@.subrange(j as int, n as int));
            break;
        }
        assert(prefix.drop_last() =~= c@.take(j - 1));
        assert(c@.subrange(j - 1, n as int) =~= seq![c@[j - 1]] + c@.subrange(j as int, n as int));
        assert(extension_of(prefix) == extension_of(c@.take(j - 1)).push(c@[j - 1]));
        j = j - 1;
    }
    path.substring_char(j, n)
}

/// Determines the image type from a file path by its extension, the part
/// after the last `.`; for example `galleries/123/1.jpg` is a `Jpg`. An
/// unknown extension is refused with the message `Invalid image type: "<ext>"`.
pub fn image_type_from_path(path: &str) -> (r: Result<ImageType, String>)
    ensures
        image_type_result_of(extension_of(path@), r),
{
    let extension = path_extension(path);
    ImageType::from_str(extension)
}

/// Every image type reads back from its one-letter form and from its file
/// extension: what is stored or shown is read as the same type again.
pub proof fn lemma_image_type_forms_read_back(t: ImageType)
    ensures
        image_type_of_text(short_form_of(t)) == Some(t),
        image_type_of_text(long_form_of(t)) == Some(t),
{
    let s = short_form_of(t);
    let l = long_form_of(t);
    lemma_lowercase_ascii_fixed(s);
    lemma_lowercase_ascii_fixed(l);
    lemma_trimmed_fixed(s);
    lemma_trimmed_fixed(l);
}

/// Reading an image type from ASCII text ignores the case of its letters:
/// the text, its ASCII uppercase and its ASCII lowercase name the same type.
pub proof fn lemma_image_type_ignores_ascii_case(s: Seq<char>)
    requires
        all_ascii(s),
    ensures
        image_type_of_text(s.map_values(|c: char| ascii_upper(c))) == image_type_of_text(s),
        image_type_of_text(s.map_values(|c: char| ascii_lower(c))) == image_type_of_text(s),
{
    lemma_lowercase_ignores_ascii_case(s);
}

/// Whitespace around a name, however much, does not change the image type
/// it is read as: `"jpg\r\n"` reads as `jpg` does.
pub proof fn lemma_image_type_ignores_surrounding_white_space(
    w1: Seq<char>,
    name: Seq<char>,
    w2: Seq<char>,
)
    requires
        all_ascii(w1 + name + w2),
        all_white_space(w1),
        all_white_space(w2),
        name.len() > 0 ==> !is_white_space(name[0]) && !is_white_space(name.last()),
    ensures
        image_type_of_text(w1 + name + w2) == image_type_of_text(name),
{
    let s = w1 + name + w2;
    assert forall|i: int| 0 <= i < name.len() implies (#[trigger] name[i] as int) < 128 by {
        assert(s[w1.len() + i] == name[i]);
    }
    let l = name.map_values(|c: char| ascii_lower(c));
    assert(lowercase_text(s) =~= w1 + l + w2) by {
        assert forall|i: int| 0 <= i < w1.len() implies ascii_lower(#[trigger] w1[i]) == w1[i] by {
            assert(is_white_space(w1[i]));
        }
        assert forall|i: int| 0 <= i < w2.len() implies ascii_lower(#[trigger] w2[i]) == w2[i] by {
            assert(is_white_space(w2[i]));
        }
        assert forall|i: int| 0 <= i < s.len() implies #[trigger] lowercase_text(s)[i] == (w1 + l + w2)[i] by {
            if i < w1.len() {
                assert(s[i] == w1[i]);
            } else if i < w1.len() + name.len() {
                assert(s[i] == name[i - w1.len()]);
            } else {
                assert(s[i] == w2[i - w1.len() - name.len()]);
            }
        }
    }
    assert(lowercase_text(name) == l);
    if name.len() > 0 {
        assert(l[0] == ascii_lower(name[0]));
        assert(l.last() == ascii_lower(name.last()));
    }
    lemma_trimmed_removes_surrounding(w1, l, w2);
    lemma_trimmed_removes_surrounding(Seq::empty(), l, Seq::empty());
    assert(Seq::<char>::empty() + l + Seq::<char>::empty() =~= l);
}

/// A path without any `.` is its own extension.
pub proof fn lemma_extension_of_without_dot(path: Seq<char>)
    requires
        forall|i: int| 0 <= i < path.len() ==> path[i] != '.',
    ensures
        extension_of(path) == path,
    decreases path.len(),
{
    if path.len() > 0 {
        lemma_extension_of_without_dot(path.drop_last());
        assert(path.drop_last().push(path.last()) =~= path);
    }
}

/// A path that ends in `.` and an extension without `.` has that extension.
pub proof fn lemma_extension_of_appended(stem: Seq<char>, ext: Seq<char>)
    requires
        forall|i: int| 0 <= i < ext.len() ==> ext[i] != '.',
    ensures
        extension_of(stem.push('.') + ext) == ext,
    decreases ext.len(),
{
    if ext.len() == 0 {
        assert(stem.push('.') + ext =~= stem.push('.'));
    } else {
        lemma_extension_of_appended(stem, ext.drop_last());
        let p = stem.push('.') + ext;
        assert(p.drop_last() =~= stem.push('.') + ext.drop_last());
        assert(ext.drop_last().push(ext.last()) =~= ext);
    }
}

impl std::str::FromStr for ImageType {
    type Err = String;

    fn from_str(s: &str) -> (r: Result<Self, Self::Err>)
        ensures
            image_type_result_of(s@, r),
    {
        ImageType::from_str(s)
    }
}

} // verus!
