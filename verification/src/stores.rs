//! The rules of the identity and visual-signature stores: which files they
//! accept, the names stored copies get, how they are labelled and listed.
use vstd::prelude::*;
use image::{ImageFormat, ImageReader};
use std::io::Cursor;
use crate::model::{SignatureAppearance, SigningIdentity};
use crate::order::{stable_order, stable_sort_positions};
use crate::text::{
    ascii_lower, chars_equal, chars_of, decimal, decimal_chars, is_alphanumeric, lowercase, push_chars,
    push_str, string_from, to_ascii_lower, unicode_alphanumeric, unicode_lowercase,
};

verus! {

/// Why a file was not taken into a store.
#[derive(Clone, Copy, Debug, PartialEq, Eq, Structural)]
pub enum StoreError {
    NotAnIdentity,
    NotAnImage,
    ImageTooLarge,
    InvalidImage,
    NotNormalized,
}

pub open spec fn store_error_text(e: StoreError) -> Seq<char> {
    match e {
        StoreError::NotAnIdentity => "Selecciona una identidad .p12 o .pfx."@,
        StoreError::NotAnImage => "Selecciona una firma visual PNG, JPG, GIF, BMP, TIFF o WebP."@,
        StoreError::ImageTooLarge => "La firma visual supera el límite seguro de 32 megapíxeles."@,
        StoreError::InvalidImage => "la imagen de firma no es válida"@,
        StoreError::NotNormalized => "no se pudo normalizar la firma visual"@,
    }
}

impl StoreError {
    /// The sentence shown to the person.
    pub fn message(&self) -> (r: &'static str)
        ensures
            r@ == store_error_text(*self),
    {
        match self {
            StoreError::NotAnIdentity => "Selecciona una identidad .p12 o .pfx.",
            StoreError::NotAnImage => "Selecciona una firma visual PNG, JPG, GIF, BMP, TIFF o WebP.",
            StoreError::ImageTooLarge => "La firma visual supera el límite seguro de 32 megapíxeles.",
            StoreError::InvalidImage => "la imagen de firma no es válida",
            StoreError::NotNormalized => "no se pudo normalizar la firma visual",
        }
    }
}

// ------------------------------------------------------------ file names

/// A character kept in a stored file name: letters, digits, space, `-`,
/// `_` and `.`.
pub open spec fn kept_char(c: char) -> bool {
    unicode_alphanumeric(c) || c == ' ' || c == '-' || c == '_' || c == '.'
}

/// The kept characters of `s`, in order.
pub open spec fn kept_chars(s: Seq<char>) -> Seq<char>
    decreases s.len(),
{
    if s.len() == 0 {
        s
    } else if kept_char(s.last()) {
        kept_chars(s.drop_last()).push(s.last())
    } else {
        kept_chars(s.drop_last())
    }
}

/// A space or a dot, trimmed from both ends of a stored name.
pub open spec fn edge_char(c: char) -> bool {
    c == ' ' || c == '.'
}

/// `s` without spaces and dots at either end.
pub open spec fn trim_edges(s: Seq<char>) -> Seq<char>
    decreases s.len(),
{
    if s.len() == 0 {
        s
    } else if edge_char(s[0]) {
        trim_edges(s.drop_first())
    } else if edge_char(s.last()) {
        trim_edges(s.drop_last())
    } else {
        s
    }
}

/// The stem a stored copy is named after: the source's stem (or
/// "identidad") reduced to safe characters and trimmed of spaces and dots,
/// "identidad" when nothing is left.
pub open spec fn safe_stem_of(stem: Option<Seq<char>>) -> Seq<char> {
    let raw = match stem {
        Some(s) => s,
        None => "identidad"@,
    };
    let clean = trim_edges(kept_chars(raw));
    if clean.len() == 0 {
        "identidad"@
    } else {
        clean
    }
}

fn trim_edge_chars(s: &Vec<char>) -> (r: Vec<char>)
    ensures
        r@ == trim_edges(s@),
{
    let mut start: usize = 0;
    let mut end: usize = s.len();
    assert(s@.subrange(0, s@.len() as int) =~= s@);
    while start < end && (s[start] == ' ' || s[start] == '.' || s[end - 1] == ' ' || s[end - 1] == '.')
        invariant
            start <= end <= s@.len(),
            trim_edges(s@.subrange(start as int, end as int)) == trim_edges(s@),
        decreases end - start,
    {
        let ghost cur = s@.subrange(start as int, end as int);
        if s[start] == ' ' || s[start] == '.' {
            assert(cur[0] == s@[start as int]);
            assert(cur.drop_first() =~= s@.subrange(start + 1, end as int));
            start = start + 1;
        } else {
            assert(cur[0] == s@[start as int]);
            assert(cur.last() == s@[end - 1]);
            assert(cur.drop_last() =~= s@.subrange(start as int, end - 1));
            end = end - 1;
        }
    }
    proof {
        let cur = s@.subrange(start as int, end as int);
        if start < end {
            assert(cur[0] == s@[start as int]);
            assert(cur.last() == s@[end - 1]);
        }
    }
    crate::text::chars_between(s, start, end)
}

/// The safe stem for a stored copy of a file whose stem is `stem`.
pub fn safe_stem(stem: Option<&str>) -> (r: String)
    ensures
        r@ == safe_stem_of(
            match stem {
                Some(s) => Some(s@),
                None => None,
            },
        ),
{
    let raw = match stem {
        Some(s) => chars_of(s),
        None => chars_of("identidad"),
    };
    let mut clean: Vec<char> = Vec::new();
    let mut i: usize = 0;
    while i < raw.len()
        invariant
            i <= raw@.len(),
            clean@ == kept_chars(raw@.subrange(0, i as int)),
        decreases raw@.len() - i,
    {
        proof {
            assert(raw@.subrange(0, i + 1).drop_last() =~= raw@.subrange(0, i as int));
        }
        let c = raw[i];
        if is_alphanumeric(c) || c == ' ' || c == '-' || c == '_' || c == '.' {
            clean.push(c);
        }
        i = i + 1;
    }
    assert(raw@.subrange(0, raw@.len() as int) =~= raw@);
    let trimmed = trim_edge_chars(&clean);
    if trimmed.len() == 0 {
        String::from_str("identidad")
    } else {
        string_from(trimmed.as_slice())
    }
}

proof fn lemma_kept_chars_only_kept(s: Seq<char>)
    ensures
        forall|i: int| 0 <= i < kept_chars(s).len() ==> kept_char(#[trigger] kept_chars(s)[i]),
    decreases s.len(),
{
    if s.len() > 0 {
        lemma_kept_chars_only_kept(s.drop_last());
        let prev = kept_chars(s.drop_last());
        if kept_char(s.last()) {
            assert forall|i: int| 0 <= i < kept_chars(s).len() implies kept_char(#[trigger] kept_chars(s)[i]) by {
                if i < prev.len() {
                    assert(kept_chars(s)[i] == prev[i]);
                }
            }
        }
    }
}

proof fn lemma_trim_edges_shape(s: Seq<char>)
    ensures
        forall|i: int| 0 <= i < trim_edges(s).len() ==> s.contains(#[trigger] trim_edges(s)[i]),
        trim_edges(s).len() > 0 ==> !edge_char(trim_edges(s)[0]) && !edge_char(trim_edges(s).last()),
    decreases s.len(),
{
    if s.len() > 0 {
        if edge_char(s[0]) {
            lemma_trim_edges_shape(s.drop_first());
            assert forall|i: int| 0 <= i < trim_edges(s).len() implies s.contains(#[trigger] trim_edges(s)[i]) by {
                let c = trim_edges(s)[i];
                let k = choose|k: int| 0 <= k < s.drop_first().len() && s.drop_first()[k] == c;
                assert(s[k + 1] == c);
            }
        } else if edge_char(s.last()) {
            lemma_trim_edges_shape(s.drop_last());
            assert forall|i: int| 0 <= i < trim_edges(s).len() implies s.contains(#[trigger] trim_edges(s)[i]) by {
                let c = trim_edges(s)[i];
                let k = choose|k: int| 0 <= k < s.drop_last().len() && s.drop_last()[k] == c;
                assert(s[k] == c);
            }
        } else {
            assert forall|i: int| 0 <= i < trim_edges(s).len() implies s.contains(#[trigger] trim_edges(s)[i]) by {
                assert(s[i] == trim_edges(s)[i]);
            }
        }
    }
}

/// A stored name is always safe to use in the store's folder: it is never
/// empty, every character is a kept one, and it neither starts nor ends
/// with a space or a dot (so it can never be `.` or `..`).
pub proof fn law_safe_stem_is_safe(stem: Option<Seq<char>>)
    ensures
        safe_stem_of(stem).len() > 0,
        forall|i: int| 0 <= i < safe_stem_of(stem).len() ==> kept_char(#[trigger] safe_stem_of(stem)[i])
            || safe_stem_of(stem) == "identidad"@,
        !edge_char(safe_stem_of(stem)[0]),
        !edge_char(safe_stem_of(stem).last()),
{
    let raw = match stem {
        Some(s) => s,
        None => "identidad"@,
    };
    lemma_kept_chars_only_kept(raw);
    lemma_trim_edges_shape(kept_chars(raw));
    let clean = trim_edges(kept_chars(raw));
    if clean.len() > 0 {
        assert forall|i: int| 0 <= i < clean.len() implies kept_char(#[trigger] clean[i]) by {
            let c = clean[i];
            let k = choose|k: int| 0 <= k < kept_chars(raw).len() && kept_chars(raw)[k] == c;
        }
    } else {
        reveal_strlit("identidad");
    }
}

/// The file name of the `index`-th candidate copy: the stem, then `-index`
/// from the second candidate on, then the extension.
pub open spec fn candidate_name(stem: Seq<char>, index: nat, extension: Seq<char>) -> Seq<char> {
    stem + (if index == 1 {
        Seq::<char>::empty()
    } else {
        "-"@ + decimal(index)
    }) + "."@ + extension
}

/// The file name tried for the `index`-th copy of a stored file.
pub fn candidate_file_name(stem: &str, index: u32, extension: &str) -> (r: String)
    ensures
        r@ == candidate_name(stem@, index as nat, extension@),
{
    let mut out = chars_of(stem);
    if index != 1 {
        push_str(&mut out, "-");
        push_chars(&mut out, &decimal_chars(index as u64));
    }
    push_str(&mut out, ".");
    push_str(&mut out, extension);
    string_from(out.as_slice())
}

/// What to do with a candidate name while importing a file.
#[derive(Clone, Copy, Debug, PartialEq, Eq, Structural)]
pub enum ImportStep {
    /// The same content is already stored under this name: reuse it.
    Reuse,
    /// A different file has this name: try the next candidate.
    TryNext,
    /// The name is free: store the file under it.
    Store,
}

/// What to do with a candidate name: store under a free name, reuse one
/// that holds the same content, else try the next.
pub open spec fn import_rule(name_taken: bool, same_content: bool) -> ImportStep {
    if !name_taken {
        ImportStep::Store
    } else if same_content {
        ImportStep::Reuse
    } else {
        ImportStep::TryNext
    }
}

/// Importing never overwrites a stored file and never stores the same
/// content twice.
pub fn import_step(name_taken: bool, same_content: bool) -> (r: ImportStep)
    ensures
        r == import_rule(name_taken, same_content),
{
    if !name_taken {
        ImportStep::Store
    } else if same_content {
        ImportStep::Reuse
    } else {
        ImportStep::TryNext
    }
}

/// The step an import of `bytes` takes at its `index`-th candidate name, in
/// a folder whose files are `files` (name to content).
pub open spec fn step_at(
    files: Map<Seq<char>, Seq<u8>>,
    stem: Seq<char>,
    extension: Seq<char>,
    bytes: Seq<u8>,
    index: nat,
) -> ImportStep {
    let name = candidate_name(stem, index, extension);
    import_rule(files.dom().contains(name), files.dom().contains(name) && files[name] == bytes)
}

/// An import ends at its `index`-th candidate: every earlier candidate
/// names a file with other content, and this one is free or holds `bytes`.
pub open spec fn import_ends_at(
    files: Map<Seq<char>, Seq<u8>>,
    stem: Seq<char>,
    extension: Seq<char>,
    bytes: Seq<u8>,
    index: nat,
) -> bool {
    &&& index >= 1
    &&& step_at(files, stem, extension, bytes, index) != ImportStep::TryNext
    &&& forall|j: nat| 1 <= j < index ==> #[trigger] step_at(files, stem, extension, bytes, j) == ImportStep::TryNext
}

/// The folder after an import that ended at its `index`-th candidate.
pub open spec fn after_import(
    files: Map<Seq<char>, Seq<u8>>,
    stem: Seq<char>,
    extension: Seq<char>,
    bytes: Seq<u8>,
    index: nat,
) -> Map<Seq<char>, Seq<u8>> {
    if step_at(files, stem, extension, bytes, index) == ImportStep::Store {
        files.insert(candidate_name(stem, index, extension), bytes)
    } else {
        files
    }
}

/// An import never changes a file that was already stored, and the name it
/// ends at holds exactly the imported content afterwards.
pub proof fn law_import_keeps_stored_files(
    files: Map<Seq<char>, Seq<u8>>,
    stem: Seq<char>,
    extension: Seq<char>,
    bytes: Seq<u8>,
    index: nat,
)
    requires
        import_ends_at(files, stem, extension, bytes, index),
    ensures
        ({
            let after = after_import(files, stem, extension, bytes, index);
            let name = candidate_name(stem, index, extension);
            &&& after.dom() == files.dom().insert(name)
            &&& after[name] == bytes
            &&& forall|other: Seq<char>| #[trigger] files.dom().contains(other) ==> after[other] == files[other]
        }),
{
    let name = candidate_name(stem, index, extension);
    let after = after_import(files, stem, extension, bytes, index);
    if files.dom().contains(name) {
        assert(files.dom().insert(name) =~= files.dom());
    }
    assert(after.dom() =~= files.dom().insert(name));
}

/// Importing the same content a second time ends at the same name and
/// reuses the file stored there: the folder stays as it is.
pub proof fn law_import_again_reuses(
    files: Map<Seq<char>, Seq<u8>>,
    stem: Seq<char>,
    extension: Seq<char>,
    bytes: Seq<u8>,
    index: nat,
)
    requires
        import_ends_at(files, stem, extension, bytes, index),
    ensures
        ({
            let after = after_import(files, stem, extension, bytes, index);
            &&& import_ends_at(after, stem, extension, bytes, index)
            &&& step_at(after, stem, extension, bytes, index) == ImportStep::Reuse
            &&& after_import(after, stem, extension, bytes, index) == after
        }),
{
    let name = candidate_name(stem, index, extension);
    let after = after_import(files, stem, extension, bytes, index);
    assert forall|j: nat| 1 <= j < index implies #[trigger] step_at(after, stem, extension, bytes, j)
        == ImportStep::TryNext by {
        assert(step_at(files, stem, extension, bytes, j) == ImportStep::TryNext);
        let earlier = candidate_name(stem, j, extension);
        if step_at(files, stem, extension, bytes, index) == ImportStep::Store {
            assert(files.dom().contains(earlier));
            assert(!files.dom().contains(name));
            assert(earlier != name);
        }
    }
}

/// Importing the same picture into the visual-signature store again, under
/// the same stem, ends at the file the first import stored and reuses it:
/// the picture is normalised to the same PNG, so no second copy is made.
pub proof fn law_appearance_import_again_reuses(
    files: Map<Seq<char>, Seq<u8>>,
    source_stem: Option<Seq<char>>,
    source: Seq<u8>,
    format: SourceImageFormat,
    index: nat,
)
    requires
        normalized_appearance(source, format) is Ok,
        import_ends_at(files, safe_stem_of(source_stem), "png"@, normalized_appearance(source, format)->Ok_0, index),
    ensures
        ({
            let png = normalized_appearance(source, format)->Ok_0;
            let after = after_import(files, safe_stem_of(source_stem), "png"@, png, index);
            &&& after[candidate_name(safe_stem_of(source_stem), index, "png"@)] == png
            &&& import_ends_at(after, safe_stem_of(source_stem), "png"@, png, index)
            &&& step_at(after, safe_stem_of(source_stem), "png"@, png, index) == ImportStep::Reuse
            &&& after_import(after, safe_stem_of(source_stem), "png"@, png, index) == after
        }),
{
    let png = normalized_appearance(source, format)->Ok_0;
    law_import_keeps_stored_files(files, safe_stem_of(source_stem), "png"@, png, index);
    law_import_again_reuses(files, safe_stem_of(source_stem), "png"@, png, index);
}

/// Importing the same identity file into the identity store again ends at
/// the file the first import stored and reuses it; an identity with other
/// content under the same stem is stored under another name, and the first
/// one is left as it was.
pub proof fn law_identity_import_again_reuses(
    files: Map<Seq<char>, Seq<u8>>,
    source_stem: Option<Seq<char>>,
    source_extension: Option<Seq<char>>,
    bytes: Seq<u8>,
    index: nat,
    other: Seq<u8>,
    other_index: nat,
)
    requires
        identity_extension_of(source_extension) is Ok,
        import_ends_at(files, safe_stem_of(source_stem), identity_extension_of(source_extension)->Ok_0, bytes, index),
        other != bytes,
        import_ends_at(
            after_import(files, safe_stem_of(source_stem), identity_extension_of(source_extension)->Ok_0, bytes, index),
            safe_stem_of(source_stem),
            identity_extension_of(source_extension)->Ok_0,
            other,
            other_index,
        ),
    ensures
        ({
            let stem = safe_stem_of(source_stem);
            let extension = identity_extension_of(source_extension)->Ok_0;
            let after = after_import(files, stem, extension, bytes, index);
            let later = after_import(after, stem, extension, other, other_index);
            &&& step_at(after, stem, extension, bytes, index) == ImportStep::Reuse
            &&& after_import(after, stem, extension, bytes, index) == after
            &&& other_index != index
            &&& later[candidate_name(stem, index, extension)] == bytes
            &&& later[candidate_name(stem, other_index, extension)] == other
        }),
{
    let stem = safe_stem_of(source_stem);
    let extension = identity_extension_of(source_extension)->Ok_0;
    let after = after_import(files, stem, extension, bytes, index);
    law_import_keeps_stored_files(files, stem, extension, bytes, index);
    law_import_again_reuses(files, stem, extension, bytes, index);
    law_import_keeps_stored_files(after, stem, extension, other, other_index);
    if other_index == index {
        assert(after[candidate_name(stem, index, extension)] == bytes);
        assert(step_at(after, stem, extension, other, index) == ImportStep::TryNext);
    }
}

/// A `.p12` and a `.pfx` identity never share a stored name, whatever their
/// stems and candidate numbers.
pub proof fn law_identity_extensions_keep_copies_apart(stem: Seq<char>, index: nat, other_stem: Seq<char>, other_index: nat)
    ensures
        candidate_name(stem, index, "p12"@) != candidate_name(other_stem, other_index, "pfx"@),
{
    reveal_strlit("p12");
    reveal_strlit("pfx");
    let a = candidate_name(stem, index, "p12"@);
    let b = candidate_name(other_stem, other_index, "pfx"@);
    assert(a.last() == '2');
    assert(b.last() == 'x');
}

// ---------------------------------------------------------- identities

/// The extension of an identity the store accepts, lower-cased: `p12` or `pfx`.
pub open spec fn identity_extension_of(extension: Option<Seq<char>>) -> Result<Seq<char>, StoreError> {
    match extension {
        Some(e) => if ascii_lower(e) == "p12"@ || ascii_lower(e) == "pfx"@ {
            Ok(ascii_lower(e))
        } else {
            Err(StoreError::NotAnIdentity)
        },
        None => Err(StoreError::NotAnIdentity),
    }
}

/// Accepts `.p12` and `.pfx` identities (in any case), giving the
/// lower-case extension the stored copy keeps.
pub fn identity_extension(extension: Option<&str>) -> (r: Result<String, StoreError>)
    ensures
        match r {
            Ok(e) => identity_extension_of(crate::text::str_option(extension)) == Ok::<Seq<char>, StoreError>(e@),
            Err(e) => identity_extension_of(crate::text::str_option(extension)) == Err::<Seq<char>, StoreError>(e),
        },
{
    match extension {
        Some(e) => {
            let lowered = to_ascii_lower(&chars_of(e));
            if chars_equal(&lowered, &chars_of("p12")) || chars_equal(&lowered, &chars_of("pfx")) {
                Ok(string_from(lowered.as_slice()))
            } else {
                Err(StoreError::NotAnIdentity)
            }
        },
        None => Err(StoreError::NotAnIdentity),
    }
}

/// Whether a file in the identity folder is listed: `.p12` or `.pfx`, in any case.
pub fn is_identity_file(extension: Option<&str>) -> (r: bool)
    ensures
        r == identity_extension_of(crate::text::str_option(extension)) is Ok,
{
    identity_extension(extension).is_ok()
}

// ----------------------------------------------------- visual signatures

/// The image formats a visual signature can be imported from.
#[derive(Clone, Copy, Debug, PartialEq, Eq, Structural)]
pub enum SourceImageFormat {
    Png,
    Jpeg,
    Gif,
    Bmp,
    Tiff,
    WebP,
}

/// The format of an image to import, from its extension in any case.
pub open spec fn source_format_of(extension: Option<Seq<char>>) -> Result<SourceImageFormat, StoreError> {
    match extension {
        Some(e) => {
            let l = ascii_lower(e);
            if l == "png"@ {
                Ok(SourceImageFormat::Png)
            } else if l == "jpg"@ || l == "jpeg"@ {
                Ok(SourceImageFormat::Jpeg)
            } else if l == "gif"@ {
                Ok(SourceImageFormat::Gif)
            } else if l == "bmp"@ {
                Ok(SourceImageFormat::Bmp)
            } else if l == "tif"@ || l == "tiff"@ {
                Ok(SourceImageFormat::Tiff)
            } else if l == "webp"@ {
                Ok(SourceImageFormat::WebP)
            } else {
                Err(StoreError::NotAnImage)
            }
        },
        None => Err(StoreError::NotAnImage),
    }
}

/// Each supported extension, in any case, names its format: `png`, `jpg`
/// or `jpeg`, `gif`, `bmp`, `tif` or `tiff`, and `webp`; any other
/// extension, or none, is refused as not an image.
pub proof fn law_each_image_extension_names_its_format(e: Seq<char>)
    ensures
        ascii_lower(e) == "png"@ ==> source_format_of(Some(e)) == Ok::<SourceImageFormat, StoreError>(SourceImageFormat::Png),
        ascii_lower(e) == "jpg"@ || ascii_lower(e) == "jpeg"@ ==> source_format_of(Some(e)) == Ok::<SourceImageFormat, StoreError>(SourceImageFormat::Jpeg),
        ascii_lower(e) == "gif"@ ==> source_format_of(Some(e)) == Ok::<SourceImageFormat, StoreError>(SourceImageFormat::Gif),
        ascii_lower(e) == "bmp"@ ==> source_format_of(Some(e)) == Ok::<SourceImageFormat, StoreError>(SourceImageFormat::Bmp),
        ascii_lower(e) == "tif"@ || ascii_lower(e) == "tiff"@ ==> source_format_of(Some(e)) == Ok::<SourceImageFormat, StoreError>(SourceImageFormat::Tiff),
        ascii_lower(e) == "webp"@ ==> source_format_of(Some(e)) == Ok::<SourceImageFormat, StoreError>(SourceImageFormat::WebP),
        source_format_of(Some(e)) is Err <==> !(ascii_lower(e) == "png"@ || ascii_lower(e) == "jpg"@ || ascii_lower(e)
            == "jpeg"@ || ascii_lower(e) == "gif"@ || ascii_lower(e) == "bmp"@ || ascii_lower(e) == "tif"@
            || ascii_lower(e) == "tiff"@ || ascii_lower(e) == "webp"@),
        source_format_of(Some(e)) is Err ==> source_format_of(Some(e)) == Err::<SourceImageFormat, StoreError>(StoreError::NotAnImage),
        source_format_of(None) == Err::<SourceImageFormat, StoreError>(StoreError::NotAnImage),
{
    reveal_strlit("png");
    reveal_strlit("jpg");
    reveal_strlit("jpeg");
    reveal_strlit("gif");
    reveal_strlit("bmp");
    reveal_strlit("tif");
    reveal_strlit("tiff");
    reveal_strlit("webp");
    assert("png"@[0] == 'p' && "jpg"@[0] == 'j' && "jpeg"@[0] == 'j' && "gif"@[0] == 'g');
    assert("bmp"@[0] == 'b' && "tif"@[0] == 't' && "tiff"@[0] == 't' && "webp"@[0] == 'w');
    assert("png"@.len() == 3 && "jpg"@.len() == 3 && "gif"@.len() == 3 && "bmp"@.len() == 3);
    assert("tif"@.len() == 3 && "jpeg"@.len() == 4 && "tiff"@.len() == 4 && "webp"@.len() == 4);
}

/// The format of an image to import as a visual signature.
pub fn source_image_format(extension: Option<&str>) -> (r: Result<SourceImageFormat, StoreError>)
    ensures
        r == source_format_of(crate::text::str_option(extension)),
{
    match extension {
        Some(e) => {
            let l = to_ascii_lower(&chars_of(e));
            if chars_equal(&l, &chars_of("png")) {
                Ok(SourceImageFormat::Png)
            } else if chars_equal(&l, &chars_of("jpg")) || chars_equal(&l, &chars_of("jpeg")) {
                Ok(SourceImageFormat::Jpeg)
            } else if chars_equal(&l, &chars_of("gif")) {
                Ok(SourceImageFormat::Gif)
            } else if chars_equal(&l, &chars_of("bmp")) {
                Ok(SourceImageFormat::Bmp)
            } else if chars_equal(&l, &chars_of("tif")) || chars_equal(&l, &chars_of("tiff")) {
                Ok(SourceImageFormat::Tiff)
            } else if chars_equal(&l, &chars_of("webp")) {
                Ok(SourceImageFormat::WebP)
            } else {
                Err(StoreError::NotAnImage)
            }
        },
        None => Err(StoreError::NotAnImage),
    }
}

/// The largest side a visual signature may have, in pixels.
pub const MAX_IMAGE_SIDE: u32 = 8192;

/// The most pixels a visual signature may have.
pub const MAX_IMAGE_PIXELS: u64 = 32_000_000;

/// Refuses images over 8192 pixels a side or 32 megapixels in all.
pub fn check_image_size(width: u32, height: u32) -> (r: Result<(), StoreError>)
    ensures
        r is Ok <==> (width <= MAX_IMAGE_SIDE && height <= MAX_IMAGE_SIDE && width * height
            <= MAX_IMAGE_PIXELS),
        r matches Err(e) ==> e == StoreError::ImageTooLarge,
{
    if width > MAX_IMAGE_SIDE || height > MAX_IMAGE_SIDE {
        return Err(StoreError::ImageTooLarge);
    }
    assert((width as u64) * (height as u64) <= 8192 * 8192) by (nonlinear_arith)
        requires
            width <= 8192,
            height <= 8192,
    ;
    let pixels: u64 = (width as u64) * (height as u64);
    if pixels > MAX_IMAGE_PIXELS {
        return Err(StoreError::ImageTooLarge);
    }
    Ok(())
}

/// What `image` makes of `bytes` read as `format`: the picture's width and
/// height, or `None` when it does not decode.
pub uninterp spec fn decoded_size(bytes: Seq<u8>, format: SourceImageFormat) -> Option<(u32, u32)>;

/// The PNG that `image` writes for the picture `bytes` holds when read as
/// `format`, or `None` when it does not decode or cannot be written.
pub uninterp spec fn png_reencoding(bytes: Seq<u8>, format: SourceImageFormat) -> Option<Seq<u8>>;

/// `ImageReader::with_format(..).decode()` on `bytes`, then the decoded
/// picture's `width()` and `height()`.
#[verifier::external_body]
fn image_size(bytes: &[u8], format: SourceImageFormat) -> (r: Option<(u32, u32)>)
    ensures
        r == decoded_size(bytes@, format),
{
    let format = match format {
        SourceImageFormat::Png => ImageFormat::Png, SourceImageFormat::Jpeg => ImageFormat::Jpeg,
        SourceImageFormat::Gif => ImageFormat::Gif, SourceImageFormat::Bmp => ImageFormat::Bmp,
        SourceImageFormat::Tiff => ImageFormat::Tiff, SourceImageFormat::WebP => ImageFormat::WebP,
    };
    let picture = ImageReader::with_format(Cursor::new(bytes), format).decode().ok()?;
    Some((picture.width(), picture.height()))
}

/// `ImageReader::with_format(..).decode()` on `bytes`, then
/// `DynamicImage::write_to` in `ImageFormat::Png` into a new buffer.
#[verifier::external_body]
fn png_of(bytes: &[u8], format: SourceImageFormat) -> (r: Option<Vec<u8>>)
    ensures
        match r {
            Some(png) => png_reencoding(bytes@, format) == Some(png@),
            None => png_reencoding(bytes@, format) is None,
        },
{
    let format = match format {
        SourceImageFormat::Png => ImageFormat::Png, SourceImageFormat::Jpeg => ImageFormat::Jpeg,
        SourceImageFormat::Gif => ImageFormat::Gif, SourceImageFormat::Bmp => ImageFormat::Bmp,
        SourceImageFormat::Tiff => ImageFormat::Tiff, SourceImageFormat::WebP => ImageFormat::WebP,
    };
    let picture = ImageReader::with_format(Cursor::new(bytes), format).decode().ok()?;
    let mut png = Cursor::new(Vec::new());
    picture.write_to(&mut png, ImageFormat::Png).ok()?;
    Some(png.into_inner())
}

/// A picture of `width` by `height` pixels is small enough to store.
pub open spec fn size_allowed(width: u32, height: u32) -> bool {
    width <= MAX_IMAGE_SIDE && height <= MAX_IMAGE_SIDE && width * height <= MAX_IMAGE_PIXELS
}

/// What importing the picture `bytes`, read as `format`, stores: refused as
/// invalid when it does not decode, as too large when it exceeds the size
/// limits, else its PNG re-encoding (refused when that cannot be written).
pub open spec fn normalized_appearance(bytes: Seq<u8>, format: SourceImageFormat) -> Result<Seq<u8>, StoreError> {
    match decoded_size(bytes, format) {
        None => Err(StoreError::InvalidImage),
        Some((width, height)) => if !size_allowed(width, height) {
            Err(StoreError::ImageTooLarge)
        } else {
            match png_reencoding(bytes, format) {
                Some(png) => Ok(png),
                None => Err(StoreError::NotNormalized),
            }
        },
    }
}

/// The PNG a visual signature is stored as, made from the picture the
/// person chose (`bytes`, in `format`), once it has been checked.
pub fn normalize_appearance(bytes: &[u8], format: SourceImageFormat) -> (r: Result<Vec<u8>, StoreError>)
    ensures
        match r {
            Ok(png) => normalized_appearance(bytes@, format) == Ok::<Seq<u8>, StoreError>(png@),
            Err(e) => normalized_appearance(bytes@, format) == Err::<Seq<u8>, StoreError>(e),
        },
{
    let (width, height) = match image_size(bytes, format) {
        Some(size) => size,
        None => return Err(StoreError::InvalidImage),
    };
    match check_image_size(width, height) {
        Ok(()) => {},
        Err(e) => return Err(e),
    }
    match png_of(bytes, format) {
        Some(png) => Ok(png),
        None => Err(StoreError::NotNormalized),
    }
}

/// Whether a file in the visual-signature folder is listed: `.png`, in any case.
pub fn is_appearance_file(extension: Option<&str>) -> (r: bool)
    ensures
        r == (match crate::text::str_option(extension) {
            Some(e) => ascii_lower(e) == "png"@,
            None => false,
        }),
{
    match extension {
        Some(e) => chars_equal(&to_ascii_lower(&chars_of(e)), &chars_of("png")),
        None => false,
    }
}

// -------------------------------------------------------------- labels

/// A stored file is labelled with its stem, or `fallback` without one.
pub fn label_or(stem: Option<String>, fallback: &str) -> (r: String)
    ensures
        r@ == match stem {
            Some(s) => s@,
            None => fallback@,
        },
{
    match stem {
        Some(s) => s,
        None => String::from_str(fallback),
    }
}

/// The label of a stored identity without a readable stem.
pub open spec fn unnamed_identity() -> Seq<char> {
    "Identidad digital"@
}

/// The label of a stored visual signature without a readable stem.
pub open spec fn unnamed_appearance() -> Seq<char> {
    "Firma visual"@
}

/// The lower-cased labels, the keys the lists are sorted by.
pub open spec fn label_keys(labels: Seq<Seq<char>>) -> Seq<Seq<char>> {
    labels.map_values(|l: Seq<char>| unicode_lowercase(l))
}

fn lowered_keys(labels: &Vec<String>) -> (r: Vec<Vec<char>>)
    ensures
        r@.len() == labels@.len(),
        r@.map_values(|k: Vec<char>| k@) == label_keys(labels@.map_values(|l: String| l@)),
{
    let mut keys: Vec<Vec<char>> = Vec::new();
    let mut i: usize = 0;
    while i < labels.len()
        invariant
            i <= labels@.len(),
            keys@.len() == i,
            forall|j: int| 0 <= j < i ==> #[trigger] keys@[j]@ == unicode_lowercase(labels@[j]@),
        decreases labels@.len() - i,
    {
        keys.push(chars_of(lowercase(labels[i].as_str()).as_str()));
        i = i + 1;
    }
    assert(keys@.map_values(|k: Vec<char>| k@) =~= label_keys(labels@.map_values(|l: String| l@)));
    keys
}

/// The order a list is shown in: by label, ignoring case (Unicode
/// lower-case), equal labels keeping the order they were found in.
pub fn order_by_label(labels: &Vec<String>) -> (r: Vec<usize>)
    ensures
        r@.len() == labels@.len(),
        r@.map_values(|p: usize| p as int) == stable_order(
            label_keys(labels@.map_values(|l: String| l@)),
            labels@.len() as int,
        ),
{
    let keys = lowered_keys(labels);
    stable_sort_positions(&keys)
}

/// The identity stored at `path`, labelled with its stem (`stem`) or
/// "Identidad digital".
pub fn identity_from_file(path: std::path::PathBuf, stem: Option<String>) -> (r: SigningIdentity)
    ensures
        r.path == path,
        r.label@ == match stem {
            Some(s) => s@,
            None => unnamed_identity(),
        },
{
    SigningIdentity { label: label_or(stem, "Identidad digital"), path }
}

/// The visual signature stored at `path`, labelled with its stem (`stem`)
/// or "Firma visual".
pub fn appearance_from_file(path: std::path::PathBuf, stem: Option<String>) -> (r: SignatureAppearance)
    ensures
        r.path == path,
        r.label@ == match stem {
            Some(s) => s@,
            None => unnamed_appearance(),
        },
{
    SignatureAppearance { label: label_or(stem, "Firma visual"), path }
}

/// The stored identities in the order they are listed: by label ignoring
/// case, equal labels in the order they were found.
pub fn sort_identities(items: &Vec<SigningIdentity>) -> (r: Vec<SigningIdentity>)
    ensures
        r@.len() == items@.len(),
        forall|i: int| #![trigger r@[i]] 0 <= i < r@.len() ==> r@[i] == items@[stable_order(
            label_keys(items@.map_values(|t: SigningIdentity| t.label@)),
            items@.len() as int,
        )[i]],
{
    let mut labels: Vec<String> = Vec::new();
    let mut i: usize = 0;
    while i < items.len()
        invariant
            i <= items@.len(),
            labels@.len() == i,
            forall|j: int| 0 <= j < i ==> #[trigger] labels@[j]@ == items@[j].label@,
        decreases items@.len() - i,
    {
        labels.push(items[i].label.clone());
        i = i + 1;
    }
    let ghost label_text = labels@.map_values(|l: String| l@);
    let ghost item_labels = items@.map_values(|t: SigningIdentity| t.label@);
    assert(label_text =~= item_labels);
    let order = order_by_label(&labels);
    let ghost ord = stable_order(label_keys(item_labels), items@.len() as int);
    proof {
        crate::order::lemma_stable_order_in_range(label_keys(item_labels), items@.len() as int);
    }
    let mut out: Vec<SigningIdentity> = Vec::new();
    let mut k: usize = 0;
    while k < order.len()
        invariant
            k <= order@.len(),
            order@.len() == items@.len(),
            out@.len() == k,
            ord == stable_order(label_keys(item_labels), items@.len() as int),
            item_labels == items@.map_values(|t: SigningIdentity| t.label@),
            order@.map_values(|p: usize| p as int) == ord,
            forall|q: int| 0 <= q < order@.len() ==> 0 <= #[trigger] ord[q] < items@.len(),
            forall|j: int| #![trigger out@[j]] 0 <= j < k ==> out@[j] == items@[ord[j]],
        decreases order@.len() - k,
    {
        proof {
            assert(order@.map_values(|p: usize| p as int)[k as int] == order@[k as int] as int);
        }
        let t = &items[order[k]];
        out.push(SigningIdentity { label: t.label.clone(), path: t.path.clone() });
        k = k + 1;
    }
    out
}

/// The stored visual signatures in the order they are listed: by label
/// ignoring case, equal labels in the order they were found.
pub fn sort_appearances(items: &Vec<SignatureAppearance>) -> (r: Vec<SignatureAppearance>)
    ensures
        r@.len() == items@.len(),
        forall|i: int| #![trigger r@[i]] 0 <= i < r@.len() ==> r@[i] == items@[stable_order(
            label_keys(items@.map_values(|t: SignatureAppearance| t.label@)),
            items@.len() as int,
        )[i]],
{
    let mut labels: Vec<String> = Vec::new();
    let mut i: usize = 0;
    while i < items.len()
        invariant
            i <= items@.len(),
            labels@.len() == i,
            forall|j: int| 0 <= j < i ==> #[trigger] labels@[j]@ == items@[j].label@,
        decreases items@.len() - i,
    {
        labels.push(items[i].label.clone());
        i = i + 1;
    }
    let ghost label_text = labels@.map_values(|l: String| l@);
    let ghost item_labels = items@.map_values(|t: SignatureAppearance| t.label@);
    assert(label_text =~= item_labels);
    let order = order_by_label(&labels);
    let ghost ord = stable_order(label_keys(item_labels), items@.len() as int);
    proof {
        crate::order::lemma_stable_order_in_range(label_keys(item_labels), items@.len() as int);
    }
    let mut out: Vec<SignatureAppearance> = Vec::new();
    let mut k: usize = 0;
    while k < order.len()
        invariant
            k <= order@.len(),
            order@.len() == items@.len(),
            out@.len() == k,
            ord == stable_order(label_keys(item_labels), items@.len() as int),
            item_labels == items@.map_values(|t: SignatureAppearance| t.label@),
            order@.map_values(|p: usize| p as int) == ord,
            forall|q: int| 0 <= q < order@.len() ==> 0 <= #[trigger] ord[q] < items@.len(),
            forall|j: int| #![trigger out@[j]] 0 <= j < k ==> out@[j] == items@[ord[j]],
        decreases order@.len() - k,
    {
        proof {
            assert(order@.map_values(|p: usize| p as int)[k as int] == order@[k as int] as int);
        }
        let t = &items[order[k]];
        out.push(SignatureAppearance { label: t.label.clone(), path: t.path.clone() });
        k = k + 1;
    }
    out
}

} // verus!
