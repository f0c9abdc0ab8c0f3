//! The name a downloaded episode is copied under.

use vstd::prelude::*;
use crate::template::{TemplateError, fill_template, format_template};
use crate::text::{two_digit_decimal, two_digit_string};

verus! {

/// `path` is one file name that every platform reads the same way: not
/// empty, not `.` or `..`, no `/` or `\`, and no `:` in second place (where
/// Windows would read a drive).
pub open spec fn portable_file_name(path: Seq<char>) -> bool {
    &&& path.len() > 0
    &&& forall|i: int| 0 <= i < path.len() ==> path[i] != '/' && path[i] != '\\'
    &&& !(path.len() >= 2 && path[1] == ':')
    &&& path != seq!['.']
    &&& path != seq!['.', '.']
}

/// The text after the last `/` of `path`; all of it where there is none.
pub open spec fn last_part(path: Seq<char>) -> Seq<char>
    decreases path.len(),
{
    if path.len() == 0 {
        path
    } else if path.last() == '/' {
        Seq::empty()
    } else {
        last_part(path.drop_last()).push(path.last())
    }
}

/// `path` is a path that every platform reads the same way, with its file
/// name after its last `/`: no `\`, no `:` in second place, no `//` at the
/// start (where Windows would read a drive or a server), and what follows
/// the last `/` is a portable file name.
pub open spec fn portable_path(path: Seq<char>) -> bool {
    &&& forall|i: int| 0 <= i < path.len() ==> path[i] != '\\'
    &&& !(path.len() >= 2 && path[1] == ':')
    &&& !(path.len() >= 2 && path[0] == '/' && path[1] == '/')
    &&& portable_file_name(last_part(path))
}

/// `i` is the position of the last `.` of `name`.
pub open spec fn last_dot(name: Seq<char>, i: int) -> bool {
    &&& 0 <= i < name.len()
    &&& name[i] == '.'
    &&& forall|j: int| i < j < name.len() ==> name[j] != '.'
}

/// The extension of a file name, as `Path::extension` documents it: none
/// without a `.`, none where the only `.` begins the name, else the text
/// after the last `.`.
pub open spec fn name_extension(name: Seq<char>) -> Option<Seq<char>> {
    if exists|i: int| last_dot(name, i) && i > 0 {
        let i = choose|i: int| last_dot(name, i) && i > 0;
        Some(name.subrange(i + 1, name.len() as int))
    } else {
        None
    }
}

/// Calls `std::path::Path::extension` and takes the extension as text.
/// Claimed: for a portable path it is what the documentation of `extension`
/// describes, of the path's file name, the text after its last `/`. Of
/// other paths nothing is said: which characters separate components, and
/// which prefixes a path may have, differ between platforms.
#[verifier::external_body]
fn file_extension(path: &str) -> (r: Option<String>)
    ensures
        portable_path(path@) ==> r.deep_view() == name_extension(last_part(path@)),
{
    match std::path::Path::new(path).extension() {
        Some(ext) => match ext.to_str() {
            Some(s) => Some(s.to_string()),
            None => None,
        },
        None => None,
    }
}

/// Why a downloaded file could not be renamed.
#[derive(Debug, PartialEq)]
pub enum RenameError {
    /// The downloaded file is not there.
    FileMissing,
    /// The file name has no extension to keep.
    MissingExtension,
    /// The rename pattern could not be filled.
    Template(TemplateError),
}

impl RenameError {
    /// The message of the error, as it is shown to the user; `None` for a
    /// template error, which `strfmt`'s own error describes.
    pub fn message(&self) -> (r: Option<&'static str>)
        ensures
            match self {
                RenameError::FileMissing => r matches Some(m) && m@
                    == "Rename error: File does not exist"@,
                RenameError::MissingExtension => r matches Some(m) && m@
                    == "Rename error: Missing file extension"@,
                RenameError::Template(_) => r is None,
            },
    {
        match self {
            RenameError::FileMissing => Some("Rename error: File does not exist"),
            RenameError::MissingExtension => Some("Rename error: Missing file extension"),
            RenameError::Template(_) => None,
        }
    }
}

/// Whether `r` is the outcome of renaming episode `episode` of a file whose
/// extension is `ext`: missing without an extension, a template error where
/// `{ep}` cannot be filled with the two-digit episode number, else the
/// filled pattern, `.` and the extension.
pub open spec fn renamed_as(
    r: &Result<String, RenameError>,
    ext: Option<Seq<char>>,
    rename_pattern: Seq<char>,
    episode: u32,
) -> bool {
    match ext {
        None => *r == Err::<String, RenameError>(RenameError::MissingExtension),
        Some(x) => match format_template(rename_pattern, "ep"@, two_digit_decimal(episode as nat)) {
            None => r matches Err(RenameError::Template(_)),
            Some(stem) => r matches Ok(s) && s@ == stem + seq!['.'] + x,
        },
    }
}

/// The name that episode `episode` of a file with extension `ext` is copied under.
pub fn name_with_extension(ext: Option<&str>, rename_pattern: &str, episode: u32) -> (r: Result<
    String,
    RenameError,
>)
    ensures
        renamed_as(&r, ext.deep_view(), rename_pattern@, episode),
{
    let ext = match ext {
        Some(e) => e,
        None => {
            return Err(RenameError::MissingExtension);
        },
    };
    let ep = two_digit_string(episode);
    let stem = match fill_template(rename_pattern, "ep", ep.as_str()) {
        Ok(s) => s,
        Err(e) => {
            return Err(RenameError::Template(TemplateError::Invalid(e)));
        },
    };
    let ghost stem_text = stem@;
    let mut name = stem;
    name.append(".");
    name.append(ext);
    proof {
        reveal_strlit(".");
    }
    assert(name@ =~= stem_text + seq!['.'] + ext@);
    Ok(name)
}

/// The name that episode `episode` of file `file_name` is copied under: the
/// rename pattern with `{ep}` filled, `.` and the file's extension; for a
/// portable path, the extension that `name_extension` gives of the text
/// after its last `/`.
pub fn renamed_file_name(file_name: &str, rename_pattern: &str, episode: u32) -> (r: Result<
    String,
    RenameError,
>)
    ensures
        exists|ext: Option<Seq<char>>| #[trigger] renamed_as(&r, ext, rename_pattern@, episode),
        portable_path(file_name@) ==> renamed_as(
            &r,
            name_extension(last_part(file_name@)),
            rename_pattern@,
            episode,
        ),
{
    let ext = file_extension(file_name);
    let r = match &ext {
        Some(e) => name_with_extension(Some(e.as_str()), rename_pattern, episode),
        None => name_with_extension(None, rename_pattern, episode),
    };
    assert(renamed_as(&r, ext.deep_view(), rename_pattern@, episode));
    r
}

} // verus!
