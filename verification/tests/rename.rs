use rss_autodl::rename::{name_with_extension, renamed_file_name, RenameError};
use rss_autodl::template::TemplateError;

#[test]
fn episode_is_padded_to_two_digits() {
    assert_eq!(renamed_file_name("[G] Show - 05.mkv", "Show S01E{ep}", 5).unwrap(), "Show S01E05.mkv");
    assert_eq!(renamed_file_name("a.b.mp4", "E{ep}", 123).unwrap(), "E123.mp4");
    assert_eq!(renamed_file_name("x.mkv", "E{ep}", 0).unwrap(), "E00.mkv");
}

#[test]
fn file_without_extension_is_refused() {
    assert_eq!(renamed_file_name("noext", "E{ep}", 1), Err(RenameError::MissingExtension));
    assert_eq!(renamed_file_name(".hidden", "E{ep}", 1), Err(RenameError::MissingExtension));
}

#[test]
fn bad_rename_pattern_is_refused() {
    assert!(matches!(
        renamed_file_name("x.mkv", "E{episode}", 1),
        Err(RenameError::Template(TemplateError::Invalid(strfmt::FmtError::KeyError(_))))
    ));
}

#[test]
fn rename_error_messages() {
    assert_eq!(RenameError::FileMissing.message(), Some("Rename error: File does not exist"));
    assert_eq!(RenameError::MissingExtension.message(), Some("Rename error: Missing file extension"));
}

#[test]
fn name_from_a_given_extension() {
    assert_eq!(name_with_extension(Some("srt"), "Show {ep}", 7).unwrap(), "Show 07.srt");
    assert_eq!(name_with_extension(Some(""), "E{ep}", 10).unwrap(), "E10.");
    assert_eq!(name_with_extension(None, "E{ep}", 1), Err(RenameError::MissingExtension));
}

#[test]
fn extension_of_unusual_names() {
    assert_eq!(renamed_file_name("a.", "E{ep}", 1).unwrap(), "E01.");
    assert_eq!(renamed_file_name("..a", "E{ep}", 1).unwrap(), "E01.a");
    assert_eq!(renamed_file_name("dir/b.mp4", "E{ep}", 1).unwrap(), "E01.mp4");
}

#[test]
fn extension_is_taken_from_the_last_part() {
    assert_eq!(renamed_file_name("/dl/show.v2/ep.mkv", "E{ep}", 3).unwrap(), "E03.mkv");
    assert_eq!(renamed_file_name("dl.d/noext", "E{ep}", 3), Err(RenameError::MissingExtension));
}
