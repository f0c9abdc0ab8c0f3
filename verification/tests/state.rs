use rss_autodl::status::{check_status_output, status_from_captures, State, StatusError};

#[test]
fn state_names() {
    assert_eq!(State::from_str("downloading"), Some(State::Downloading));
    assert_eq!(State::from_str("uploading"), Some(State::Uploading));
    assert_eq!(State::from_str("stalledDL"), Some(State::StalledDownloading));
    assert_eq!(State::from_str("stalledUP"), Some(State::StalledUploading));
    assert_eq!(State::from_str("stoppedDL"), Some(State::StoppedDownloading));
    assert_eq!(State::from_str("stoppedUP"), Some(State::StoppedUploading));
    assert_eq!(State::from_str("metaDL"), Some(State::DownloadingMetadata));
    assert_eq!(State::from_str("missingFiles"), Some(State::MissingFiles));
}

#[test]
fn state_unknown_names() {
    assert_eq!(State::from_str(""), None);
    assert_eq!(State::from_str("Downloading"), None);
    assert_eq!(State::from_str("uploading "), None);
    assert_eq!(State::from_str("pausedUP"), None);
}

#[test]
fn state_completion() {
    assert!(State::Uploading.is_complete());
    assert!(State::StalledUploading.is_complete());
    assert!(State::StoppedUploading.is_complete());
    assert!(!State::Downloading.is_complete());
    assert!(!State::StalledDownloading.is_complete());
    assert!(!State::MissingFiles.is_complete());
}

#[test]
fn status_listing_is_read() {
    let output = "[*] Show - 05 [1080p].mkv\n    Hash: abc\n    State: stalledUP  \n    Progress: 100%\n    Save path: /data/downloads \n";
    let (state, path, name) = check_status_output(output).unwrap();
    assert_eq!(state, State::StalledUploading);
    assert_eq!(path, "/data/downloads");
    assert_eq!(name, "Show - 05 [1080p].mkv");
}

#[test]
fn status_listing_without_entry() {
    assert_eq!(check_status_output("nothing here"), Err(StatusError::NoMatch));
}

#[test]
fn status_listing_with_unknown_state() {
    let output = "[*] a.mkv\nState: sleeping\nSave path: /x\n";
    assert_eq!(check_status_output(output), Err(StatusError::InvalidState));
}

#[test]
fn status_groups_checked_in_order() {
    let caps = Some(vec![Some("all".to_string()), None, None, None]);
    assert_eq!(status_from_captures(&caps), Err(StatusError::MissingFilename));
    let caps = Some(vec![Some("all".to_string()), Some("n".to_string()), None, None]);
    assert_eq!(status_from_captures(&caps), Err(StatusError::MissingState));
    let caps = Some(vec![Some("all".to_string()), Some("n".to_string()), Some("uploading".to_string())]);
    assert_eq!(status_from_captures(&caps), Err(StatusError::MissingPath));
    let caps = Some(vec![
        Some("all".to_string()),
        Some(" n ".to_string()),
        Some("\tuploading ".to_string()),
        Some(" /p".to_string()),
    ]);
    assert_eq!(
        status_from_captures(&caps),
        Ok((State::Uploading, "/p".to_string(), "n".to_string()))
    );
    assert_eq!(status_from_captures(&None), Err(StatusError::NoMatch));
}

#[test]
fn status_error_messages() {
    assert_eq!(StatusError::NoMatch.message(), "Error extracting state from output");
    assert_eq!(StatusError::MissingFilename.message(), "Missing filename");
    assert_eq!(StatusError::InvalidState.message(), "Invalid state");
}
