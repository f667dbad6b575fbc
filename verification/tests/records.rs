//! File classification, organization labels, content update statements,
//! and template guards.

use contentflow::{
    build_content_update, check_template_deletable, check_template_updatable, extension_of,
    folder_label, format_from_filename, is_video_extension, quality_tags_for_height,
    UpdateContentRequest,
};

#[test]
fn extension_extraction_follows_path_rules() {
    assert_eq!(extension_of("/videos/clip.MP4").as_deref(), Some("mp4"));
    assert_eq!(extension_of("clip.tar.gz").as_deref(), Some("gz"));
    assert_eq!(extension_of("/videos/clip").is_some(), false);
    // a hidden file's leading dot is not an extension marker
    assert_eq!(extension_of("/home/.bashrc").is_some(), false);
    // a dot in a directory name does not give the file an extension
    assert_eq!(extension_of("/archive.d/readme").is_some(), false);
    assert_eq!(extension_of("trailing.").as_deref(), Some(""));
}

#[test]
fn video_extensions_accepted() {
    for ext in ["mp4", "mov", "avi", "mkv", "webm", "flv", "wmv"] {
        assert!(is_video_extension(ext), "{} should be accepted", ext);
    }
    assert!(!is_video_extension("txt"));
    assert!(!is_video_extension("mpeg"));
}

#[test]
fn quality_tags_by_resolution() {
    let tags = quality_tags_for_height(2160);
    assert_eq!(tags, vec!["4K".to_string(), "UHD".to_string()]);
    let tags = quality_tags_for_height(1080);
    assert_eq!(tags, vec!["FullHD".to_string(), "1080p".to_string()]);
    let tags = quality_tags_for_height(720);
    assert_eq!(tags, vec!["HD".to_string(), "720p".to_string()]);
    let tags = quality_tags_for_height(480);
    assert_eq!(tags, vec!["SD".to_string()]);
}

#[test]
fn format_taken_from_filename_tail() {
    assert_eq!(format_from_filename("clip.MOV"), "mov");
    assert_eq!(format_from_filename("archive.tar.GZ"), "gz");
    assert_eq!(format_from_filename("noextension"), "noextension");
    assert_eq!(format_from_filename("trailing."), "");
}

#[test]
fn folder_label_combines_format_and_date() {
    assert_eq!(folder_label("mp4", "2024/05"), "MP4/2024/05");
    assert_eq!(folder_label("mov", "Unsorted"), "MOV/Unsorted");
}

#[test]
fn content_update_builds_statement_in_field_order() {
    let (query, binds) = build_content_update(UpdateContentRequest {
        title: Some("T".to_string()),
        content_data: Some("D".to_string()),
        status: Some("S".to_string()),
    })
    .unwrap();
    assert_eq!(
        query,
        "UPDATE GeneratedContent SET title = ?, content_data = ?, status = ? WHERE content_id = ?"
    );
    assert_eq!(binds, vec!["T".to_string(), "D".to_string(), "S".to_string()]);

    let (query, binds) = build_content_update(UpdateContentRequest {
        title: None,
        content_data: None,
        status: Some("Ready".to_string()),
    })
    .unwrap();
    assert_eq!(
        query,
        "UPDATE GeneratedContent SET status = ? WHERE content_id = ?"
    );
    assert_eq!(binds, vec!["Ready".to_string()]);

    let (query, binds) = build_content_update(UpdateContentRequest {
        title: Some("T".to_string()),
        content_data: None,
        status: Some("S".to_string()),
    })
    .unwrap();
    assert_eq!(
        query,
        "UPDATE GeneratedContent SET title = ?, status = ? WHERE content_id = ?"
    );
    assert_eq!(binds, vec!["T".to_string(), "S".to_string()]);
}

#[test]
fn content_update_with_no_fields_is_rejected() {
    let err = build_content_update(UpdateContentRequest {
        title: None,
        content_data: None,
        status: None,
    })
    .unwrap_err();
    assert_eq!(err, "No fields to update");
}

#[test]
fn template_guards_protect_defaults_and_used_templates() {
    assert!(check_template_updatable(false).is_ok());
    assert_eq!(
        check_template_updatable(true).unwrap_err(),
        "Cannot modify default templates"
    );
    assert!(check_template_deletable(false, 0).is_ok());
    assert_eq!(
        check_template_deletable(true, 0).unwrap_err(),
        "Cannot delete default templates"
    );
    assert!(check_template_deletable(false, 3).is_err());
}
