use matrix_frontend::attachments::{
    attachment_from_gif, badge_color, cut_four, file_badge, file_badge_checked, file_extension,
    from_file_metadata, from_klipy_file, into_file_metadata, is_image, pasted_file_name,
    remove_attachment, AttachmentSource, FileMetadata,
};

#[test]
fn gifs_get_a_media_type() {
    let a = attachment_from_gif("id1".to_string(), "https://x/y.webp".to_string(), "y".to_string(), 10);
    assert_eq!(a.mime_type, "image/webp");
    assert_eq!(a.preview_url.as_deref(), Some("https://x/y.webp"));
    let a = from_klipy_file("https://x/y.gif".to_string(), "y".to_string(), 10);
    assert_eq!(a.mime_type, "image/gif");
    assert_eq!(a.id.len(), 36);
    assert!(is_image(&a));
    let a = attachment_from_gif("i".to_string(), "https://x/y.mp4".to_string(), "y".to_string(), 1);
    assert_eq!(a.mime_type, "application/octet-stream");
    assert!(!is_image(&a));
    let m = into_file_metadata(a);
    assert_eq!(m.file_name, "y");
    assert!(matches!(m.source, AttachmentSource::Url(ref u) if u == "https://x/y.mp4"));
}

#[test]
fn picked_files_are_previewed() {
    let m = FileMetadata {
        source: AttachmentSource::LocalFile("/tmp/a.png".to_string()),
        file_name: "a.png".to_string(),
        mime_type: "image/png".to_string(),
        size: 5,
    };
    let a = from_file_metadata(m, "id".to_string(), "asset://a.png".to_string());
    assert_eq!(a.preview_url.as_deref(), Some("asset://a.png"));
    let m = FileMetadata {
        source: AttachmentSource::Url("https://u".to_string()),
        file_name: "u".to_string(),
        mime_type: "text/plain".to_string(),
        size: 5,
    };
    let a = from_file_metadata(m, "id2".to_string(), String::new());
    assert_eq!(a.preview_url.as_deref(), Some("https://u"));
    let mut list = vec![a];
    remove_attachment(&mut list, &"nope".to_string());
    assert_eq!(list.len(), 1);
    remove_attachment(&mut list, &"id2".to_string());
    assert!(list.is_empty());
}

#[test]
fn badges() {
    assert_eq!(file_extension("report.final.pdf").as_deref(), Some("pdf"));
    assert_eq!(file_extension("README"), None);
    assert_eq!(file_badge("report.pdf"), "PDF");
    assert_eq!(file_badge("README"), "FILE");
    assert_eq!(file_badge("archive.tar.gz"), "GZ");
    assert_eq!(file_badge("page.html"), "HTML");
    assert_eq!(file_badge("movie.mpeg4"), "MPEG");
    assert_eq!(file_badge_checked("x.aéé"), None);
    assert_eq!(file_badge("x.ééé"), "ÉÉ");
    assert_eq!(cut_four("ab"), Some("ab".to_string()));
    assert_eq!(cut_four("aé"), Some("aé".to_string()));
    assert_eq!(cut_four("abcdef"), Some("abcd".to_string()));
    assert_eq!(badge_color("PDF"), "#ED4245");
    assert_eq!(badge_color("GZ"), "#FEE75C");
    assert_eq!(badge_color("RS"), "#5865F2");
    assert_eq!(badge_color("EXE"), "#4E5058");
}

#[test]
fn pasted_names() {
    assert_eq!(pasted_file_name("image/png"), "file.png");
    assert_eq!(pasted_file_name("image/svg+xml"), "file.svg+xml");
    assert_eq!(pasted_file_name("weird"), "file.png");
    assert_eq!(pasted_file_name("a/b/c"), "file.b");
}
