use chat_system::media::{check_size, choose_mime, mime_from_extension, MediaConfig, MediaType};

fn config() -> MediaConfig {
    MediaConfig::with_temp_dir(std::path::PathBuf::from("/tmp/chat-system-media"))
}

#[test]
fn test_media_type_from_extension() {
    assert_eq!(MediaType::from_extension("jpg"), MediaType::Image);
    assert_eq!(MediaType::from_extension("PNG"), MediaType::Image);
    assert_eq!(MediaType::from_extension("mp3"), MediaType::Audio);
    assert_eq!(MediaType::from_extension("mp4"), MediaType::Video);
    assert_eq!(MediaType::from_extension("pdf"), MediaType::Document);
    assert_eq!(MediaType::from_extension("xyz"), MediaType::Unknown);
}

#[test]
fn test_media_type_from_mime() {
    assert_eq!(MediaType::from_mime("image/jpeg"), MediaType::Image);
    assert_eq!(MediaType::from_mime("audio/mpeg"), MediaType::Audio);
    assert_eq!(MediaType::from_mime("video/mp4"), MediaType::Video);
    assert_eq!(MediaType::from_mime("application/pdf"), MediaType::Document);
    assert_eq!(MediaType::from_mime("application/octet-stream"), MediaType::Unknown);
}

#[test]
fn test_media_config_defaults() {
    let config = config();
    assert_eq!(config.image_max_bytes, 10 * 1024 * 1024);
    assert_eq!(config.audio_max_bytes, 25 * 1024 * 1024);
    assert_eq!(config.video_max_bytes, 50 * 1024 * 1024);
    assert_eq!(config.max_image_dimension, 2048);
    assert!(!config.auto_transcribe);
    assert_eq!(config.whisper_model, "base");
}

#[test]
fn detector_error_falls_back_to_extension() {
    // A detector that answers with an error message instead of a MIME type
    // falls back to the extension.
    let reported = "cannot open `/tmp/nonexistent.jpg' (No such file or directory)";
    assert_eq!(choose_mime(Some(reported), "jpg"), "image/jpeg");
    assert_eq!(choose_mime(None, "jpg"), "image/jpeg");
}

#[test]
fn detector_report_is_trimmed_and_used_when_valid() {
    assert_eq!(choose_mime(Some("  image/png\n"), "txt"), "image/png");
    assert_eq!(choose_mime(Some("a/b/c"), "png"), "image/png");
    assert_eq!(choose_mime(Some("nomime"), "zip"), "application/octet-stream");
}

#[test]
fn mime_from_extension_table() {
    assert_eq!(mime_from_extension("JPEG"), "image/jpeg");
    assert_eq!(mime_from_extension("wav"), "audio/wav");
    assert_eq!(mime_from_extension("webm"), "video/webm");
    assert_eq!(mime_from_extension("pdf"), "application/pdf");
    assert_eq!(mime_from_extension(""), "application/octet-stream");
}

#[test]
fn size_limits_by_media_type() {
    let c = config();
    assert!(check_size(10 * 1024 * 1024, "png", &c).is_ok());
    assert_eq!(
        check_size(10 * 1024 * 1024 + 1, "png", &c).unwrap_err(),
        "File size (10485761 bytes) exceeds limit (10485760 bytes) for Image"
    );
    assert!(check_size(30 * 1024 * 1024, "mov", &c).is_ok());
    assert_eq!(
        check_size(60 * 1024 * 1024, "bin", &c).unwrap_err(),
        "File size (62914560 bytes) exceeds limit (52428800 bytes) for Unknown"
    );
    assert!(check_size(26 * 1024 * 1024, "ogg", &c).is_err());
}
