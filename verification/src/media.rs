//! Media pipeline decisions for image, audio, and video attachments:
//! - media type detection from file extensions and MIME types
//! - size limit enforcement
//! - MIME type selection from a detector's report, with an extension
//!   fallback
use vstd::prelude::*;
use crate::number::{decimal, u64_to_string};
use crate::text::{
    all_ascii, ascii_lowered, chars_of, ends_with, lowercase, starts_with, starts_with_str, str_eq,
    to_lowercase, trim, trim_range,
};
use std::path::PathBuf;

verus! {

#[verifier::external_type_specification]
#[verifier::external_body]
pub struct ExPathBuf(PathBuf);

/// `PathBuf::clone`: a copy of the same path.
pub assume_specification[ <PathBuf as Clone>::clone ](p: &PathBuf) -> (r: PathBuf)
    ensures
        r == *p,
;

/// Supported media types.
#[derive(Debug, Clone, Copy, PartialEq, Eq, Structural)]
pub enum MediaType {
    Image,
    Audio,
    Video,
    Document,
    Unknown,
}

/// The media type of a (lowercased) file extension.
pub open spec fn media_type_of_extension(ext: Seq<char>) -> MediaType {
    if ext == "jpg"@ || ext == "jpeg"@ || ext == "png"@ || ext == "gif"@ || ext == "webp"@ || ext
        == "bmp"@ || ext == "svg"@ || ext == "tiff"@ || ext == "ico"@ {
        MediaType::Image
    } else if ext == "mp3"@ || ext == "wav"@ || ext == "ogg"@ || ext == "flac"@ || ext == "m4a"@
        || ext == "aac"@ || ext == "wma"@ || ext == "opus"@ {
        MediaType::Audio
    } else if ext == "mp4"@ || ext == "webm"@ || ext == "avi"@ || ext == "mov"@ || ext == "mkv"@
        || ext == "flv"@ || ext == "wmv"@ {
        MediaType::Video
    } else if ext == "pdf"@ || ext == "doc"@ || ext == "docx"@ || ext == "txt"@ || ext == "rtf"@
        || ext == "odt"@ {
        MediaType::Document
    } else {
        MediaType::Unknown
    }
}

/// The media type of a MIME type string.
pub open spec fn media_type_of_mime(mime: Seq<char>) -> MediaType {
    if starts_with(mime, "image/"@) {
        MediaType::Image
    } else if starts_with(mime, "audio/"@) {
        MediaType::Audio
    } else if starts_with(mime, "video/"@) {
        MediaType::Video
    } else if starts_with(mime, "application/pdf"@) || starts_with(mime, "application/msword"@)
        || starts_with(mime, "text/"@) {
        MediaType::Document
    } else {
        MediaType::Unknown
    }
}

/// The variant name of a media type (its `Debug` text).
pub open spec fn media_type_name(t: MediaType) -> Seq<char> {
    match t {
        MediaType::Image => "Image"@,
        MediaType::Audio => "Audio"@,
        MediaType::Video => "Video"@,
        MediaType::Document => "Document"@,
        MediaType::Unknown => "Unknown"@,
    }
}

impl MediaType {
    /// Detect media type from file extension (case-insensitive).
    pub fn from_extension(ext: &str) -> (t: MediaType)
        ensures
            t == media_type_of_extension(lowercase(ext@)),
            all_ascii(ext@) ==> lowercase(ext@) == ascii_lowered(ext@),
    {
        let lower = to_lowercase(ext);
        let l = lower.as_str();
        if str_eq(l, "jpg") || str_eq(l, "jpeg") || str_eq(l, "png") || str_eq(l, "gif") || str_eq(
            l,
            "webp",
        ) || str_eq(l, "bmp") || str_eq(l, "svg") || str_eq(l, "tiff") || str_eq(l, "ico") {
            MediaType::Image
        } else if str_eq(l, "mp3") || str_eq(l, "wav") || str_eq(l, "ogg") || str_eq(l, "flac")
            || str_eq(l, "m4a") || str_eq(l, "aac") || str_eq(l, "wma") || str_eq(l, "opus") {
            MediaType::Audio
        } else if str_eq(l, "mp4") || str_eq(l, "webm") || str_eq(l, "avi") || str_eq(l, "mov")
            || str_eq(l, "mkv") || str_eq(l, "flv") || str_eq(l, "wmv") {
            MediaType::Video
        } else if str_eq(l, "pdf") || str_eq(l, "doc") || str_eq(l, "docx") || str_eq(l, "txt")
            || str_eq(l, "rtf") || str_eq(l, "odt") {
            MediaType::Document
        } else {
            MediaType::Unknown
        }
    }

    /// Detect media type from MIME type string.
    pub fn from_mime(mime: &str) -> (t: MediaType)
        ensures
            t == media_type_of_mime(mime@),
    {
        if starts_with_str(mime, "image/") {
            MediaType::Image
        } else if starts_with_str(mime, "audio/") {
            MediaType::Audio
        } else if starts_with_str(mime, "video/") {
            MediaType::Video
        } else if starts_with_str(mime, "application/pdf") || starts_with_str(
            mime,
            "application/msword",
        ) || starts_with_str(mime, "text/") {
            MediaType::Document
        } else {
            MediaType::Unknown
        }
    }

    /// The variant name (what `{:?}` prints).
    pub fn name(&self) -> (s: &'static str)
        ensures
            s@ == media_type_name(*self),
    {
        match self {
            MediaType::Image => "Image",
            MediaType::Audio => "Audio",
            MediaType::Video => "Video",
            MediaType::Document => "Document",
            MediaType::Unknown => "Unknown",
        }
    }
}

/// Media pipeline configuration.
#[derive(Debug, Clone)]
pub struct MediaConfig {
    /// Maximum file size in bytes for image uploads (default: 10 MB).
    pub image_max_bytes: usize,
    /// Maximum file size in bytes for audio uploads (default: 25 MB).
    pub audio_max_bytes: usize,
    /// Maximum file size in bytes for video uploads (default: 50 MB).
    pub video_max_bytes: usize,
    /// Maximum image dimension (width or height) for resizing.
    pub max_image_dimension: u32,
    /// Whether to auto-transcribe audio attachments.
    pub auto_transcribe: bool,
    /// Whisper model size for transcription ("tiny", "base", "small", "medium", "large").
    pub whisper_model: String,
    /// Temporary directory for processed media.
    pub temp_dir: PathBuf,
}

/// The default image size cap, 10 MiB.
pub fn default_image_max() -> (n: usize)
    ensures
        n == 10 * 1024 * 1024,
{
    10 * 1024 * 1024
}

/// The default audio size cap, 25 MiB.
pub fn default_audio_max() -> (n: usize)
    ensures
        n == 25 * 1024 * 1024,
{
    25 * 1024 * 1024
}

/// The default video size cap, 50 MiB.
pub fn default_video_max() -> (n: usize)
    ensures
        n == 50 * 1024 * 1024,
{
    50 * 1024 * 1024
}

/// The default largest image side.
pub fn default_max_dimension() -> (n: u32)
    ensures
        n == 2048,
{
    2048
}

/// The default whisper model.
pub fn default_whisper_model() -> (s: String)
    ensures
        s@ == "base"@,
{
    "base".to_owned()
}

impl MediaConfig {
    /// The default configuration, processing into `temp_dir`.
    pub fn with_temp_dir(temp_dir: PathBuf) -> (c: MediaConfig)
        ensures
            c.image_max_bytes == 10 * 1024 * 1024,
            c.audio_max_bytes == 25 * 1024 * 1024,
            c.video_max_bytes == 50 * 1024 * 1024,
            c.max_image_dimension == 2048,
            !c.auto_transcribe,
            c.whisper_model@ == "base"@,
            c.temp_dir == temp_dir,
    {
        MediaConfig {
            image_max_bytes: default_image_max(),
            audio_max_bytes: default_audio_max(),
            video_max_bytes: default_video_max(),
            max_image_dimension: default_max_dimension(),
            auto_transcribe: false,
            whisper_model: default_whisper_model(),
            temp_dir,
        }
    }
}

/// Result of processing a media file.
#[derive(Debug, Clone)]
pub struct ProcessedMedia {
    /// Original file path.
    pub original_path: PathBuf,
    /// Processed file path (may be same as original if no processing needed).
    pub processed_path: PathBuf,
    /// Detected media type.
    pub media_type: MediaType,
    /// File size in bytes after processing.
    pub size_bytes: u64,
    /// Optional transcription text (for audio/video).
    pub transcription: Option<String>,
    /// Optional description (for images via vision model).
    pub description: Option<String>,
    /// MIME type.
    pub mime_type: String,
}

/// The size cap for a media type; documents and unknown files get the
/// largest (the video cap).
pub open spec fn size_cap(t: MediaType, image_max: usize, audio_max: usize, video_max: usize) -> usize {
    match t {
        MediaType::Image => image_max,
        MediaType::Audio => audio_max,
        MediaType::Video => video_max,
        _ => video_max,
    }
}

/// The message for a file over its cap.
pub open spec fn size_error(size: nat, cap: nat, t: MediaType) -> Seq<char> {
    "File size ("@ + decimal(size) + " bytes) exceeds limit ("@ + decimal(cap)
        + " bytes) for "@ + media_type_name(t)
}

/// Check a file of `size` bytes with extension `ext` against the limits:
/// `Err` with a message when it is over the cap for its media type.
pub fn check_size(size: u64, ext: &str, config: &MediaConfig) -> (r: Result<(), String>)
    ensures
        ({
            let t = media_type_of_extension(lowercase(ext@));
            let cap = size_cap(
                t,
                config.image_max_bytes,
                config.audio_max_bytes,
                config.video_max_bytes,
            );
            match r {
                Ok(()) => size <= cap,
                Err(m) => size > cap && m@ == size_error(size as nat, cap as nat, t),
            }
        }),
{
    let t = MediaType::from_extension(ext);
    let cap = match t {
        MediaType::Image => config.image_max_bytes,
        MediaType::Audio => config.audio_max_bytes,
        MediaType::Video => config.video_max_bytes,
        _ => config.video_max_bytes,
    };
    if size > cap as u64 {
        let mut m = "File size (".to_owned();
        m.append(u64_to_string(size).as_str());
        m.append(" bytes) exceeds limit (");
        m.append(u64_to_string(cap as u64).as_str());
        m.append(" bytes) for ");
        m.append(t.name());
        Err(m)
    } else {
        Ok(())
    }
}

/// The number of occurrences of `ch` in `s`.
pub open spec fn count_char(s: Seq<char>, ch: char) -> nat
    decreases s.len(),
{
    if s.len() == 0 {
        0
    } else {
        count_char(s.drop_last(), ch) + if s.last() == ch {
            1nat
        } else {
            0nat
        }
    }
}

/// A MIME type as the detector should report it: one token, no spaces,
/// exactly one slash.
pub open spec fn is_mime_token(s: Seq<char>) -> bool {
    !s.contains(' ') && count_char(s, '/') == 1
}

/// The MIME type guessed from a (lowercased) file extension.
pub open spec fn mime_of_extension(ext: Seq<char>) -> Seq<char> {
    if ext == "jpg"@ || ext == "jpeg"@ {
        "image/jpeg"@
    } else if ext == "png"@ {
        "image/png"@
    } else if ext == "gif"@ {
        "image/gif"@
    } else if ext == "webp"@ {
        "image/webp"@
    } else if ext == "mp3"@ {
        "audio/mpeg"@
    } else if ext == "wav"@ {
        "audio/wav"@
    } else if ext == "ogg"@ {
        "audio/ogg"@
    } else if ext == "mp4"@ {
        "video/mp4"@
    } else if ext == "webm"@ {
        "video/webm"@
    } else if ext == "pdf"@ {
        "application/pdf"@
    } else {
        "application/octet-stream"@
    }
}

/// The name of the format an extension stands for, as MIME types write it:
/// `jpeg` for `jpg` and `mpeg` for `mp3`, else the extension itself.
pub open spec fn format_name(ext: Seq<char>) -> Seq<char> {
    if ext == "jpg"@ {
        "jpeg"@
    } else if ext == "mp3"@ {
        "mpeg"@
    } else {
        ext
    }
}

/// `jpg` in `lemma_mime_names_the_format`.
#[verifier::rlimit(80)]
proof fn lemma_mime_jpg(ext: Seq<char>)
    requires
        ext == "jpg"@,
    ensures
        (mime_of_extension(ext) != "application/octet-stream"@ ==> {
            &&& ends_with(mime_of_extension(ext), "/"@ + format_name(ext))
            &&& media_type_of_mime(mime_of_extension(ext)) == media_type_of_extension(ext)
            &&& media_type_of_extension(ext) != MediaType::Unknown
        }),
{
    reveal_strlit("/");
    reveal_strlit("aac");
    reveal_strlit("application/msword");
    reveal_strlit("application/octet-stream");
    reveal_strlit("application/pdf");
    reveal_strlit("audio/");
    reveal_strlit("avi");
    reveal_strlit("bmp");
    reveal_strlit("doc");
    reveal_strlit("docx");
    reveal_strlit("flac");
    reveal_strlit("flv");
    reveal_strlit("gif");
    reveal_strlit("ico");
    reveal_strlit("image/");
    reveal_strlit("image/jpeg");
    reveal_strlit("jpeg");
    reveal_strlit("jpg");
    reveal_strlit("m4a");
    reveal_strlit("mkv");
    reveal_strlit("mov");
    reveal_strlit("mp3");
    reveal_strlit("mp4");
    reveal_strlit("odt");
    reveal_strlit("ogg");
    reveal_strlit("opus");
    reveal_strlit("pdf");
    reveal_strlit("png");
    reveal_strlit("rtf");
    reveal_strlit("svg");
    reveal_strlit("text/");
    reveal_strlit("tiff");
    reveal_strlit("txt");
    reveal_strlit("video/");
    reveal_strlit("wav");
    reveal_strlit("webm");
    reveal_strlit("webp");
    reveal_strlit("wma");
    reveal_strlit("wmv");
    assert(ext.len() != "jpeg"@.len());
    assert(ext[0] != "png"@[0]);
    assert(ext[0] != "gif"@[0]);
    assert(ext.len() != "webp"@.len());
    assert(ext[0] != "bmp"@[0]);
    assert(ext[0] != "svg"@[0]);
    assert(ext.len() != "tiff"@.len());
    assert(ext[0] != "ico"@[0]);
    assert(ext[0] != "mp3"@[0]);
    assert(ext[0] != "wav"@[0]);
    assert(ext[0] != "ogg"@[0]);
    assert(ext.len() != "flac"@.len());
    assert(ext[0] != "m4a"@[0]);
    assert(ext[0] != "aac"@[0]);
    assert(ext[0] != "wma"@[0]);
    assert(ext.len() != "opus"@.len());
    assert(ext[0] != "mp4"@[0]);
    assert(ext.len() != "webm"@.len());
    assert(ext[0] != "avi"@[0]);
    assert(ext[0] != "mov"@[0]);
    assert(ext[0] != "mkv"@[0]);
    assert(ext[0] != "flv"@[0]);
    assert(ext[0] != "wmv"@[0]);
    assert(ext[0] != "pdf"@[0]);
    assert(ext[0] != "doc"@[0]);
    assert(ext.len() != "docx"@.len());
    assert(ext[0] != "txt"@[0]);
    assert(ext[0] != "rtf"@[0]);
    assert(ext[0] != "odt"@[0]);
    assert(ext[0] != "mp3"@[0]);
    let m = mime_of_extension(ext);
    assert(m =~= "image/jpeg"@);
    assert(format_name(ext) =~= "jpeg"@);
    assert(m.subrange(m.len() - 5, m.len() as int) =~= "/"@ + format_name(ext));
    assert(m.subrange(0, 6) =~= "image/"@);
}

/// `jpeg` in `lemma_mime_names_the_format`.
#[verifier::rlimit(80)]
proof fn lemma_mime_jpeg(ext: Seq<char>)
    requires
        ext == "jpeg"@,
    ensures
        (mime_of_extension(ext) != "application/octet-stream"@ ==> {
            &&& ends_with(mime_of_extension(ext), "/"@ + format_name(ext))
            &&& media_type_of_mime(mime_of_extension(ext)) == media_type_of_extension(ext)
            &&& media_type_of_extension(ext) != MediaType::Unknown
        }),
{
    reveal_strlit("/");
    reveal_strlit("aac");
    reveal_strlit("application/msword");
    reveal_strlit("application/octet-stream");
    reveal_strlit("application/pdf");
    reveal_strlit("audio/");
    reveal_strlit("avi");
    reveal_strlit("bmp");
    reveal_strlit("doc");
    reveal_strlit("docx");
    reveal_strlit("flac");
    reveal_strlit("flv");
    reveal_strlit("gif");
    reveal_strlit("ico");
    reveal_strlit("image/");
    reveal_strlit("image/jpeg");
    reveal_strlit("jpeg");
    reveal_strlit("jpg");
    reveal_strlit("m4a");
    reveal_strlit("mkv");
    reveal_strlit("mov");
    reveal_strlit("mp3");
    reveal_strlit("mp4");
    reveal_strlit("odt");
    reveal_strlit("ogg");
    reveal_strlit("opus");
    reveal_strlit("pdf");
    reveal_strlit("png");
    reveal_strlit("rtf");
    reveal_strlit("svg");
    reveal_strlit("text/");
    reveal_strlit("tiff");
    reveal_strlit("txt");
    reveal_strlit("video/");
    reveal_strlit("wav");
    reveal_strlit("webm");
    reveal_strlit("webp");
    reveal_strlit("wma");
    reveal_strlit("wmv");
    assert(ext.len() != "jpg"@.len());
    assert(ext.len() != "png"@.len());
    assert(ext.len() != "gif"@.len());
    assert(ext[0] != "webp"@[0]);
    assert(ext.len() != "bmp"@.len());
    assert(ext.len() != "svg"@.len());
    assert(ext[0] != "tiff"@[0]);
    assert(ext.len() != "ico"@.len());
    assert(ext.len() != "mp3"@.len());
    assert(ext.len() != "wav"@.len());
    assert(ext.len() != "ogg"@.len());
    assert(ext[0] != "flac"@[0]);
    assert(ext.len() != "m4a"@.len());
    assert(ext.len() != "aac"@.len());
    assert(ext.len() != "wma"@.len());
    assert(ext[0] != "opus"@[0]);
    assert(ext.len() != "mp4"@.len());
    assert(ext[0] != "webm"@[0]);
    assert(ext.len() != "avi"@.len());
    assert(ext.len() != "mov"@.len());
    assert(ext.len() != "mkv"@.len());
    assert(ext.len() != "flv"@.len());
    assert(ext.len() != "wmv"@.len());
    assert(ext.len() != "pdf"@.len());
    assert(ext.len() != "doc"@.len());
    assert(ext[0] != "docx"@[0]);
    assert(ext.len() != "txt"@.len());
    assert(ext.len() != "rtf"@.len());
    assert(ext.len() != "odt"@.len());
    assert(ext.len() != "mp3"@.len());
    assert(ext.len() != "jpg"@.len());
    let m = mime_of_extension(ext);
    assert(m =~= "image/jpeg"@);
    assert(format_name(ext) =~= "jpeg"@);
    assert(m.subrange(m.len() - 5, m.len() as int) =~= "/"@ + format_name(ext));
    assert(m.subrange(0, 6) =~= "image/"@);
}

/// `png` in `lemma_mime_names_the_format`.
#[verifier::rlimit(80)]
proof fn lemma_mime_png(ext: Seq<char>)
    requires
        ext == "png"@,
    ensures
        (mime_of_extension(ext) != "application/octet-stream"@ ==> {
            &&& ends_with(mime_of_extension(ext), "/"@ + format_name(ext))
            &&& media_type_of_mime(mime_of_extension(ext)) == media_type_of_extension(ext)
            &&& media_type_of_extension(ext) != MediaType::Unknown
        }),
{
    reveal_strlit("/");
    reveal_strlit("aac");
    reveal_strlit("application/msword");
    reveal_strlit("application/octet-stream");
    reveal_strlit("application/pdf");
    reveal_strlit("audio/");
    reveal_strlit("avi");
    reveal_strlit("bmp");
    reveal_strlit("doc");
    reveal_strlit("docx");
    reveal_strlit("flac");
    reveal_strlit("flv");
    reveal_strlit("gif");
    reveal_strlit("ico");
    reveal_strlit("image/");
    reveal_strlit("image/png");
    reveal_strlit("jpeg");
    reveal_strlit("jpg");
    reveal_strlit("m4a");
    reveal_strlit("mkv");
    reveal_strlit("mov");
    reveal_strlit("mp3");
    reveal_strlit("mp4");
    reveal_strlit("odt");
    reveal_strlit("ogg");
    reveal_strlit("opus");
    reveal_strlit("pdf");
    reveal_strlit("png");
    reveal_strlit("rtf");
    reveal_strlit("svg");
    reveal_strlit("text/");
    reveal_strlit("tiff");
    reveal_strlit("txt");
    reveal_strlit("video/");
    reveal_strlit("wav");
    reveal_strlit("webm");
    reveal_strlit("webp");
    reveal_strlit("wma");
    reveal_strlit("wmv");
    assert(ext[0] != "jpg"@[0]);
    assert(ext.len() != "jpeg"@.len());
    assert(ext[0] != "gif"@[0]);
    assert(ext.len() != "webp"@.len());
    assert(ext[0] != "bmp"@[0]);
    assert(ext[0] != "svg"@[0]);
    assert(ext.len() != "tiff"@.len());
    assert(ext[0] != "ico"@[0]);
    assert(ext[0] != "mp3"@[0]);
    assert(ext[0] != "wav"@[0]);
    assert(ext[0] != "ogg"@[0]);
    assert(ext.len() != "flac"@.len());
    assert(ext[0] != "m4a"@[0]);
    assert(ext[0] != "aac"@[0]);
    assert(ext[0] != "wma"@[0]);
    assert(ext.len() != "opus"@.len());
    assert(ext[0] != "mp4"@[0]);
    assert(ext.len() != "webm"@.len());
    assert(ext[0] != "avi"@[0]);
    assert(ext[0] != "mov"@[0]);
    assert(ext[0] != "mkv"@[0]);
    assert(ext[0] != "flv"@[0]);
    assert(ext[0] != "wmv"@[0]);
    assert(ext[1] != "pdf"@[1]);
    assert(ext[0] != "doc"@[0]);
    assert(ext.len() != "docx"@.len());
    assert(ext[0] != "txt"@[0]);
    assert(ext[0] != "rtf"@[0]);
    assert(ext[0] != "odt"@[0]);
    assert(ext[0] != "mp3"@[0]);
    assert(ext[0] != "jpg"@[0]);
    let m = mime_of_extension(ext);
    assert(m =~= "image/png"@);
    assert(format_name(ext) =~= "png"@);
    assert(m.subrange(m.len() - 4, m.len() as int) =~= "/"@ + format_name(ext));
    assert(m.subrange(0, 6) =~= "image/"@);
}

/// `gif` in `lemma_mime_names_the_format`.
#[verifier::rlimit(80)]
proof fn lemma_mime_gif(ext: Seq<char>)
    requires
        ext == "gif"@,
    ensures
        (mime_of_extension(ext) != "application/octet-stream"@ ==> {
            &&& ends_with(mime_of_extension(ext), "/"@ + format_name(ext))
            &&& media_type_of_mime(mime_of_extension(ext)) == media_type_of_extension(ext)
            &&& media_type_of_extension(ext) != MediaType::Unknown
        }),
{
    reveal_strlit("/");
    reveal_strlit("aac");
    reveal_strlit("application/msword");
    reveal_strlit("application/octet-stream");
    reveal_strlit("application/pdf");
    reveal_strlit("audio/");
    reveal_strlit("avi");
    reveal_strlit("bmp");
    reveal_strlit("doc");
    reveal_strlit("docx");
    reveal_strlit("flac");
    reveal_strlit("flv");
    reveal_strlit("gif");
    reveal_strlit("ico");
    reveal_strlit("image/");
    reveal_strlit("image/gif");
    reveal_strlit("jpeg");
    reveal_strlit("jpg");
    reveal_strlit("m4a");
    reveal_strlit("mkv");
    reveal_strlit("mov");
    reveal_strlit("mp3");
    reveal_strlit("mp4");
    reveal_strlit("odt");
    reveal_strlit("ogg");
    reveal_strlit("opus");
    reveal_strlit("pdf");
    reveal_strlit("png");
    reveal_strlit("rtf");
    reveal_strlit("svg");
    reveal_strlit("text/");
    reveal_strlit("tiff");
    reveal_strlit("txt");
    reveal_strlit("video/");
    reveal_strlit("wav");
    reveal_strlit("webm");
    reveal_strlit("webp");
    reveal_strlit("wma");
    reveal_strlit("wmv");
    assert(ext[0] != "jpg"@[0]);
    assert(ext.len() != "jpeg"@.len());
    assert(ext[0] != "png"@[0]);
    assert(ext.len() != "webp"@.len());
    assert(ext[0] != "bmp"@[0]);
    assert(ext[0] != "svg"@[0]);
    assert(ext.len() != "tiff"@.len());
    assert(ext[0] != "ico"@[0]);
    assert(ext[0] != "mp3"@[0]);
    assert(ext[0] != "wav"@[0]);
    assert(ext[0] != "ogg"@[0]);
    assert(ext.len() != "flac"@.len());
    assert(ext[0] != "m4a"@[0]);
    assert(ext[0] != "aac"@[0]);
    assert(ext[0] != "wma"@[0]);
    assert(ext.len() != "opus"@.len());
    assert(ext[0] != "mp4"@[0]);
    assert(ext.len() != "webm"@.len());
    assert(ext[0] != "avi"@[0]);
    assert(ext[0] != "mov"@[0]);
    assert(ext[0] != "mkv"@[0]);
    assert(ext[0] != "flv"@[0]);
    assert(ext[0] != "wmv"@[0]);
    assert(ext[0] != "pdf"@[0]);
    assert(ext[0] != "doc"@[0]);
    assert(ext.len() != "docx"@.len());
    assert(ext[0] != "txt"@[0]);
    assert(ext[0] != "rtf"@[0]);
    assert(ext[0] != "odt"@[0]);
    assert(ext[0] != "mp3"@[0]);
    assert(ext[0] != "jpg"@[0]);
    let m = mime_of_extension(ext);
    assert(m =~= "image/gif"@);
    assert(format_name(ext) =~= "gif"@);
    assert(m.subrange(m.len() - 4, m.len() as int) =~= "/"@ + format_name(ext));
    assert(m.subrange(0, 6) =~= "image/"@);
}

/// `webp` in `lemma_mime_names_the_format`.
#[verifier::rlimit(80)]
proof fn lemma_mime_webp(ext: Seq<char>)
    requires
        ext == "webp"@,
    ensures
        (mime_of_extension(ext) != "application/octet-stream"@ ==> {
            &&& ends_with(mime_of_extension(ext), "/"@ + format_name(ext))
            &&& media_type_of_mime(mime_of_extension(ext)) == media_type_of_extension(ext)
            &&& media_type_of_extension(ext) != MediaType::Unknown
        }),
{
    reveal_strlit("/");
    reveal_strlit("aac");
    reveal_strlit("application/msword");
    reveal_strlit("application/octet-stream");
    reveal_strlit("application/pdf");
    reveal_strlit("audio/");
    reveal_strlit("avi");
    reveal_strlit("bmp");
    reveal_strlit("doc");
    reveal_strlit("docx");
    reveal_strlit("flac");
    reveal_strlit("flv");
    reveal_strlit("gif");
    reveal_strlit("ico");
    reveal_strlit("image/");
    reveal_strlit("image/webp");
    reveal_strlit("jpeg");
    reveal_strlit("jpg");
    reveal_strlit("m4a");
    reveal_strlit("mkv");
    reveal_strlit("mov");
    reveal_strlit("mp3");
    reveal_strlit("mp4");
    reveal_strlit("odt");
    reveal_strlit("ogg");
    reveal_strlit("opus");
    reveal_strlit("pdf");
    reveal_strlit("png");
    reveal_strlit("rtf");
    reveal_strlit("svg");
    reveal_strlit("text/");
    reveal_strlit("tiff");
    reveal_strlit("txt");
    reveal_strlit("video/");
    reveal_strlit("wav");
    reveal_strlit("webm");
    reveal_strlit("webp");
    reveal_strlit("wma");
    reveal_strlit("wmv");
    assert(ext.len() != "jpg"@.len());
    assert(ext[0] != "jpeg"@[0]);
    assert(ext.len() != "png"@.len());
    assert(ext.len() != "gif"@.len());
    assert(ext.len() != "bmp"@.len());
    assert(ext.len() != "svg"@.len());
    assert(ext[0] != "tiff"@[0]);
    assert(ext.len() != "ico"@.len());
    assert(ext.len() != "mp3"@.len());
    assert(ext.len() != "wav"@.len());
    assert(ext.len() != "ogg"@.len());
    assert(ext[0] != "flac"@[0]);
    assert(ext.len() != "m4a"@.len());
    assert(ext.len() != "aac"@.len());
    assert(ext.len() != "wma"@.len());
    assert(ext[0] != "opus"@[0]);
    assert(ext.len() != "mp4"@.len());
    assert(ext[3] != "webm"@[3]);
    assert(ext.len() != "avi"@.len());
    assert(ext.len() != "mov"@.len());
    assert(ext.len() != "mkv"@.len());
    assert(ext.len() != "flv"@.len());
    assert(ext.len() != "wmv"@.len());
    assert(ext.len() != "pdf"@.len());
    assert(ext.len() != "doc"@.len());
    assert(ext[0] != "docx"@[0]);
    assert(ext.len() != "txt"@.len());
    assert(ext.len() != "rtf"@.len());
    assert(ext.len() != "odt"@.len());
    assert(ext.len() != "mp3"@.len());
    assert(ext.len() != "jpg"@.len());
    let m = mime_of_extension(ext);
    assert(m =~= "image/webp"@);
    assert(format_name(ext) =~= "webp"@);
    assert(m.subrange(m.len() - 5, m.len() as int) =~= "/"@ + format_name(ext));
    assert(m.subrange(0, 6) =~= "image/"@);
}

/// `mp3` in `lemma_mime_names_the_format`.
#[verifier::rlimit(80)]
proof fn lemma_mime_mp3(ext: Seq<char>)
    requires
        ext == "mp3"@,
    ensures
        (mime_of_extension(ext) != "application/octet-stream"@ ==> {
            &&& ends_with(mime_of_extension(ext), "/"@ + format_name(ext))
            &&& media_type_of_mime(mime_of_extension(ext)) == media_type_of_extension(ext)
            &&& media_type_of_extension(ext) != MediaType::Unknown
        }),
{
    reveal_strlit("/");
    reveal_strlit("aac");
    reveal_strlit("application/msword");
    reveal_strlit("application/octet-stream");
    reveal_strlit("application/pdf");
    reveal_strlit("audio/");
    reveal_strlit("audio/mpeg");
    reveal_strlit("avi");
    reveal_strlit("bmp");
    reveal_strlit("doc");
    reveal_strlit("docx");
    reveal_strlit("flac");
    reveal_strlit("flv");
    reveal_strlit("gif");
    reveal_strlit("ico");
    reveal_strlit("image/");
    reveal_strlit("jpeg");
    reveal_strlit("jpg");
    reveal_strlit("m4a");
    reveal_strlit("mkv");
    reveal_strlit("mov");
    reveal_strlit("mp3");
    reveal_strlit("mp4");
    reveal_strlit("mpeg");
    reveal_strlit("odt");
    reveal_strlit("ogg");
    reveal_strlit("opus");
    reveal_strlit("pdf");
    reveal_strlit("png");
    reveal_strlit("rtf");
    reveal_strlit("svg");
    reveal_strlit("text/");
    reveal_strlit("tiff");
    reveal_strlit("txt");
    reveal_strlit("video/");
    reveal_strlit("wav");
    reveal_strlit("webm");
    reveal_strlit("webp");
    reveal_strlit("wma");
    reveal_strlit("wmv");
    assert(ext[0] != "jpg"@[0]);
    assert(ext.len() != "jpeg"@.len());
    assert(ext[0] != "png"@[0]);
    assert(ext[0] != "gif"@[0]);
    assert(ext.len() != "webp"@.len());
    assert(ext[0] != "bmp"@[0]);
    assert(ext[0] != "svg"@[0]);
    assert(ext.len() != "tiff"@.len());
    assert(ext[0] != "ico"@[0]);
    assert(ext[0] != "wav"@[0]);
    assert(ext[0] != "ogg"@[0]);
    assert(ext.len() != "flac"@.len());
    assert(ext[1] != "m4a"@[1]);
    assert(ext[0] != "aac"@[0]);
    assert(ext[0] != "wma"@[0]);
    assert(ext.len() != "opus"@.len());
    assert(ext[2] != "mp4"@[2]);
    assert(ext.len() != "webm"@.len());
    assert(ext[0] != "avi"@[0]);
    assert(ext[1] != "mov"@[1]);
    assert(ext[1] != "mkv"@[1]);
    assert(ext[0] != "flv"@[0]);
    assert(ext[0] != "wmv"@[0]);
    assert(ext[0] != "pdf"@[0]);
    assert(ext[0] != "doc"@[0]);
    assert(ext.len() != "docx"@.len());
    assert(ext[0] != "txt"@[0]);
    assert(ext[0] != "rtf"@[0]);
    assert(ext[0] != "odt"@[0]);
    assert(ext[0] != "jpg"@[0]);
    let m = mime_of_extension(ext);
    assert(m =~= "audio/mpeg"@);
    assert(format_name(ext) =~= "mpeg"@);
    assert(m.subrange(m.len() - 5, m.len() as int) =~= "/"@ + format_name(ext));
    assert(!starts_with(m, "image/"@)) by {
        if starts_with(m, "image/"@) {
            assert(m.subrange(0, 6)[0] == m[0]);
        }
    }
    assert(m.subrange(0, 6) =~= "audio/"@);
}

/// `wav` in `lemma_mime_names_the_format`.
#[verifier::rlimit(80)]
proof fn lemma_mime_wav(ext: Seq<char>)
    requires
        ext == "wav"@,
    ensures
        (mime_of_extension(ext) != "application/octet-stream"@ ==> {
            &&& ends_with(mime_of_extension(ext), "/"@ + format_name(ext))
            &&& media_type_of_mime(mime_of_extension(ext)) == media_type_of_extension(ext)
            &&& media_type_of_extension(ext) != MediaType::Unknown
        }),
{
    reveal_strlit("/");
    reveal_strlit("aac");
    reveal_strlit("application/msword");
    reveal_strlit("application/octet-stream");
    reveal_strlit("application/pdf");
    reveal_strlit("audio/");
    reveal_strlit("audio/wav");
    reveal_strlit("avi");
    reveal_strlit("bmp");
    reveal_strlit("doc");
    reveal_strlit("docx");
    reveal_strlit("flac");
    reveal_strlit("flv");
    reveal_strlit("gif");
    reveal_strlit("ico");
    reveal_strlit("image/");
    reveal_strlit("jpeg");
    reveal_strlit("jpg");
    reveal_strlit("m4a");
    reveal_strlit("mkv");
    reveal_strlit("mov");
    reveal_strlit("mp3");
    reveal_strlit("mp4");
    reveal_strlit("odt");
    reveal_strlit("ogg");
    reveal_strlit("opus");
    reveal_strlit("pdf");
    reveal_strlit("png");
    reveal_strlit("rtf");
    reveal_strlit("svg");
    reveal_strlit("text/");
    reveal_strlit("tiff");
    reveal_strlit("txt");
    reveal_strlit("video/");
    reveal_strlit("wav");
    reveal_strlit("webm");
    reveal_strlit("webp");
    reveal_strlit("wma");
    reveal_strlit("wmv");
    assert(ext[0] != "jpg"@[0]);
    assert(ext.len() != "jpeg"@.len());
    assert(ext[0] != "png"@[0]);
    assert(ext[0] != "gif"@[0]);
    assert(ext.len() != "webp"@.len());
    assert(ext[0] != "bmp"@[0]);
    assert(ext[0] != "svg"@[0]);
    assert(ext.len() != "tiff"@.len());
    assert(ext[0] != "ico"@[0]);
    assert(ext[0] != "mp3"@[0]);
    assert(ext[0] != "ogg"@[0]);
    assert(ext.len() != "flac"@.len());
    assert(ext[0] != "m4a"@[0]);
    assert(ext[0] != "aac"@[0]);
    assert(ext[1] != "wma"@[1]);
    assert(ext.len() != "opus"@.len());
    assert(ext[0] != "mp4"@[0]);
    assert(ext.len() != "webm"@.len());
    assert(ext[0] != "avi"@[0]);
    assert(ext[0] != "mov"@[0]);
    assert(ext[0] != "mkv"@[0]);
    assert(ext[0] != "flv"@[0]);
    assert(ext[1] != "wmv"@[1]);
    assert(ext[0] != "pdf"@[0]);
    assert(ext[0] != "doc"@[0]);
    assert(ext.len() != "docx"@.len());
    assert(ext[0] != "txt"@[0]);
    assert(ext[0] != "rtf"@[0]);
    assert(ext[0] != "odt"@[0]);
    assert(ext[0] != "mp3"@[0]);
    assert(ext[0] != "jpg"@[0]);
    let m = mime_of_extension(ext);
    assert(m =~= "audio/wav"@);
    assert(format_name(ext) =~= "wav"@);
    assert(m.subrange(m.len() - 4, m.len() as int) =~= "/"@ + format_name(ext));
    assert(!starts_with(m, "image/"@)) by {
        if starts_with(m, "image/"@) {
            assert(m.subrange(0, 6)[0] == m[0]);
        }
    }
    assert(m.subrange(0, 6) =~= "audio/"@);
}

/// `ogg` in `lemma_mime_names_the_format`.
#[verifier::rlimit(80)]
proof fn lemma_mime_ogg(ext: Seq<char>)
    requires
        ext == "ogg"@,
    ensures
        (mime_of_extension(ext) != "application/octet-stream"@ ==> {
            &&& ends_with(mime_of_extension(ext), "/"@ + format_name(ext))
            &&& media_type_of_mime(mime_of_extension(ext)) == media_type_of_extension(ext)
            &&& media_type_of_extension(ext) != MediaType::Unknown
        }),
{
    reveal_strlit("/");
    reveal_strlit("aac");
    reveal_strlit("application/msword");
    reveal_strlit("application/octet-stream");
    reveal_strlit("application/pdf");
    reveal_strlit("audio/");
    reveal_strlit("audio/ogg");
    reveal_strlit("avi");
    reveal_strlit("bmp");
    reveal_strlit("doc");
    reveal_strlit("docx");
    reveal_strlit("flac");
    reveal_strlit("flv");
    reveal_strlit("gif");
    reveal_strlit("ico");
    reveal_strlit("image/");
    reveal_strlit("jpeg");
    reveal_strlit("jpg");
    reveal_strlit("m4a");
    reveal_strlit("mkv");
    reveal_strlit("mov");
    reveal_strlit("mp3");
    reveal_strlit("mp4");
    reveal_strlit("odt");
    reveal_strlit("ogg");
    reveal_strlit("opus");
    reveal_strlit("pdf");
    reveal_strlit("png");
    reveal_strlit("rtf");
    reveal_strlit("svg");
    reveal_strlit("text/");
    reveal_strlit("tiff");
    reveal_strlit("txt");
    reveal_strlit("video/");
    reveal_strlit("wav");
    reveal_strlit("webm");
    reveal_strlit("webp");
    reveal_strlit("wma");
    reveal_strlit("wmv");
    assert(ext[0] != "jpg"@[0]);
    assert(ext.len() != "jpeg"@.len());
    assert(ext[0] != "png"@[0]);
    assert(ext[0] != "gif"@[0]);
    assert(ext.len() != "webp"@.len());
    assert(ext[0] != "bmp"@[0]);
    assert(ext[0] != "svg"@[0]);
    assert(ext.len() != "tiff"@.len());
    assert(ext[0] != "ico"@[0]);
    assert(ext[0] != "mp3"@[0]);
    assert(ext[0] != "wav"@[0]);
    assert(ext.len() != "flac"@.len());
    assert(ext[0] != "m4a"@[0]);
    assert(ext[0] != "aac"@[0]);
    assert(ext[0] != "wma"@[0]);
    assert(ext.len() != "opus"@.len());
    assert(ext[0] != "mp4"@[0]);
    assert(ext.len() != "webm"@.len());
    assert(ext[0] != "avi"@[0]);
    assert(ext[0] != "mov"@[0]);
    assert(ext[0] != "mkv"@[0]);
    assert(ext[0] != "flv"@[0]);
    assert(ext[0] != "wmv"@[0]);
    assert(ext[0] != "pdf"@[0]);
    assert(ext[0] != "doc"@[0]);
    assert(ext.len() != "docx"@.len());
    assert(ext[0] != "txt"@[0]);
    assert(ext[0] != "rtf"@[0]);
    assert(ext[1] != "odt"@[1]);
    assert(ext[0] != "mp3"@[0]);
    assert(ext[0] != "jpg"@[0]);
    let m = mime_of_extension(ext);
    assert(m =~= "audio/ogg"@);
    assert(format_name(ext) =~= "ogg"@);
    assert(m.subrange(m.len() - 4, m.len() as int) =~= "/"@ + format_name(ext));
    assert(!starts_with(m, "image/"@)) by {
        if starts_with(m, "image/"@) {
            assert(m.subrange(0, 6)[0] == m[0]);
        }
    }
    assert(m.subrange(0, 6) =~= "audio/"@);
}

/// `mp4` in `lemma_mime_names_the_format`.
#[verifier::rlimit(80)]
proof fn lemma_mime_mp4(ext: Seq<char>)
    requires
        ext == "mp4"@,
    ensures
        (mime_of_extension(ext) != "application/octet-stream"@ ==> {
            &&& ends_with(mime_of_extension(ext), "/"@ + format_name(ext))
            &&& media_type_of_mime(mime_of_extension(ext)) == media_type_of_extension(ext)
            &&& media_type_of_extension(ext) != MediaType::Unknown
        }),
{
    reveal_strlit("/");
    reveal_strlit("aac");
    reveal_strlit("application/msword");
    reveal_strlit("application/octet-stream");
    reveal_strlit("application/pdf");
    reveal_strlit("audio/");
    reveal_strlit("avi");
    reveal_strlit("bmp");
    reveal_strlit("doc");
    reveal_strlit("docx");
    reveal_strlit("flac");
    reveal_strlit("flv");
    reveal_strlit("gif");
    reveal_strlit("ico");
    reveal_strlit("image/");
    reveal_strlit("jpeg");
    reveal_strlit("jpg");
    reveal_strlit("m4a");
    reveal_strlit("mkv");
    reveal_strlit("mov");
    reveal_strlit("mp3");
    reveal_strlit("mp4");
    reveal_strlit("odt");
    reveal_strlit("ogg");
    reveal_strlit("opus");
    reveal_strlit("pdf");
    reveal_strlit("png");
    reveal_strlit("rtf");
    reveal_strlit("svg");
    reveal_strlit("text/");
    reveal_strlit("tiff");
    reveal_strlit("txt");
    reveal_strlit("video/");
    reveal_strlit("video/mp4");
    reveal_strlit("wav");
    reveal_strlit("webm");
    reveal_strlit("webp");
    reveal_strlit("wma");
    reveal_strlit("wmv");
    assert(ext[0] != "jpg"@[0]);
    assert(ext.len() != "jpeg"@.len());
    assert(ext[0] != "png"@[0]);
    assert(ext[0] != "gif"@[0]);
    assert(ext.len() != "webp"@.len());
    assert(ext[0] != "bmp"@[0]);
    assert(ext[0] != "svg"@[0]);
    assert(ext.len() != "tiff"@.len());
    assert(ext[0] != "ico"@[0]);
    assert(ext[2] != "mp3"@[2]);
    assert(ext[0] != "wav"@[0]);
    assert(ext[0] != "ogg"@[0]);
    assert(ext.len() != "flac"@.len());
    assert(ext[1] != "m4a"@[1]);
    assert(ext[0] != "aac"@[0]);
    assert(ext[0] != "wma"@[0]);
    assert(ext.len() != "opus"@.len());
    assert(ext.len() != "webm"@.len());
    assert(ext[0] != "avi"@[0]);
    assert(ext[1] != "mov"@[1]);
    assert(ext[1] != "mkv"@[1]);
    assert(ext[0] != "flv"@[0]);
    assert(ext[0] != "wmv"@[0]);
    assert(ext[0] != "pdf"@[0]);
    assert(ext[0] != "doc"@[0]);
    assert(ext.len() != "docx"@.len());
    assert(ext[0] != "txt"@[0]);
    assert(ext[0] != "rtf"@[0]);
    assert(ext[0] != "odt"@[0]);
    assert(ext[2] != "mp3"@[2]);
    assert(ext[0] != "jpg"@[0]);
    let m = mime_of_extension(ext);
    assert(m =~= "video/mp4"@);
    assert(format_name(ext) =~= "mp4"@);
    assert(m.subrange(m.len() - 4, m.len() as int) =~= "/"@ + format_name(ext));
    assert(!starts_with(m, "image/"@)) by {
        if starts_with(m, "image/"@) {
            assert(m.subrange(0, 6)[0] == m[0]);
        }
    }
    assert(!starts_with(m, "audio/"@)) by {
        if starts_with(m, "audio/"@) {
            assert(m.subrange(0, 6)[0] == m[0]);
        }
    }
    assert(m.subrange(0, 6) =~= "video/"@);
}

/// `webm` in `lemma_mime_names_the_format`.
#[verifier::rlimit(80)]
proof fn lemma_mime_webm(ext: Seq<char>)
    requires
        ext == "webm"@,
    ensures
        (mime_of_extension(ext) != "application/octet-stream"@ ==> {
            &&& ends_with(mime_of_extension(ext), "/"@ + format_name(ext))
            &&& media_type_of_mime(mime_of_extension(ext)) == media_type_of_extension(ext)
            &&& media_type_of_extension(ext) != MediaType::Unknown
        }),
{
    reveal_strlit("/");
    reveal_strlit("aac");
    reveal_strlit("application/msword");
    reveal_strlit("application/octet-stream");
    reveal_strlit("application/pdf");
    reveal_strlit("audio/");
    reveal_strlit("avi");
    reveal_strlit("bmp");
    reveal_strlit("doc");
    reveal_strlit("docx");
    reveal_strlit("flac");
    reveal_strlit("flv");
    reveal_strlit("gif");
    reveal_strlit("ico");
    reveal_strlit("image/");
    reveal_strlit("jpeg");
    reveal_strlit("jpg");
    reveal_strlit("m4a");
    reveal_strlit("mkv");
    reveal_strlit("mov");
    reveal_strlit("mp3");
    reveal_strlit("mp4");
    reveal_strlit("odt");
    reveal_strlit("ogg");
    reveal_strlit("opus");
    reveal_strlit("pdf");
    reveal_strlit("png");
    reveal_strlit("rtf");
    reveal_strlit("svg");
    reveal_strlit("text/");
    reveal_strlit("tiff");
    reveal_strlit("txt");
    reveal_strlit("video/");
    reveal_strlit("video/webm");
    reveal_strlit("wav");
    reveal_strlit("webm");
    reveal_strlit("webp");
    reveal_strlit("wma");
    reveal_strlit("wmv");
    assert(ext.len() != "jpg"@.len());
    assert(ext[0] != "jpeg"@[0]);
    assert(ext.len() != "png"@.len());
    assert(ext.len() != "gif"@.len());
    assert(ext[3] != "webp"@[3]);
    assert(ext.len() != "bmp"@.len());
    assert(ext.len() != "svg"@.len());
    assert(ext[0] != "tiff"@[0]);
    assert(ext.len() != "ico"@.len());
    assert(ext.len() != "mp3"@.len());
    assert(ext.len() != "wav"@.len());
    assert(ext.len() != "ogg"@.len());
    assert(ext[0] != "flac"@[0]);
    assert(ext.len() != "m4a"@.len());
    assert(ext.len() != "aac"@.len());
    assert(ext.len() != "wma"@.len());
    assert(ext[0] != "opus"@[0]);
    assert(ext.len() != "mp4"@.len());
    assert(ext.len() != "avi"@.len());
    assert(ext.len() != "mov"@.len());
    assert(ext.len() != "mkv"@.len());
    assert(ext.len() != "flv"@.len());
    assert(ext.len() != "wmv"@.len());
    assert(ext.len() != "pdf"@.len());
    assert(ext.len() != "doc"@.len());
    assert(ext[0] != "docx"@[0]);
    assert(ext.len() != "txt"@.len());
    assert(ext.len() != "rtf"@.len());
    assert(ext.len() != "odt"@.len());
    assert(ext.len() != "mp3"@.len());
    assert(ext.len() != "jpg"@.len());
    let m = mime_of_extension(ext);
    assert(m =~= "video/webm"@);
    assert(format_name(ext) =~= "webm"@);
    assert(m.subrange(m.len() - 5, m.len() as int) =~= "/"@ + format_name(ext));
    assert(!starts_with(m, "image/"@)) by {
        if starts_with(m, "image/"@) {
            assert(m.subrange(0, 6)[0] == m[0]);
        }
    }
    assert(!starts_with(m, "audio/"@)) by {
        if starts_with(m, "audio/"@) {
            assert(m.subrange(0, 6)[0] == m[0]);
        }
    }
    assert(m.subrange(0, 6) =~= "video/"@);
}

/// `pdf` in `lemma_mime_names_the_format`.
#[verifier::rlimit(80)]
proof fn lemma_mime_pdf(ext: Seq<char>)
    requires
        ext == "pdf"@,
    ensures
        (mime_of_extension(ext) != "application/octet-stream"@ ==> {
            &&& ends_with(mime_of_extension(ext), "/"@ + format_name(ext))
            &&& media_type_of_mime(mime_of_extension(ext)) == media_type_of_extension(ext)
            &&& media_type_of_extension(ext) != MediaType::Unknown
        }),
{
    reveal_strlit("/");
    reveal_strlit("aac");
    reveal_strlit("application/msword");
    reveal_strlit("application/octet-stream");
    reveal_strlit("application/pdf");
    reveal_strlit("audio/");
    reveal_strlit("avi");
    reveal_strlit("bmp");
    reveal_strlit("doc");
    reveal_strlit("docx");
    reveal_strlit("flac");
    reveal_strlit("flv");
    reveal_strlit("gif");
    reveal_strlit("ico");
    reveal_strlit("image/");
    reveal_strlit("jpeg");
    reveal_strlit("jpg");
    reveal_strlit("m4a");
    reveal_strlit("mkv");
    reveal_strlit("mov");
    reveal_strlit("mp3");
    reveal_strlit("mp4");
    reveal_strlit("odt");
    reveal_strlit("ogg");
    reveal_strlit("opus");
    reveal_strlit("pdf");
    reveal_strlit("png");
    reveal_strlit("rtf");
    reveal_strlit("svg");
    reveal_strlit("text/");
    reveal_strlit("tiff");
    reveal_strlit("txt");
    reveal_strlit("video/");
    reveal_strlit("wav");
    reveal_strlit("webm");
    reveal_strlit("webp");
    reveal_strlit("wma");
    reveal_strlit("wmv");
    assert(ext[0] != "jpg"@[0]);
    assert(ext.len() != "jpeg"@.len());
    assert(ext[1] != "png"@[1]);
    assert(ext[0] != "gif"@[0]);
    assert(ext.len() != "webp"@.len());
    assert(ext[0] != "bmp"@[0]);
    assert(ext[0] != "svg"@[0]);
    assert(ext.len() != "tiff"@.len());
    assert(ext[0] != "ico"@[0]);
    assert(ext[0] != "mp3"@[0]);
    assert(ext[0] != "wav"@[0]);
    assert(ext[0] != "ogg"@[0]);
    assert(ext.len() != "flac"@.len());
    assert(ext[0] != "m4a"@[0]);
    assert(ext[0] != "aac"@[0]);
    assert(ext[0] != "wma"@[0]);
    assert(ext.len() != "opus"@.len());
    assert(ext[0] != "mp4"@[0]);
    assert(ext.len() != "webm"@.len());
    assert(ext[0] != "avi"@[0]);
    assert(ext[0] != "mov"@[0]);
    assert(ext[0] != "mkv"@[0]);
    assert(ext[0] != "flv"@[0]);
    assert(ext[0] != "wmv"@[0]);
    assert(ext[0] != "doc"@[0]);
    assert(ext.len() != "docx"@.len());
    assert(ext[0] != "txt"@[0]);
    assert(ext[0] != "rtf"@[0]);
    assert(ext[0] != "odt"@[0]);
    assert(ext[0] != "mp3"@[0]);
    assert(ext[0] != "jpg"@[0]);
    let m = mime_of_extension(ext);
    assert(m =~= "application/pdf"@);
    assert(format_name(ext) =~= "pdf"@);
    assert(m.subrange(m.len() - 4, m.len() as int) =~= "/"@ + format_name(ext));
    assert(!starts_with(m, "image/"@)) by {
        if starts_with(m, "image/"@) {
            assert(m.subrange(0, 6)[0] == m[0]);
        }
    }
    assert(!starts_with(m, "audio/"@)) by {
        if starts_with(m, "audio/"@) {
            assert(m.subrange(0, 6)[1] == m[1]);
        }
    }
    assert(!starts_with(m, "video/"@)) by {
        if starts_with(m, "video/"@) {
            assert(m.subrange(0, 6)[0] == m[0]);
        }
    }
    assert(m.subrange(0, 15) =~= "application/pdf"@);
}

/// The MIME type guessed for an extension names that extension's format:
/// wherever one is known (anything but `application/octet-stream`), it
/// ends in `/` and the format's name (`image/gif` for `gif`, `image/jpeg`
/// for `jpg`), so different formats get different types; and its major
/// type classifies the file as the extension does (an image extension
/// gets an `image/` type, and so on).
pub proof fn lemma_mime_names_the_format(ext: Seq<char>)
    ensures
        (mime_of_extension(ext) != "application/octet-stream"@ ==> {
            &&& ends_with(mime_of_extension(ext), "/"@ + format_name(ext))
            &&& media_type_of_mime(mime_of_extension(ext)) == media_type_of_extension(ext)
            &&& media_type_of_extension(ext) != MediaType::Unknown
        }),
{
    if ext == "jpg"@ {
        lemma_mime_jpg(ext);
    }
    if ext == "jpeg"@ {
        lemma_mime_jpeg(ext);
    }
    if ext == "png"@ {
        lemma_mime_png(ext);
    }
    if ext == "gif"@ {
        lemma_mime_gif(ext);
    }
    if ext == "webp"@ {
        lemma_mime_webp(ext);
    }
    if ext == "mp3"@ {
        lemma_mime_mp3(ext);
    }
    if ext == "wav"@ {
        lemma_mime_wav(ext);
    }
    if ext == "ogg"@ {
        lemma_mime_ogg(ext);
    }
    if ext == "mp4"@ {
        lemma_mime_mp4(ext);
    }
    if ext == "webm"@ {
        lemma_mime_webm(ext);
    }
    if ext == "pdf"@ {
        lemma_mime_pdf(ext);
    }
    if !(ext == "jpg"@ || ext == "jpeg"@ || ext == "png"@ || ext == "gif"@ || ext == "webp"@ || ext == "mp3"@ || ext == "wav"@ || ext == "ogg"@ || ext == "mp4"@ || ext == "webm"@ || ext == "pdf"@) {
        reveal_strlit("application/octet-stream");
        assert(mime_of_extension(ext) == "application/octet-stream"@);
    }
}

/// The MIME type for a file extension (case-insensitive), when no detector
/// answers.
pub fn mime_from_extension(ext: &str) -> (m: &'static str)
    ensures
        m@ == mime_of_extension(lowercase(ext@)),
        all_ascii(ext@) ==> lowercase(ext@) == ascii_lowered(ext@),
{
    let lower = to_lowercase(ext);
    let l = lower.as_str();
    if str_eq(l, "jpg") || str_eq(l, "jpeg") {
        "image/jpeg"
    } else if str_eq(l, "png") {
        "image/png"
    } else if str_eq(l, "gif") {
        "image/gif"
    } else if str_eq(l, "webp") {
        "image/webp"
    } else if str_eq(l, "mp3") {
        "audio/mpeg"
    } else if str_eq(l, "wav") {
        "audio/wav"
    } else if str_eq(l, "ogg") {
        "audio/ogg"
    } else if str_eq(l, "mp4") {
        "video/mp4"
    } else if str_eq(l, "webm") {
        "video/webm"
    } else if str_eq(l, "pdf") {
        "application/pdf"
    } else {
        "application/octet-stream"
    }
}

/// Whether `v[a..b]` is a MIME token.
fn mime_token_range(v: &Vec<char>, a: usize, b: usize) -> (ok: bool)
    requires
        a <= b <= v.len(),
    ensures
        ok == is_mime_token(v@.subrange(a as int, b as int)),
{
    let ghost s = v@.subrange(a as int, b as int);
    let mut slashes: usize = 0;
    let mut space = false;
    let mut i = a;
    while i < b
        invariant
            a <= i <= b <= v.len(),
            s == v@.subrange(a as int, b as int),
            slashes <= i - a,
            slashes == count_char(s.take(i - a), '/'),
            space == s.take(i - a).contains(' '),
        decreases b - i,
    {
        let c = v[i];
        let ghost t = s.take(i - a);
        assert(s.take(i + 1 - a) =~= t.push(c));
        assert(t.push(c).drop_last() =~= t);
        if c == '/' {
            slashes += 1;
        }
        if c == ' ' {
            space = true;
        }
        proof {
            if t.push(c).contains(' ') && !t.contains(' ') {
                assert(c == ' ');
            }
            if t.contains(' ') {
                let k = choose|k: int| 0 <= k < t.len() && t[k] == ' ';
                assert(t.push(c)[k] == ' ');
            }
            if c == ' ' {
                assert(t.push(c)[t.len() as int] == ' ');
            }
        }
        i += 1;
    }
    assert(s.take(b - a) =~= s);
    !space && slashes == 1
}

/// Picks the MIME type of a file: the detector's report (trimmed) when it
/// is a single MIME token, else the guess from the extension.
pub fn choose_mime(reported: Option<&str>, ext: &str) -> (m: String)
    ensures
        m@ == (match reported {
            Some(r) => if is_mime_token(trim(r@)) {
                trim(r@)
            } else {
                mime_of_extension(lowercase(ext@))
            },
            None => mime_of_extension(lowercase(ext@)),
        }),
{
    match reported {
        Some(r) => {
            let v = chars_of(r);
            let (a, b) = trim_range(&v, 0, v.len());
            assert(v@.subrange(0, v.len() as int) =~= r@);
            if mime_token_range(&v, a, b) {
                let piece = crate::text::slice_of(&v, a, b);
                return crate::text::string_of(&piece);
            }
        },
        None => {},
    }
    mime_from_extension(ext).to_owned()
}

} // verus!
