use reddit_markdown::media::gallery_downloads;
use reddit_markdown::media::gallery_header_line;
use reddit_markdown::media::gallery_image_line;
use reddit_markdown::media::media_file_name;
use reddit_markdown::media::oembed_line;
use reddit_markdown::media::single_image_line;
use reddit_markdown::media::video_line;
use reddit_markdown::media::GalleryEntry;
use reddit_markdown::media::MediaForm;
use reddit_markdown::media::MediaHandler;
use reddit_markdown::media::MediaInfo;

fn info() -> MediaInfo {
    MediaInfo {
        is_gallery: false,
        is_video: false,
        has_oembed: false,
        oembed_html: String::new(),
        is_single_image: false,
        has_gallery_data: false,
        gallery: Vec::new(),
        video_url: None,
        url: String::new(),
    }
}

#[test]
fn test_media_form_precedence() {
    let handler = MediaHandler;
    let mut m = info();
    assert_eq!(handler.media_form(&m), MediaForm::NoMedia);
    m.is_single_image = true;
    assert_eq!(handler.media_form(&m), MediaForm::SingleImage);
    m.has_oembed = true;
    assert_eq!(handler.media_form(&m), MediaForm::Oembed);
    m.is_video = true;
    assert_eq!(handler.media_form(&m), MediaForm::Video);
    m.is_gallery = true;
    assert_eq!(handler.media_form(&m), MediaForm::Gallery);
}

#[test]
fn test_gallery_downloads_decode_and_skip() {
    let entries = vec![
        GalleryEntry {
            is_image: true,
            url: "https://i.example/a.jpg?x=1&amp;y=2".to_string(),
        },
        GalleryEntry {
            is_image: false,
            url: "https://i.example/clip.mp4".to_string(),
        },
        GalleryEntry {
            is_image: true,
            url: "https://i.example/b.png".to_string(),
        },
    ];
    let downloads = gallery_downloads(&entries);
    assert_eq!(downloads.len(), 2);
    assert_eq!(downloads[0].url, "https://i.example/a.jpg?x=1&y=2");
    assert_eq!(downloads[0].file_name, "a.jpg?x=1&y=2");
    assert_eq!(downloads[1].url, "https://i.example/b.png");
    assert_eq!(downloads[1].file_name, "b.png");
}

#[test]
fn test_media_lines() {
    assert_eq!(gallery_header_line(), "### Image Gallery\n");
    assert_eq!(gallery_image_line("a.jpg"), "![](./media/a.jpg)\n\n");
    assert_eq!(single_image_line("a.jpg"), "![](./media/a.jpg)\n");
    assert_eq!(
        video_line("clip.mp4"),
        "<video controls src=\"./media/clip.mp4\"></video>\n"
    );
}

#[test]
fn test_oembed_line_decodes_entities() {
    assert_eq!(oembed_line("&lt;iframe&gt;"), "<iframe>\n");
}

#[test]
fn test_media_file_name() {
    assert_eq!(media_file_name("https://i.example/x/a.jpg"), "a.jpg");
    assert_eq!(media_file_name(""), "");
}
