//! Media capture decisions: which of the four media forms a post carries,
//! which files are to be fetched, and the document lines each successful
//! fetch contributes.  The fetching itself is the caller's; at most one of
//! the four forms is ever chosen, by a fixed precedence.

use vstd::prelude::*;
use vstd::string::StringExecFns;

use crate::paths::spec_name_candidate;
use crate::text::chars_of;
use crate::text::replace_chars;
use crate::text::replace_seq;
use crate::text::string_of;

verus! {

/// What `html_escape::decode_html_entities` returns for a given text.
pub uninterp spec fn entities_decoded(s: Seq<char>) -> Seq<char>;

/// Relies on `html_escape::decode_html_entities`: the decoded text depends
/// on the input text alone.
#[verifier::external_body]
fn decode_entities(s: &str) -> (r: String)
    ensures
        r@ == entities_decoded(s@),
{
    html_escape::decode_html_entities(s).into_owned()
}

/// One gallery item, already joined with its media metadata: whether the
/// metadata calls it an image, and its source URL.
pub struct GalleryEntry {
    pub is_image: bool,
    pub url: String,
}

impl View for GalleryEntry {
    type V = (bool, Seq<char>);

    open spec fn view(&self) -> (bool, Seq<char>) {
        (self.is_image, self.url@)
    }
}

impl DeepView for GalleryEntry {
    type V = (bool, Seq<char>);

    open spec fn deep_view(&self) -> (bool, Seq<char>) {
        self@
    }
}

/// The media-bearing fields of a post, as plain values.
pub struct MediaInfo {
    pub is_gallery: bool,
    pub is_video: bool,
    pub has_oembed: bool,
    pub oembed_html: String,
    pub is_single_image: bool,
    pub has_gallery_data: bool,
    pub gallery: Vec<GalleryEntry>,
    pub video_url: Option<String>,
    pub url: String,
}

/// The four media forms, and the absence of any.
#[derive(Clone, Copy, Debug, PartialEq, Eq, Structural)]
pub enum MediaForm {
    Gallery,
    Video,
    Oembed,
    SingleImage,
    NoMedia,
}

/// The form chosen for a post, by the fixed precedence
/// gallery, video, oEmbed, single-image hint.
pub open spec fn spec_media_form(m: MediaInfo) -> MediaForm {
    if m.is_gallery {
        MediaForm::Gallery
    } else if m.is_video {
        MediaForm::Video
    } else if m.has_oembed {
        MediaForm::Oembed
    } else if m.is_single_image {
        MediaForm::SingleImage
    } else {
        MediaForm::NoMedia
    }
}

/// One file to fetch, and the name it is stored under.
pub struct MediaDownload {
    pub url: String,
    pub file_name: String,
}

impl View for MediaDownload {
    type V = (Seq<char>, Seq<char>);

    open spec fn view(&self) -> (Seq<char>, Seq<char>) {
        (self.url@, self.file_name@)
    }
}

impl DeepView for MediaDownload {
    type V = (Seq<char>, Seq<char>);

    open spec fn deep_view(&self) -> (Seq<char>, Seq<char>) {
        self@
    }
}

/// The local file name a media URL is stored under: its final path segment,
/// trailing slashes trimmed; empty when the URL has no segment.
pub open spec fn spec_media_file_name(url: Seq<char>) -> Seq<char> {
    match spec_name_candidate(url) {
        Some(s) => s,
        None => Seq::empty(),
    }
}

/// The local file name for a media URL.
pub fn media_file_name(url: &str) -> (r: String)
    ensures
        r@ == spec_media_file_name(url@),
{
    match crate::paths::derive_name_candidate(url) {
        Some(s) => s,
        None => String::new(),
    }
}

/// The downloads a gallery yields: one per image entry, in order, with the
/// ampersand entity decoded in the source URL.
pub open spec fn spec_gallery_downloads(entries: Seq<(bool, Seq<char>)>) -> Seq<
    (Seq<char>, Seq<char>),
>
    decreases entries.len(),
{
    if entries.len() == 0 {
        Seq::empty()
    } else {
        let rest = spec_gallery_downloads(entries.drop_last());
        let e = entries.last();
        if e.0 {
            let fixed = replace_seq(e.1, "&amp;"@, "&"@);
            rest.push((fixed, spec_media_file_name(fixed)))
        } else {
            rest
        }
    }
}

/// Plan the gallery downloads: each image entry's URL with the ampersand
/// entity decoded, paired with its local file name; non-image entries are
/// skipped.
pub fn gallery_downloads(entries: &Vec<GalleryEntry>) -> (out: Vec<MediaDownload>)
    ensures
        out.deep_view() == spec_gallery_downloads(entries.deep_view()),
{
    let mut out: Vec<MediaDownload> = Vec::new();
    let mut i: usize = 0;
    proof {
        reveal_strlit("&amp;");
        assert(entries.deep_view().take(0) =~= Seq::<(bool, Seq<char>)>::empty());
        assert(out.deep_view() =~= Seq::<(Seq<char>, Seq<char>)>::empty());
    }
    while i < entries.len()
        invariant
            i <= entries@.len(),
            "&amp;"@.len() > 0,
            out.deep_view() == spec_gallery_downloads(entries.deep_view().take(i as int)),
        decreases entries@.len() - i,
    {
        let ghost old_dv = out.deep_view();
        proof {
            let t = entries.deep_view().take(i + 1);
            assert(t.drop_last() =~= entries.deep_view().take(i as int));
            assert(t.last() == entries.deep_view()[i as int]);
            assert(entries.deep_view()[i as int] == entries@[i as int]@);
        }
        if entries[i].is_image {
            let uv = chars_of(entries[i].url.as_str());
            let fixed = replace_chars(&uv, &chars_of("&amp;"), &chars_of("&"));
            let fixed_str = string_of(&fixed);
            let name = media_file_name(fixed_str.as_str());
            let item = MediaDownload { url: fixed_str, file_name: name };
            out.push(item);
            proof {
                assert(out.deep_view() =~~= old_dv.push(item@));
            }
        }
        i += 1;
    }
    proof {
        assert(entries.deep_view().take(entries@.len() as int) =~= entries.deep_view());
    }
    out
}

/// The gallery section's heading line.
pub fn gallery_header_line() -> (r: String)
    ensures
        r@ == "### Image Gallery\n"@,
{
    "### Image Gallery\n".to_owned()
}

/// The document line a fetched gallery image contributes.
pub fn gallery_image_line(file_name: &str) -> (r: String)
    ensures
        r@ == "![](./media/"@ + file_name@ + ")\n\n"@,
{
    let mut s = String::new();
    s.append("![](./media/");
    s.append(file_name);
    s.append(")\n\n");
    proof {
        assert(s@ =~= "![](./media/"@ + file_name@ + ")\n\n"@);
    }
    s
}

/// The document line a fetched video contributes.
pub fn video_line(file_name: &str) -> (r: String)
    ensures
        r@ == "<video controls src=\"./media/"@ + file_name@ + "\"></video>\n"@,
{
    let mut s = String::new();
    s.append("<video controls src=\"./media/");
    s.append(file_name);
    s.append("\"></video>\n");
    proof {
        assert(s@ =~= "<video controls src=\"./media/"@ + file_name@ + "\"></video>\n"@);
    }
    s
}

/// The document line an oEmbed fragment contributes: its HTML with entities
/// decoded, and a newline.
pub fn oembed_line(oembed_html: &str) -> (r: String)
    ensures
        r@ == entities_decoded(oembed_html@) + "\n"@,
{
    let mut s = decode_entities(oembed_html);
    s.append("\n");
    proof {
        assert(s@ =~= entities_decoded(oembed_html@) + "\n"@);
    }
    s
}

/// The document line a fetched single image contributes.
pub fn single_image_line(file_name: &str) -> (r: String)
    ensures
        r@ == "![](./media/"@ + file_name@ + ")\n"@,
{
    let mut s = String::new();
    s.append("![](./media/");
    s.append(file_name);
    s.append(")\n");
    proof {
        assert(s@ =~= "![](./media/"@ + file_name@ + ")\n"@);
    }
    s
}

/// Chooses a post's media form and plans its downloads; the fetching itself
/// is the caller's.
pub struct MediaHandler;

impl MediaHandler {
    /// Which media form the post carries, by the fixed precedence
    /// gallery, video, oEmbed, single-image hint.
    pub fn media_form(&self, m: &MediaInfo) -> (r: MediaForm)
        ensures
            r == spec_media_form(*m),
    {
        if m.is_gallery {
            MediaForm::Gallery
        } else if m.is_video {
            MediaForm::Video
        } else if m.has_oembed {
            MediaForm::Oembed
        } else if m.is_single_image {
            MediaForm::SingleImage
        } else {
            MediaForm::NoMedia
        }
    }
}

} // verus!
