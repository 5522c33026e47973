//! The normalized record produced by every successful extraction strategy:
//! a post's author, caption, media items and engagement counts.

use vstd::prelude::*;

verus! {

/// Whether a media item is a still image or a playable video.
#[derive(Clone, Copy, Debug, PartialEq, Eq, Structural)]
pub enum MediaType {
    Image,
    Video,
}

/// One media item of a post. For a video, `url` references the playable
/// resource and `thumbnail_url` may supply a poster image; for an image,
/// `url` is the image itself and `thumbnail_url` is unused.
#[derive(Debug)]
pub struct Media {
    pub media_type: MediaType,
    pub url: String,
    pub thumbnail_url: Option<String>,
    pub width: Option<u32>,
    pub height: Option<u32>,
}

/// The mathematical value of a `Media`.
#[verifier::ext_equal]
pub ghost struct MediaV {
    pub media_type: MediaType,
    pub url: Seq<char>,
    pub thumbnail_url: Option<Seq<char>>,
    pub width: Option<u32>,
    pub height: Option<u32>,
}

impl View for Media {
    type V = MediaV;

    open spec fn view(&self) -> MediaV {
        MediaV {
            media_type: self.media_type,
            url: self.url@,
            thumbnail_url: match self.thumbnail_url {
                Some(t) => Some(t@),
                None => None,
            },
            width: self.width,
            height: self.height,
        }
    }
}

/// The normalized record for one post. `media` keeps carousel display
/// order; it is never implicitly reordered.
#[derive(Debug)]
pub struct InstaData {
    pub post_id: String,
    pub username: String,
    pub caption: Option<String>,
    pub media: Vec<Media>,
    pub like_count: Option<u64>,
    pub comment_count: Option<u64>,
    pub is_video: bool,
    pub video_view_count: Option<u64>,
    pub timestamp: u64,
}

/// The mathematical value of an `InstaData`.
#[verifier::ext_equal]
pub ghost struct InstaDataV {
    pub post_id: Seq<char>,
    pub username: Seq<char>,
    pub caption: Option<Seq<char>>,
    pub media: Seq<MediaV>,
    pub like_count: Option<u64>,
    pub comment_count: Option<u64>,
    pub is_video: bool,
    pub video_view_count: Option<u64>,
    pub timestamp: u64,
}

/// The views of a sequence of media items, in order.
pub open spec fn spec_media_views(v: Seq<Media>) -> Seq<MediaV> {
    Seq::new(v.len(), |i: int| v[i]@)
}

impl View for InstaData {
    type V = InstaDataV;

    open spec fn view(&self) -> InstaDataV {
        InstaDataV {
            post_id: self.post_id@,
            username: self.username@,
            caption: match self.caption {
                Some(c) => Some(c@),
                None => None,
            },
            media: spec_media_views(self.media@),
            like_count: self.like_count,
            comment_count: self.comment_count,
            is_video: self.is_video,
            video_view_count: self.video_view_count,
            timestamp: self.timestamp,
        }
    }
}

impl Clone for Media {
    /// A copy with the same value.
    fn clone(&self) -> (r: Self)
        ensures
            r@ == self@,
    {
        Media {
            media_type: self.media_type,
            url: self.url.clone(),
            thumbnail_url: match &self.thumbnail_url {
                Some(t) => Some(t.clone()),
                None => None,
            },
            width: self.width,
            height: self.height,
        }
    }
}

impl Clone for InstaData {
    /// A copy with the same value.
    fn clone(&self) -> (r: Self)
        ensures
            r@ == self@,
    {
        let mut media: Vec<Media> = Vec::new();
        let mut i: usize = 0;
        while i < self.media.len()
            invariant
                i <= self.media@.len(),
                media@.len() == i,
                forall|j: int| 0 <= j < i ==> media@[j]@ == self.media@[j]@,
            decreases self.media@.len() - i,
        {
            let m = self.media[i].clone();
            media.push(m);
            i += 1;
        }
        assert(spec_media_views(media@) =~= spec_media_views(self.media@));
        let r = InstaData {
            post_id: self.post_id.clone(),
            username: self.username.clone(),
            caption: match &self.caption {
                Some(c) => Some(c.clone()),
                None => None,
            },
            media,
            like_count: self.like_count,
            comment_count: self.comment_count,
            is_video: self.is_video,
            video_view_count: self.video_view_count,
            timestamp: self.timestamp,
        };
        proof {
            assert(r@ =~= self@);
        }
        r
    }
}

/// The signature of the bare-HTML fallback extraction: exactly one image
/// item with no dimensions. A record of this shape is distrusted by the
/// orchestrator, which then seeks a richer source before settling for it.
pub open spec fn spec_thumbnail_only(d: InstaDataV) -> bool {
    &&& d.media.len() == 1
    &&& d.media[0].media_type == MediaType::Image
    &&& d.media[0].width is None
    &&& d.media[0].height is None
}

/// The image URL to redirect to for the 1-based item `media_num`: an image
/// item's own URL, a video item's poster image when it has one, nothing
/// otherwise or out of range.
pub open spec fn spec_image_redirect(d: InstaDataV, media_num: int) -> Option<Seq<char>> {
    let i = media_num - 1;
    if 0 <= i && i < d.media.len() {
        let m = d.media[i];
        if m.media_type == MediaType::Image {
            Some(m.url)
        } else if m.thumbnail_url is Some {
            m.thumbnail_url
        } else {
            None
        }
    } else {
        None
    }
}

/// Selects the image URL to redirect to for the 1-based item `media_num`.
pub fn image_redirect_target(data: &InstaData, media_num: usize) -> (r: Option<String>)
    requires
        media_num >= 1,
    ensures
        match r {
            Some(u) => spec_image_redirect(data@, media_num as int) == Some(u@),
            None => spec_image_redirect(data@, media_num as int) is None,
        },
{
    let index = media_num - 1;
    if index >= data.media.len() {
        return None;
    }
    let m = &data.media[index];
    if matches!(m.media_type, MediaType::Image) {
        return Some(m.url.clone());
    }
    match &m.thumbnail_url {
        Some(t) => Some(t.clone()),
        None => None,
    }
}

/// The video URL to redirect to for the 1-based item `media_num`: a video
/// item's own URL, nothing otherwise or out of range.
pub open spec fn spec_video_redirect(d: InstaDataV, media_num: int) -> Option<Seq<char>> {
    let i = media_num - 1;
    if 0 <= i && i < d.media.len() && d.media[i].media_type == MediaType::Video {
        Some(d.media[i].url)
    } else {
        None
    }
}

/// Selects the video URL to redirect to for the 1-based item `media_num`.
pub fn video_redirect_target(data: &InstaData, media_num: usize) -> (r: Option<String>)
    requires
        media_num >= 1,
    ensures
        match r {
            Some(u) => spec_video_redirect(data@, media_num as int) == Some(u@),
            None => spec_video_redirect(data@, media_num as int) is None,
        },
{
    let index = media_num - 1;
    if index >= data.media.len() {
        return None;
    }
    let m = &data.media[index];
    if matches!(m.media_type, MediaType::Video) {
        return Some(m.url.clone());
    }
    None
}

/// Whether some media item of the list is a video.
pub fn media_list_has_video(media: &Vec<Media>) -> (r: bool)
    ensures
        r == exists|i: int|
            0 <= i < media@.len() && spec_media_views(media@)[i].media_type == MediaType::Video,
{
    let mut i: usize = 0;
    while i < media.len()
        invariant
            i <= media@.len(),
            forall|j: int|
                0 <= j < i ==> spec_media_views(media@)[j].media_type != MediaType::Video,
        decreases media@.len() - i,
    {
        if matches!(media[i].media_type, MediaType::Video) {
            assert(spec_media_views(media@)[i as int].media_type == MediaType::Video);
            return true;
        }
        i += 1;
    }
    false
}

impl InstaData {
    /// Whether this record has the bare-HTML fallback shape.
    pub fn is_thumbnail_only(&self) -> (r: bool)
        ensures
            r == spec_thumbnail_only(self@),
    {
        if self.media.len() != 1 {
            return false;
        }
        let m = &self.media[0];
        matches!(m.media_type, MediaType::Image) && m.width.is_none() && m.height.is_none()
    }

}

} // verus!
