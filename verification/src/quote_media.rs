//! The pictures that go into a quote: of the people who wrote, and what hangs on messages.

use crate::ai_request;
use crate::base64_text;
use crate::prompt;
use crate::prompt::MediaKind;
use crate::scan;
use std::collections::HashMap;
use vstd::prelude::*;

verus! {

broadcast use vstd::std_specs::hash::group_hash_axioms;

/// The largest media that goes into a quote, in bytes.
pub const MAX_MEDIA_BYTES: u64 = 12_582_912;

/// How many pictures of people are kept.
pub const MAX_AVATARS: usize = 128;

/// The type of the media that hangs on a message, if it goes into a quote.
pub open spec fn media_type(media: MediaKind) -> Option<Seq<char>> {
    match media {
        MediaKind::Photo => Some("image/jpeg"@),
        MediaKind::Sticker(mime) => Some(prompt::mime_or(mime, "image/webp"@)),
        MediaKind::Document(mime) => {
            let m = prompt::mime_or(mime, "application/octet-stream"@);
            if scan::starts(m, "image/"@) || scan::starts(m, "video/"@) {
                Some(m)
            } else {
                None
            }
        },
        MediaKind::Other => None,
    }
}

/// The type of the media that hangs on a message, if it goes into a quote.
pub fn quote_media_type(media: &MediaKind) -> (r: Option<String>)
    ensures
        match r {
            Some(m) => media_type(*media) == Some(m@),
            None => media_type(*media) is None,
        },
{
    match media {
        MediaKind::Photo => Some("image/jpeg".to_owned()),
        MediaKind::Sticker(Some(mime)) => Some(mime.clone()),
        MediaKind::Sticker(None) => Some("image/webp".to_owned()),
        MediaKind::Document(mime) => {
            let m = match mime {
                Some(m) => m.clone(),
                None => "application/octet-stream".to_owned(),
            };
            if scan::starts_with(m.as_str(), "image/") || scan::starts_with(m.as_str(), "video/") {
                Some(m)
            } else {
                None
            }
        },
        MediaKind::Other => None,
    }
}

/// Media as a URL that holds it; none if there is nothing in it or too much.
pub open spec fn media_url(mime: Seq<char>, bytes: Seq<u8>) -> Option<Seq<char>> {
    if bytes.len() == 0 || bytes.len() > MAX_MEDIA_BYTES {
        None
    } else {
        Some(ai_request::data_url(mime, base64_text::encoded(bytes)))
    }
}

/// Whether media of so many bytes goes into a quote.
pub fn media_fits(bytes: u64) -> (r: bool)
    ensures
        r == (0 < bytes <= MAX_MEDIA_BYTES),
{
    0 < bytes && bytes <= MAX_MEDIA_BYTES
}

/// Media as a URL that holds it; none if there is nothing in it or too much.
pub fn file_data_url(mime: &str, bytes: &[u8]) -> (r: Option<String>)
    ensures
        match r {
            Some(url) => media_url(mime@, bytes@) == Some(url@),
            None => media_url(mime@, bytes@) is None,
        },
{
    if !media_fits(bytes.len() as u64) {
        return None;
    }
    let data = base64_text::encode(bytes);
    Some(ai_request::make_data_url(mime, data.as_str()))
}

// ---------------------------------------------------------------------------------------------
// Getting the picture of a person
// ---------------------------------------------------------------------------------------------

/// What is done to get the picture of a person.
#[derive(Clone, Copy, Debug, PartialEq, Eq, Structural)]
pub enum AvatarStep {
    /// The one who wrote is looked at for a picture.
    Inspect,
    /// The person is asked for anew, and looked at for a picture.
    Refresh,
    /// The picture that was found is downloaded.
    Download,
    /// The first of the person's pictures is asked for.
    List,
    /// That picture is downloaded.
    DownloadListed,
    /// The picture that was downloaded is used.
    Use,
    /// There is no picture.
    GiveUp,
}

/// What is done next, by whether the last step worked.
pub open spec fn after_step(step: AvatarStep, worked: bool) -> AvatarStep {
    match step {
        AvatarStep::Inspect => if worked {
            AvatarStep::Download
        } else {
            AvatarStep::Refresh
        },
        AvatarStep::Refresh => if worked {
            AvatarStep::Download
        } else {
            AvatarStep::List
        },
        AvatarStep::Download => if worked {
            AvatarStep::Use
        } else {
            AvatarStep::List
        },
        AvatarStep::List => if worked {
            AvatarStep::DownloadListed
        } else {
            AvatarStep::GiveUp
        },
        AvatarStep::DownloadListed => if worked {
            AvatarStep::Use
        } else {
            AvatarStep::GiveUp
        },
        AvatarStep::Use => AvatarStep::Use,
        AvatarStep::GiveUp => AvatarStep::GiveUp,
    }
}

pub open spec fn steps_left(step: AvatarStep) -> nat {
    match step {
        AvatarStep::Inspect => 5,
        AvatarStep::Refresh => 4,
        AvatarStep::Download => 3,
        AvatarStep::List => 2,
        AvatarStep::DownloadListed => 1,
        AvatarStep::Use => 0,
        AvatarStep::GiveUp => 0,
    }
}

/// The search for a picture comes to an end, and a picture is used only after it has been downloaded.
pub proof fn law_avatar_search_ends(step: AvatarStep, worked: bool)
    ensures
        steps_left(step) > 0 ==> steps_left(after_step(step, worked)) < steps_left(step),
        after_step(step, worked) == AvatarStep::Use && step != AvatarStep::Use ==> worked && (step
            == AvatarStep::Download || step == AvatarStep::DownloadListed),
{
}

/// What is done next to get the picture of a person.
pub fn next_avatar_step(step: AvatarStep, worked: bool) -> (r: AvatarStep)
    ensures
        r == after_step(step, worked),
{
    match step {
        AvatarStep::Inspect => if worked {
            AvatarStep::Download
        } else {
            AvatarStep::Refresh
        },
        AvatarStep::Refresh => if worked {
            AvatarStep::Download
        } else {
            AvatarStep::List
        },
        AvatarStep::Download => if worked {
            AvatarStep::Use
        } else {
            AvatarStep::List
        },
        AvatarStep::List => if worked {
            AvatarStep::DownloadListed
        } else {
            AvatarStep::GiveUp
        },
        AvatarStep::DownloadListed => if worked {
            AvatarStep::Use
        } else {
            AvatarStep::GiveUp
        },
        AvatarStep::Use => AvatarStep::Use,
        AvatarStep::GiveUp => AvatarStep::GiveUp,
    }
}

// ---------------------------------------------------------------------------------------------
// Pictures that are kept
// ---------------------------------------------------------------------------------------------

/// Pictures of people, as URLs, by the numbers of the conversations with them.
pub struct AvatarCache {
    pub pictures: HashMap<i64, String>,
}

pub open spec fn pictures_of(m: Map<i64, String>) -> Map<i64, Seq<char>> {
    m.map_values(|s: String| s@)
}

impl View for AvatarCache {
    type V = Map<i64, Seq<char>>;

    open spec fn view(&self) -> Map<i64, Seq<char>> {
        pictures_of(self.pictures@)
    }
}

impl AvatarCache {
    /// Whether not too many are kept.
    pub open spec fn wf(&self) -> bool {
        self@.len() <= MAX_AVATARS
    }
}

/// The pictures that are kept when one more comes: when there are too many, that one alone.
pub open spec fn with_picture(m: Map<i64, Seq<char>>, peer: i64, url: Seq<char>) -> Map<
    i64,
    Seq<char>,
> {
    if m.len() >= MAX_AVATARS && !m.contains_key(peer) {
        Map::empty().insert(peer, url)
    } else {
        m.insert(peer, url)
    }
}

/// A picture that was kept is there, and there are never too many.
pub proof fn law_picture_is_kept(m: Map<i64, Seq<char>>, peer: i64, url: Seq<char>)
    requires
        m.dom().finite(),
        m.len() <= MAX_AVATARS,
    ensures
        with_picture(m, peer, url).get(peer) == Some(url),
        with_picture(m, peer, url).len() <= MAX_AVATARS,
{
    if m.len() >= MAX_AVATARS && !m.contains_key(peer) {
        assert(Map::<i64, Seq<char>>::empty().dom().len() == 0);
        assert(with_picture(m, peer, url).dom() =~= Set::<i64>::empty().insert(peer));
    } else if m.contains_key(peer) {
        assert(m.insert(peer, url).dom() =~= m.dom());
    } else {
        assert(m.insert(peer, url).dom() =~= m.dom().insert(peer));
    }
}

impl AvatarCache {
    pub fn new() -> (r: AvatarCache)
        ensures
            r.wf(),
            r@ == Map::<i64, Seq<char>>::empty(),
    {
        let r = AvatarCache { pictures: HashMap::new() };
        proof {
            assert(r@ =~= Map::<i64, Seq<char>>::empty());
        }
        r
    }

    /// The picture of a person, if it is kept.
    pub fn get(&self, peer: i64) -> (r: Option<String>)
        ensures
            match r {
                Some(url) => self@.get(peer) == Some(url@),
                None => self@.get(peer) is None,
            },
    {
        match self.pictures.get(&peer) {
            Some(url) => Some(url.clone()),
            None => None,
        }
    }

    /// Keeps the picture of a person.
    pub fn keep(&mut self, peer: i64, url: &str)
        requires
            old(self).wf(),
        ensures
            final(self).wf(),
            final(self)@ == with_picture(old(self)@, peer, url@),
    {
        let ghost before = self@;
        proof {
            assert(before.dom() =~= self.pictures@.dom());
            law_picture_is_kept(before, peer, url@);
        }
        if self.pictures.len() >= MAX_AVATARS && !self.pictures.contains_key(&peer) {
            self.pictures.clear();
        }
        self.pictures.insert(peer, url.to_owned());
        proof {
            assert(self@ =~= with_picture(before, peer, url@));
        }
    }
}

/// What goes into a quote: a photo, a sticker, and files that are pictures or videos, each with its type.
pub proof fn law_media_types(mime: String, kind: Seq<char>)
    ensures
        media_type(MediaKind::Photo) == Some("image/jpeg"@),
        media_type(MediaKind::Other) is None,
        media_type(MediaKind::Sticker(None)) == Some("image/webp"@),
        media_type(MediaKind::Sticker(Some(mime))) == Some(mime@),
        mime@ == "image/"@ + kind || mime@ == "video/"@ + kind ==> media_type(
            MediaKind::Document(Some(mime)),
        ) == Some(mime@),
        mime@ == "audio/"@ + kind || mime@ == "text/"@ + kind ==> media_type(
            MediaKind::Document(Some(mime)),
        ) is None,
        media_type(MediaKind::Document(None)) is None,
{
    reveal_strlit("image/");
    reveal_strlit("video/");
    reveal_strlit("audio/");
    reveal_strlit("text/");
    reveal_strlit("application/octet-stream");
    let m = mime@;
    if m == "image/"@ + kind {
        assert(m.subrange(0, 6) =~= "image/"@);
    }
    if m == "video/"@ + kind {
        assert(m.subrange(0, 6) =~= "video/"@);
    }
    if scan::starts(m, "image/"@) {
        assert(m.subrange(0, 6)[0] == m[0]);
    }
    if scan::starts(m, "video/"@) {
        assert(m.subrange(0, 6)[0] == m[0]);
    }
    let a = "application/octet-stream"@;
    assert(a.subrange(0, 6)[0] == 'a');
}

/// Media that is not empty and not too large becomes an address that holds all of it.
pub proof fn law_media_url(mime: Seq<char>, bytes: Seq<u8>)
    ensures
        0 < bytes.len() <= 12_582_912 ==> media_url(mime, bytes) == Some(
            "data:"@ + mime + ";base64,"@ + base64_text::encoded(bytes),
        ),
        bytes.len() == 0 || bytes.len() > 12_582_912 ==> media_url(mime, bytes) is None,
{
}

/// The search for a picture: of the one who wrote, of that person asked for anew, and of their list of
/// pictures; what is found is downloaded, and what was downloaded is used.
pub proof fn law_avatar_course()
    ensures
        after_step(AvatarStep::Inspect, true) == AvatarStep::Download,
        after_step(AvatarStep::Inspect, false) == AvatarStep::Refresh,
        after_step(AvatarStep::Refresh, true) == AvatarStep::Download,
        after_step(AvatarStep::Refresh, false) == AvatarStep::List,
        after_step(AvatarStep::Download, true) == AvatarStep::Use,
        after_step(AvatarStep::Download, false) == AvatarStep::List,
        after_step(AvatarStep::List, true) == AvatarStep::DownloadListed,
        after_step(AvatarStep::List, false) == AvatarStep::GiveUp,
        after_step(AvatarStep::DownloadListed, true) == AvatarStep::Use,
        after_step(AvatarStep::DownloadListed, false) == AvatarStep::GiveUp,
{
}

/// While there is room, a picture that is kept leaves the others as they are.
pub proof fn law_pictures_stay(m: Map<i64, Seq<char>>, peer: i64, url: Seq<char>, other: i64)
    requires
        other != peer,
        m.len() < 128 || m.contains_key(peer),
    ensures
        with_picture(m, peer, url).get(other) == m.get(other),
{
}

/// A file may take twelve MiB, and 128 pictures of senders are kept.
pub proof fn law_limits()
    ensures
        MAX_MEDIA_BYTES == 12 * 1024 * 1024,
        MAX_AVATARS == 128,
{
}

} // verus!
