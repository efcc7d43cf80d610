//! What analyzing a URL tells: the media's title, duration, author, and the
//! formats it is offered in, with the video qualities among them.
use vstd::prelude::*;

use crate::format::{quality_height, VideoQuality};
use crate::media_url::{opt_view, MediaUrl};

verus! {

/// One downloadable format of a media.
#[derive(Debug, Clone)]
pub struct FormatOption {
    pub format_id: String,
    pub height: Option<u32>,
    pub has_video: bool,
    pub has_audio: bool,
    pub extension: String,
    pub filesize_approx_bytes: Option<u64>,
    pub note: Option<String>,
}

pub struct FormatView {
    pub format_id: Seq<char>,
    pub height: Option<u32>,
    pub has_video: bool,
    pub has_audio: bool,
    pub extension: Seq<char>,
    pub filesize_approx_bytes: Option<u64>,
    pub note: Option<Seq<char>>,
}

impl View for FormatOption {
    type V = FormatView;

    open spec fn view(&self) -> FormatView {
        FormatView {
            format_id: self.format_id@,
            height: self.height,
            has_video: self.has_video,
            has_audio: self.has_audio,
            extension: self.extension@,
            filesize_approx_bytes: self.filesize_approx_bytes,
            note: opt_view(self.note),
        }
    }
}

pub open spec fn formats_view(v: Seq<FormatOption>) -> Seq<FormatView> {
    v.map_values(|f: FormatOption| f@)
}

/// The concrete qualities, highest first.
pub open spec fn qualities_desc() -> Seq<VideoQuality> {
    seq![
        VideoQuality::P2160,
        VideoQuality::P1440,
        VideoQuality::P1080,
        VideoQuality::P720,
        VideoQuality::P480,
        VideoQuality::P360,
        VideoQuality::P240,
        VideoQuality::P144,
    ]
}

/// Whether some video format has exactly the height of a quality.
pub open spec fn offers_quality(formats: Seq<FormatView>, q: VideoQuality) -> bool {
    exists|i: int|
        0 <= i < formats.len() && #[trigger] formats[i].has_video && formats[i].height
            == quality_height(q) && quality_height(q) is Some
}

/// The qualities of a list that some video format offers, in list order.
pub open spec fn offered_among(formats: Seq<FormatView>, qs: Seq<VideoQuality>) -> Seq<VideoQuality>
    decreases qs.len(),
{
    if qs.len() == 0 {
        seq![]
    } else if offers_quality(formats, qs.last()) {
        offered_among(formats, qs.drop_last()).push(qs.last())
    } else {
        offered_among(formats, qs.drop_last())
    }
}

/// The video qualities a media is offered in, highest first, each once.
pub open spec fn available_qualities(formats: Seq<FormatView>) -> Seq<VideoQuality> {
    offered_among(formats, qualities_desc())
}

/// The result of analyzing a media URL.
#[derive(Debug)]
pub struct ProbeResult {
    pub url: MediaUrl,
    pub title: String,
    pub duration_seconds: Option<u64>,
    pub thumbnail_url: Option<String>,
    pub uploader: Option<String>,
    pub formats: Vec<FormatOption>,
    pub available_video_qualities: Vec<VideoQuality>,
}

fn offers_height(formats: &Vec<FormatOption>, q: VideoQuality) -> (r: bool)
    ensures
        r == offers_quality(formats_view(formats@), q),
{
    let h = q.target_height();
    let mut i: usize = 0;
    while i < formats.len()
        invariant
            i <= formats@.len(),
            h == quality_height(q),
            forall|j: int|
                0 <= j < i ==> !(formats@[j].has_video && formats@[j].height == h && h is Some),
        decreases formats@.len() - i,
    {
        if formats[i].has_video && h.is_some() && formats[i].height == h {
            assert(formats_view(formats@)[i as int].has_video);
            return true;
        }
        i = i + 1;
    }
    proof {
        if offers_quality(formats_view(formats@), q) {
            let j = choose|j: int|
                0 <= j < formats_view(formats@).len() && #[trigger] formats_view(
                    formats@,
                )[j].has_video && formats_view(formats@)[j].height == quality_height(q)
                    && quality_height(q) is Some;
            assert(formats_view(formats@)[j] == formats@[j]@);
        }
    }
    false
}

fn qualities_desc_vec() -> (r: Vec<VideoQuality>)
    ensures
        r@ == qualities_desc(),
{
    let r = vec![
        VideoQuality::P2160,
        VideoQuality::P1440,
        VideoQuality::P1080,
        VideoQuality::P720,
        VideoQuality::P480,
        VideoQuality::P360,
        VideoQuality::P240,
        VideoQuality::P144,
    ];
    assert(r@ =~= qualities_desc());
    r
}

/// The video qualities offered by a list of formats, highest first.
pub fn available_video_qualities(formats: &Vec<FormatOption>) -> (r: Vec<VideoQuality>)
    ensures
        r@ == available_qualities(formats_view(formats@)),
{
    let qs = qualities_desc_vec();
    let mut out: Vec<VideoQuality> = Vec::new();
    let mut i: usize = 0;
    while i < qs.len()
        invariant
            i <= qs@.len(),
            qs@ == qualities_desc(),
            out@ == offered_among(formats_view(formats@), qs@.subrange(0, i as int)),
        decreases qs@.len() - i,
    {
        assert(qs@.subrange(0, i + 1).drop_last() =~= qs@.subrange(0, i as int));
        if offers_height(formats, qs[i]) {
            out.push(qs[i]);
        }
        i = i + 1;
    }
    assert(qs@.subrange(0, qs@.len() as int) =~= qs@);
    out
}

impl ProbeResult {
    /// A probe result; the available video qualities are derived from the
    /// formats.
    pub fn new(
        url: MediaUrl,
        title: String,
        duration_seconds: Option<u64>,
        thumbnail_url: Option<String>,
        uploader: Option<String>,
        formats: Vec<FormatOption>,
    ) -> (r: Self)
        ensures
            r.url@ == url@,
            r.title == title,
            r.duration_seconds == duration_seconds,
            r.thumbnail_url == thumbnail_url,
            r.uploader == uploader,
            r.formats == formats,
            r.available_video_qualities@ == available_qualities(formats_view(formats@)),
    {
        let q = available_video_qualities(&formats);
        ProbeResult {
            url,
            title,
            duration_seconds,
            thumbnail_url,
            uploader,
            formats,
            available_video_qualities: q,
        }
    }

    /// Whether some format carries video.
    pub fn has_video_stream(&self) -> (r: bool)
        ensures
            r == exists|i: int| 0 <= i < self.formats@.len() && #[trigger] self.formats@[i].has_video,
    {
        let mut i: usize = 0;
        while i < self.formats.len()
            invariant
                i <= self.formats@.len(),
                forall|j: int| 0 <= j < i ==> !self.formats@[j].has_video,
            decreases self.formats@.len() - i,
        {
            if self.formats[i].has_video {
                return true;
            }
            i = i + 1;
        }
        false
    }
}

/// The offered qualities are listed highest first, with no repetition.
pub proof fn law_qualities_strictly_descending(formats: Seq<FormatView>)
    ensures
        forall|i: int, j: int|
            0 <= i < j < available_qualities(formats).len() ==> crate::format::quality_rank(
                #[trigger] available_qualities(formats)[i],
            ) > crate::format::quality_rank(#[trigger] available_qualities(formats)[j]),
{
    lemma_offered_sub(formats, qualities_desc());
}

proof fn lemma_offered_sub(formats: Seq<FormatView>, qs: Seq<VideoQuality>)
    requires
        forall|i: int, j: int|
            0 <= i < j < qs.len() ==> crate::format::quality_rank(#[trigger] qs[i])
                > crate::format::quality_rank(#[trigger] qs[j]),
    ensures
        forall|i: int, j: int|
            0 <= i < j < offered_among(formats, qs).len() ==> crate::format::quality_rank(
                #[trigger] offered_among(formats, qs)[i],
            ) > crate::format::quality_rank(#[trigger] offered_among(formats, qs)[j]),
        forall|i: int|
            0 <= i < offered_among(formats, qs).len() ==> exists|k: int|
                0 <= k < qs.len() && #[trigger] offered_among(formats, qs)[i] == qs[k],
    decreases qs.len(),
{
    if qs.len() > 0 {
        let p = qs.drop_last();
        lemma_offered_sub(formats, p);
        let o = offered_among(formats, p);
        if offers_quality(formats, qs.last()) {
            let n = offered_among(formats, qs);
            assert(n == o.push(qs.last()));
            assert forall|i: int| 0 <= i < o.len() implies crate::format::quality_rank(#[trigger] n[i])
                > crate::format::quality_rank(qs.last()) by {
                let k = choose|k: int| 0 <= k < p.len() && o[i] == p[k];
                assert(qs[k] == p[k]);
                assert(crate::format::quality_rank(qs[k]) > crate::format::quality_rank(
                    qs[qs.len() - 1],
                ));
            }
            assert forall|i: int| 0 <= i < n.len() implies exists|k: int|
                0 <= k < qs.len() && #[trigger] n[i] == qs[k] by {
                if i < o.len() {
                    let k = choose|k: int| 0 <= k < p.len() && o[i] == p[k];
                    assert(n[i] == qs[k]);
                } else {
                    assert(n[i] == qs[qs.len() - 1]);
                }
            }
        } else {
            assert forall|i: int| 0 <= i < o.len() implies exists|k: int|
                0 <= k < qs.len() && #[trigger] o[i] == qs[k] by {
                let k = choose|k: int| 0 <= k < p.len() && o[i] == p[k];
                assert(o[i] == qs[k]);
            }
        }
    }
}

} // verus!
