//! The download history: its entries, how an entry is read back from its
//! stored description, the replay of the append-only journal of changes, and
//! the history kept in memory.
use vstd::prelude::*;

use crate::error::{CoreError, DownloadErrorCode, DownloadErrorDetails};
use crate::format::{preset_from_dto, preset_to_dto, DownloadPreset, DownloadPresetDto};
use crate::job::{new_uuid_v4, parse_uuid_text, uuid_hyphenated, uuid_parse, DownloadId};
use crate::media_url::{media_url_parse, url_outcome, MediaUrl};
use crate::service::{check_web_url, is_failure, is_web_url, only_web_urls_message};
use crate::text::{concat3, to_chars, trim, trim_chars, trim_str, from_chars};

verus! {

/// Identifier of a history entry: the 128-bit value of a random UUID.
#[derive(Debug, Clone, Copy, PartialEq, Eq, Hash, Structural)]
pub struct HistoryEntryId(pub u128);

impl HistoryEntryId {
    /// A fresh random identifier: a version 4 UUID.
    pub fn new() -> (id: HistoryEntryId)
        ensures
            crate::job::is_uuid_v4(id.0),
    {
        HistoryEntryId(new_uuid_v4())
    }

    /// The hyphenated UUID text of this identifier.
    pub fn as_str(&self) -> (s: String)
        ensures
            s@ == uuid_hyphenated(self.0),
    {
        crate::job::uuid_hyphenated_text(self.0)
    }

    /// Reads an identifier from its UUID text.
    pub fn try_from_text(text: &str) -> (r: Result<HistoryEntryId, CoreError>)
        ensures
            match uuid_parse(text@) {
                Some(v) => r matches Ok(id) && id.0 == v,
                None => r matches Err(CoreError::ValidationError(m)) && m@ == invalid_entry_id_message(
                    text@,
                ),
            },
    {
        match parse_uuid_text(text) {
            Some(v) => Ok(HistoryEntryId(v)),
            None => Err(CoreError::ValidationError(concat3("Invalid history entry id '", text, "'"))),
        }
    }
}

pub open spec fn invalid_entry_id_message(text: Seq<char>) -> Seq<char> {
    "Invalid history entry id '"@ + text + "'"@
}

/// The abstract content of a history entry.
pub struct HistoryEntryView {
    pub id: HistoryEntryId,
    pub download_id: DownloadId,
    pub source_url: Seq<char>,
    pub title: Seq<char>,
    pub preset: DownloadPreset,
    pub destination_path: Seq<char>,
    pub completed_at: u64,
}

/// What checking the title and destination of an entry gives: both trimmed,
/// or the text of the validation error when one is blank.
pub open spec fn entry_check(title: Seq<char>, destination: Seq<char>) -> Result<
    (Seq<char>, Seq<char>),
    Seq<char>,
> {
    if trim(title).len() == 0 {
        Err("History entry title cannot be empty"@)
    } else if trim(destination).len() == 0 {
        Err("History entry destination path cannot be empty"@)
    } else {
        Ok((trim(title), trim(destination)))
    }
}

/// A completed download recorded in the history.
#[derive(Debug)]
pub struct DownloadHistoryEntry {
    id: HistoryEntryId,
    download_id: DownloadId,
    source_url: MediaUrl,
    title: String,
    preset: DownloadPreset,
    destination_path: String,
    completed_at: u64,
}

impl View for DownloadHistoryEntry {
    type V = HistoryEntryView;

    closed spec fn view(&self) -> HistoryEntryView {
        HistoryEntryView {
            id: self.id,
            download_id: self.download_id,
            source_url: self.source_url@,
            title: self.title@,
            preset: self.preset,
            destination_path: self.destination_path@,
            completed_at: self.completed_at,
        }
    }
}

/// The seconds elapsed since the Unix epoch, from `std::time::SystemTime`.
///
/// Trusted: nothing is claimed of the value, which is the current time.
#[verifier::external_body]
fn unix_now_secs() -> (t: u64) {
    std::time::SystemTime::now().duration_since(std::time::UNIX_EPOCH).map(|d| d.as_secs()).unwrap_or(0)
}

impl DownloadHistoryEntry {
    /// A recorded entry: title and destination trimmed, neither blank.
    pub open spec fn valid(v: HistoryEntryView) -> bool {
        &&& v.title.len() > 0 && trim(v.title) == v.title
        &&& v.destination_path.len() > 0 && trim(v.destination_path) == v.destination_path
    }

    #[verifier::type_invariant]
    spec fn inv(self) -> bool {
        Self::valid(self@)
    }

    /// Rebuilds an entry from its parts, checking its title and destination.
    pub fn reconstruct(
        id: HistoryEntryId,
        download_id: DownloadId,
        source_url: MediaUrl,
        title: String,
        preset: DownloadPreset,
        destination_path: String,
        completed_at: u64,
    ) -> (r: Result<Self, CoreError>)
        ensures
            match entry_check(title@, destination_path@) {
                Err(m) => r matches Err(CoreError::ValidationError(x)) && x@ == m,
                Ok((t, d)) => r matches Ok(e) && e@ == (HistoryEntryView {
                    id,
                    download_id,
                    source_url: source_url@,
                    title: t,
                    preset,
                    destination_path: d,
                    completed_at,
                }),
            },
    {
        let t = trim_str(title.as_str());
        if t.unicode_len() == 0 {
            return Err(
                CoreError::ValidationError(String::from_str("History entry title cannot be empty")),
            );
        }
        let d = trim_str(destination_path.as_str());
        if d.unicode_len() == 0 {
            return Err(
                CoreError::ValidationError(
                    String::from_str("History entry destination path cannot be empty"),
                ),
            );
        }
        proof {
            crate::text::lemma_trim_idempotent(title@);
            crate::text::lemma_trim_idempotent(destination_path@);
        }
        Ok(
            DownloadHistoryEntry {
                id,
                download_id,
                source_url,
                title: t,
                preset,
                destination_path: d,
                completed_at,
            },
        )
    }

    /// A new entry with a fresh identifier, completed at the given time (the
    /// current time when none is given).
    pub fn new(
        download_id: DownloadId,
        source_url: MediaUrl,
        title: String,
        preset: DownloadPreset,
        destination_path: String,
        completed_at: Option<u64>,
    ) -> (r: Result<Self, CoreError>)
        ensures
            match entry_check(title@, destination_path@) {
                Err(m) => r matches Err(CoreError::ValidationError(x)) && x@ == m,
                Ok((t, d)) => r matches Ok(e) && e@.download_id == download_id && e@.source_url
                    == source_url@ && e@.title == t && e@.preset == preset && e@.destination_path
                    == d && (completed_at matches Some(c) ==> e@.completed_at == c),
            },
    {
        let at = match completed_at {
            Some(c) => c,
            None => unix_now_secs(),
        };
        Self::reconstruct(
            HistoryEntryId::new(),
            download_id,
            source_url,
            title,
            preset,
            destination_path,
            at,
        )
    }

    pub fn id(&self) -> (r: HistoryEntryId)
        ensures
            r == self@.id,
    {
        self.id
    }

    pub fn download_id(&self) -> (r: DownloadId)
        ensures
            r == self@.download_id,
    {
        self.download_id
    }

    pub fn source_url(&self) -> (r: &MediaUrl)
        ensures
            r@ == self@.source_url,
    {
        &self.source_url
    }

    pub fn title(&self) -> (r: &str)
        ensures
            r@ == self@.title,
    {
        self.title.as_str()
    }

    pub fn preset(&self) -> (r: DownloadPreset)
        ensures
            r == self@.preset,
    {
        self.preset
    }

    pub fn destination_path(&self) -> (r: &str)
        ensures
            r@ == self@.destination_path,
    {
        self.destination_path.as_str()
    }

    pub fn completed_at(&self) -> (r: u64)
        ensures
            r == self@.completed_at,
    {
        self.completed_at
    }

    /// A field-by-field copy.
    pub fn duplicate(&self) -> (r: Self)
        ensures
            r@ == self@,
    {
        proof {
            use_type_invariant(self);
        }
        DownloadHistoryEntry {
            id: self.id,
            download_id: self.download_id,
            source_url: self.source_url.duplicate(),
            title: self.title.clone(),
            preset: self.preset,
            destination_path: self.destination_path.clone(),
            completed_at: self.completed_at,
        }
    }
}

/// The stored description of a history entry.
#[derive(Debug, Clone)]
pub struct DownloadHistoryEntryDto {
    pub id: String,
    pub download_id: String,
    pub source_url: String,
    pub title: String,
    pub preset: DownloadPresetDto,
    pub destination_path: String,
    pub completed_at: u64,
}

pub struct DownloadHistoryEntryDtoView {
    pub id: Seq<char>,
    pub download_id: Seq<char>,
    pub source_url: Seq<char>,
    pub title: Seq<char>,
    pub preset: DownloadPresetDto,
    pub destination_path: Seq<char>,
    pub completed_at: u64,
}

impl View for DownloadHistoryEntryDto {
    type V = DownloadHistoryEntryDtoView;

    open spec fn view(&self) -> DownloadHistoryEntryDtoView {
        DownloadHistoryEntryDtoView {
            id: self.id@,
            download_id: self.download_id@,
            source_url: self.source_url@,
            title: self.title@,
            preset: self.preset,
            destination_path: self.destination_path@,
            completed_at: self.completed_at,
        }
    }
}

/// The entry a description gives, when every part of it is valid.
pub open spec fn entry_from_dto_spec(d: DownloadHistoryEntryDtoView) -> Option<HistoryEntryView> {
    match (
        uuid_parse(d.id),
        uuid_parse(d.download_id),
        media_url_parse(d.source_url),
        preset_from_dto(d.preset),
        entry_check(d.title, d.destination_path),
    ) {
        (Some(i), Some(j), Ok(u), Ok(p), Ok((t, dest))) => Some(
            HistoryEntryView {
                id: HistoryEntryId(i),
                download_id: DownloadId(j),
                source_url: u,
                title: t,
                preset: p,
                destination_path: dest,
                completed_at: d.completed_at,
            },
        ),
        _ => None,
    }
}

/// The description of an entry.
pub open spec fn entry_to_dto_spec(e: HistoryEntryView) -> DownloadHistoryEntryDtoView {
    DownloadHistoryEntryDtoView {
        id: uuid_hyphenated(e.id.0),
        download_id: uuid_hyphenated(e.download_id.0),
        source_url: e.source_url,
        title: e.title,
        preset: preset_to_dto(e.preset),
        destination_path: e.destination_path,
        completed_at: e.completed_at,
    }
}

impl DownloadHistoryEntryDto {
    /// The stored description of an entry.
    pub fn from_entry(entry: &DownloadHistoryEntry) -> (r: Self)
        ensures
            r@ == entry_to_dto_spec(entry@),
    {
        DownloadHistoryEntryDto {
            id: entry.id().as_str(),
            download_id: entry.download_id().to_text(),
            source_url: entry.source_url().to_string(),
            title: String::from_str(entry.title()),
            preset: DownloadPresetDto::from(&entry.preset()),
            destination_path: String::from_str(entry.destination_path()),
            completed_at: entry.completed_at(),
        }
    }
}

impl DownloadHistoryEntry {
    /// Reads an entry back from its stored description: its identifiers, its
    /// URL and its preset must be valid, and its title and destination not
    /// blank; the first invalid part gives the error.
    pub fn try_from_dto(dto: DownloadHistoryEntryDto) -> (r: Result<Self, CoreError>)
        ensures
            match entry_from_dto_spec(dto@) {
                Some(v) => r matches Ok(e) && e@ == v,
                None => r is Err,
            },
            uuid_parse(dto@.id) is None ==> (r matches Err(CoreError::ValidationError(m)) && m@
                == invalid_entry_id_message(dto@.id)),
    {
        let id = match HistoryEntryId::try_from_text(dto.id.as_str()) {
            Ok(i) => i,
            Err(e) => {
                return Err(e);
            },
        };
        let download_id = match DownloadId::try_from_text(dto.download_id.as_str()) {
            Ok(i) => i,
            Err(e) => {
                return Err(e);
            },
        };
        let url = match MediaUrl::parse(dto.source_url.as_str()) {
            Ok(u) => u,
            Err(e) => {
                return Err(e);
            },
        };
        let preset = match DownloadPreset::try_from(dto.preset) {
            Ok(p) => p,
            Err(e) => {
                return Err(e);
            },
        };
        Self::reconstruct(
            id,
            download_id,
            url,
            dto.title,
            preset,
            dto.destination_path,
            dto.completed_at,
        )
    }
}

/// An entry survives the trip through its stored description, given that its
/// URL reads back as itself.
pub proof fn law_entry_dto_round_trip(e: HistoryEntryView)
    requires
        DownloadHistoryEntry::valid(e),
        e.preset.wf(),
        media_url_parse(e.source_url) == Ok::<Seq<char>, (crate::media_url::UrlErrorKind, Seq<char>)>(
            e.source_url,
        ),
        uuid_parse(uuid_hyphenated(e.id.0)) == Some(e.id.0),
        uuid_parse(uuid_hyphenated(e.download_id.0)) == Some(e.download_id.0),
    ensures
        entry_from_dto_spec(entry_to_dto_spec(e)) == Some(e),
{
    crate::format::law_preset_dto_round_trip(e.preset);
}


pub open spec fn entry_views(v: Seq<DownloadHistoryEntry>) -> Seq<HistoryEntryView> {
    v.map_values(|e: DownloadHistoryEntry| e@)
}

/// Entries inserted one by one, each after the entries completed at the same
/// time or later: a stable sort, most recent first.
pub open spec fn insert_by_recency(s: Seq<HistoryEntryView>, x: HistoryEntryView) -> Seq<
    HistoryEntryView,
>
    decreases s.len(),
{
    if s.len() == 0 {
        seq![x]
    } else if s.last().completed_at >= x.completed_at {
        s.push(x)
    } else {
        insert_by_recency(s.drop_last(), x).push(s.last())
    }
}

pub open spec fn sort_by_recency(s: Seq<HistoryEntryView>) -> Seq<HistoryEntryView>
    decreases s.len(),
{
    if s.len() == 0 {
        s
    } else {
        insert_by_recency(sort_by_recency(s.drop_last()), s.last())
    }
}

pub open spec fn most_recent_first(s: Seq<HistoryEntryView>) -> bool {
    forall|i: int, j: int| 0 <= i < j < s.len() ==> s[i].completed_at >= s[j].completed_at
}

proof fn lemma_insert_position(s: Seq<HistoryEntryView>, x: HistoryEntryView, j: int)
    requires
        0 <= j <= s.len(),
        forall|k: int| j <= k < s.len() ==> #[trigger] s[k].completed_at < x.completed_at,
        j == 0 || s[j - 1].completed_at >= x.completed_at,
    ensures
        insert_by_recency(s, x) == s.insert(j, x),
    decreases s.len(),
{
    if s.len() == 0 {
        assert(s.insert(j, x) =~= seq![x]);
    } else if j == s.len() {
        assert(s.insert(j, x) =~= s.push(x));
    } else {
        let t = s.drop_last();
        assert(s.last().completed_at < x.completed_at);
        lemma_insert_position(t, x, j);
        assert(t.insert(j, x).push(s.last()) =~= s.insert(j, x));
    }
}

proof fn lemma_insert_keeps_order(s: Seq<HistoryEntryView>, x: HistoryEntryView)
    requires
        most_recent_first(s),
    ensures
        most_recent_first(insert_by_recency(s, x)),
        insert_by_recency(s, x).to_multiset() == s.to_multiset().insert(x),
        insert_by_recency(s, x).len() == s.len() + 1,
    decreases s.len(),
{
    broadcast use vstd::seq_lib::to_multiset_build;

    if s.len() == 0 {
        assert(seq![x] =~= s.push(x));
    } else if s.last().completed_at >= x.completed_at {
    } else {
        let t = s.drop_last();
        assert(most_recent_first(t));
        lemma_insert_keeps_order(t, x);
        let u = insert_by_recency(t, x);
        assert(s =~= t.push(s.last()));
        assert forall|i: int, j: int|
            0 <= i < j < u.push(s.last()).len() implies u.push(s.last())[i].completed_at >= u.push(
            s.last(),
        )[j].completed_at by {
            if j == u.len() {
                assert(u.to_multiset().count(u[i]) > 0) by {
                    broadcast use vstd::seq_lib::to_multiset_contains;

                    assert(u.contains(u[i]));
                }
                assert(t.to_multiset().insert(x).count(u[i]) > 0);
                if u[i] != x {
                    assert(t.to_multiset().count(u[i]) > 0);
                    assert(t.contains(u[i])) by {
                        broadcast use vstd::seq_lib::to_multiset_contains;

                    }
                    let k = choose|k: int| 0 <= k < t.len() && t[k] == u[i];
                    assert(s[k] == t[k]);
                    assert(s[k].completed_at >= s[s.len() - 1].completed_at);
                }
            }
        }
        assert(s.to_multiset() == t.to_multiset().insert(s.last()));
        assert(u.push(s.last()).to_multiset() == u.to_multiset().insert(s.last()));
        assert(t.to_multiset().insert(x).insert(s.last()) =~= t.to_multiset().insert(
            s.last(),
        ).insert(x));
    }
}

/// Sorting keeps every entry and lists them most recent first.
pub proof fn law_sort_by_recency(s: Seq<HistoryEntryView>)
    ensures
        most_recent_first(sort_by_recency(s)),
        sort_by_recency(s).to_multiset() == s.to_multiset(),
    decreases s.len(),
{
    broadcast use vstd::seq_lib::to_multiset_build;

    if s.len() == 0 {
    } else {
        law_sort_by_recency(s.drop_last());
        lemma_insert_keeps_order(sort_by_recency(s.drop_last()), s.last());
        assert(s =~= s.drop_last().push(s.last()));
    }
}

fn insert_entry(out: &mut Vec<DownloadHistoryEntry>, x: DownloadHistoryEntry)
    ensures
        entry_views(final(out)@) == insert_by_recency(entry_views(old(out)@), x@),
{
    let ghost before = entry_views(out@);
    let mut j: usize = out.len();
    while j > 0 && out[j - 1].completed_at() < x.completed_at()
        invariant
            j <= out@.len(),
            before == entry_views(out@),
            forall|k: int| j <= k < out@.len() ==> #[trigger] before[k].completed_at < x@.completed_at,
        decreases j,
    {
        j = j - 1;
    }
    proof {
        if j > 0 {
            assert(before[j - 1] == out@[j - 1]@);
        }
        lemma_insert_position(before, x@, j as int);
    }
    let ghost xv = x@;
    out.insert(j, x);
    assert(entry_views(out@) =~= before.insert(j as int, xv));
}

/// Sorts entries most recent first, keeping the order of entries completed
/// at the same time.
pub fn sort_most_recent_first(entries: Vec<DownloadHistoryEntry>) -> (r: Vec<DownloadHistoryEntry>)
    ensures
        entry_views(r@) == sort_by_recency(entry_views(entries@)),
{
    let ghost ev = entry_views(entries@);
    let mut out: Vec<DownloadHistoryEntry> = Vec::new();
    let mut rest = entries;
    let mut taken: Vec<DownloadHistoryEntry> = Vec::new();
    let mut i: usize = 0;
    let n = rest.len();
    assert(entry_views(out@) =~= sort_by_recency(ev.subrange(0, 0)));
    while i < n
        invariant
            n == ev.len(),
            i <= n,
            entry_views(rest@) == ev,
            entry_views(out@) == sort_by_recency(ev.subrange(0, i as int)),
        decreases n - i,
    {
        assert(ev.subrange(0, i + 1).drop_last() =~= ev.subrange(0, i as int));
        assert(ev[i as int] == rest@[i as int]@);
        let e = rest[i].duplicate();
        insert_entry(&mut out, e);
        i = i + 1;
    }
    assert(ev.subrange(0, n as int) =~= ev);
    out
}

/// An operation of the history journal, with the schema version it was
/// written with.
#[derive(Debug)]
pub enum HistoryJournalOp {
    Upsert { v: u32, entry: DownloadHistoryEntryDto },
    Remove { v: u32, id: String },
}

/// The schema version of journal operations.
pub const HISTORY_SCHEMA_VERSION: u32 = 1;

impl HistoryJournalOp {
    /// The operation recording an entry.
    pub fn upsert(entry: &DownloadHistoryEntry) -> (r: Self)
        ensures
            r matches HistoryJournalOp::Upsert { v, entry: d } && v == HISTORY_SCHEMA_VERSION
                && d@ == entry_to_dto_spec(entry@),
    {
        HistoryJournalOp::Upsert {
            v: HISTORY_SCHEMA_VERSION,
            entry: DownloadHistoryEntryDto::from_entry(entry),
        }
    }

    /// The operation forgetting an entry.
    pub fn remove(id: HistoryEntryId) -> (r: Self)
        ensures
            r matches HistoryJournalOp::Remove { v, id: t } && v == HISTORY_SCHEMA_VERSION && t@
                == uuid_hyphenated(id.0),
    {
        HistoryJournalOp::Remove { v: HISTORY_SCHEMA_VERSION, id: id.as_str() }
    }

    /// The operations recording the entries of a legacy history document,
    /// in order.
    pub fn from_legacy(entries: Vec<DownloadHistoryEntryDto>) -> (r: Vec<Self>)
        ensures
            r@.len() == entries@.len(),
            forall|i: int|
                0 <= i < r@.len() ==> (#[trigger] r@[i] matches HistoryJournalOp::Upsert { v, entry }
                    && v == HISTORY_SCHEMA_VERSION && entry@ == entries@[i]@),
    {
        let mut r: Vec<Self> = Vec::new();
        let mut i: usize = 0;
        while i < entries.len()
            invariant
                i <= entries@.len(),
                r@.len() == i,
                forall|j: int|
                    0 <= j < i ==> (#[trigger] r@[j] matches HistoryJournalOp::Upsert { v, entry }
                        && v == HISTORY_SCHEMA_VERSION && entry@ == entries@[j]@),
            decreases entries@.len() - i,
        {
            r.push(HistoryJournalOp::Upsert { v: HISTORY_SCHEMA_VERSION, entry: entries[i].duplicate() });
            i = i + 1;
        }
        r
    }
}

/// A line of the history journal and what reading it as an operation gave
/// (the parse error's text when it is not one).
#[derive(Debug)]
pub struct JournalLine {
    pub text: String,
    pub op: Result<HistoryJournalOp, String>,
}

/// The live entries, in the order they were first recorded, after an
/// upsert: entries of the same download are dropped, then the entry replaces
/// the one with its identifier or is added.
pub open spec fn upsert_live(live: Seq<HistoryEntryView>, e: HistoryEntryView) -> Seq<HistoryEntryView> {
    let kept = live.filter(|x: HistoryEntryView| x.download_id != e.download_id);
    match find_entry(kept, e.id) {
        Some(k) => kept.update(k, e),
        None => kept.push(e),
    }
}

/// The live entries without the one whose identifier has the given text.
pub open spec fn remove_live(live: Seq<HistoryEntryView>, id: Seq<char>) -> Seq<HistoryEntryView> {
    live.filter(|x: HistoryEntryView| uuid_hyphenated(x.id.0) != id)
}

/// Index of the entry with an identifier.
pub open spec fn find_entry(s: Seq<HistoryEntryView>, id: HistoryEntryId) -> Option<int>
    decreases s.len(),
{
    if s.len() == 0 {
        None
    } else {
        match find_entry(s.drop_last(), id) {
            Some(k) => Some(k),
            None => if s.last().id == id {
                Some(s.len() - 1)
            } else {
                None
            },
        }
    }
}

/// The state of a replay: live entries, operations read, lines rejected.
pub struct ReplayView {
    pub live: Seq<HistoryEntryView>,
    pub op_count: nat,
    pub rejected: Seq<Seq<char>>,
}

pub struct JournalLineView {
    pub text: Seq<char>,
    pub op: Option<JournalOpView>,
}

pub enum JournalOpView {
    Upsert(DownloadHistoryEntryDtoView),
    Remove(Seq<char>),
}

pub open spec fn line_view(l: JournalLine) -> JournalLineView {
    JournalLineView {
        text: l.text@,
        op: match l.op {
            Ok(HistoryJournalOp::Upsert { entry, .. }) => Some(JournalOpView::Upsert(entry@)),
            Ok(HistoryJournalOp::Remove { id, .. }) => Some(JournalOpView::Remove(id@)),
            Err(_) => None,
        },
    }
}

pub open spec fn lines_view(v: Seq<JournalLine>) -> Seq<JournalLineView> {
    v.map_values(|l: JournalLine| line_view(l))
}

/// One journal line replayed: blank lines are skipped; an entry that is not
/// valid, or a line that is not an operation, is rejected, except a broken
/// last line, left by an interrupted write, which is ignored.
pub open spec fn replay_step(st: ReplayView, l: JournalLineView, is_last: bool) -> ReplayView {
    let t = trim(l.text);
    if t.len() == 0 {
        st
    } else {
        let st = ReplayView { op_count: st.op_count + 1, ..st };
        match l.op {
            Some(JournalOpView::Upsert(d)) => match entry_from_dto_spec(d) {
                Some(e) => ReplayView { live: upsert_live(st.live, e), ..st },
                None => ReplayView { rejected: st.rejected.push(t), ..st },
            },
            Some(JournalOpView::Remove(id)) => ReplayView { live: remove_live(st.live, id), ..st },
            None => if is_last {
                st
            } else {
                ReplayView { rejected: st.rejected.push(t), ..st }
            },
        }
    }
}

/// The replay of the first lines of a journal of `total` lines.
pub open spec fn replay_spec(lines: Seq<JournalLineView>, total: nat) -> ReplayView
    decreases lines.len(),
{
    if lines.len() == 0 {
        ReplayView { live: seq![], op_count: 0, rejected: seq![] }
    } else {
        replay_step(
            replay_spec(lines.drop_last(), total),
            lines.last(),
            lines.len() == total,
        )
    }
}

/// No two entries share an identifier or a download.
pub open spec fn distinct_keys(s: Seq<HistoryEntryView>) -> bool {
    forall|i: int, j: int|
        0 <= i < j < s.len() ==> (#[trigger] s[i]).id != (#[trigger] s[j]).id && s[i].download_id
            != s[j].download_id
}

/// An entry whose keys differ from those of every entry of a sequence.
pub open spec fn keys_differ(s: Seq<HistoryEntryView>, x: HistoryEntryView) -> bool {
    forall|k: int| 0 <= k < s.len() ==> (#[trigger] s[k]).id != x.id && s[k].download_id != x.download_id
}

proof fn lemma_find_entry_result(s: Seq<HistoryEntryView>, id: HistoryEntryId)
    ensures
        find_entry(s, id) matches Some(k) ==> 0 <= k < s.len() && s[k].id == id,
        find_entry(s, id) is None ==> forall|j: int| 0 <= j < s.len() ==> (#[trigger] s[j]).id != id,
    decreases s.len(),
{
    if s.len() > 0 {
        lemma_find_entry_result(s.drop_last(), id);
        assert forall|j: int| 0 <= j < s.len() - 1 implies s[j] == #[trigger] s.drop_last()[j] by {}
        if find_entry(s, id) is None {
            assert forall|j: int| 0 <= j < s.len() implies (#[trigger] s[j]).id != id by {
                if j < s.len() - 1 {
                    assert(s[j] == s.drop_last()[j]);
                }
            }
        }
    }
}

proof fn lemma_filter_distinct(s: Seq<HistoryEntryView>, f: spec_fn(HistoryEntryView) -> bool)
    requires
        distinct_keys(s),
    ensures
        distinct_keys(s.filter(f)),
        forall|k: int| 0 <= k < s.filter(f).len() ==> s.contains(#[trigger] s.filter(f)[k]),
    decreases s.len(),
{
    reveal(Seq::filter);
    if s.len() > 0 {
        let d = s.drop_last();
        assert(distinct_keys(d)) by {
            assert forall|i: int, j: int| 0 <= i < j < d.len() implies (#[trigger] d[i]).id != (
            #[trigger] d[j]).id && d[i].download_id != d[j].download_id by {
                assert(d[i] == s[i] && d[j] == s[j]);
            }
        }
        lemma_filter_distinct(d, f);
        let fd = d.filter(f);
        let x = s.last();
        assert forall|k: int| 0 <= k < fd.len() implies s.contains(#[trigger] fd[k]) by {
            assert(d.contains(fd[k]));
            let m = choose|m: int| 0 <= m < d.len() && d[m] == fd[k];
            assert(s[m] == d[m]);
        }
        if f(x) {
            let r = fd.push(x);
            assert forall|i: int, j: int| 0 <= i < j < r.len() implies (#[trigger] r[i]).id != (
            #[trigger] r[j]).id && r[i].download_id != r[j].download_id by {
                if j == fd.len() {
                    assert(d.contains(fd[i]));
                    let m = choose|m: int| 0 <= m < d.len() && d[m] == fd[i];
                    assert(s[m] == fd[i]);
                    assert(s[s.len() - 1] == x);
                } else {
                    assert(r[i] == fd[i] && r[j] == fd[j]);
                }
            }
            assert forall|k: int| 0 <= k < r.len() implies s.contains(#[trigger] r[k]) by {
                if k == fd.len() {
                    assert(s[s.len() - 1] == r[k]);
                } else {
                    assert(r[k] == fd[k]);
                }
            }
        }
    }
}

proof fn lemma_insert_distinct(s: Seq<HistoryEntryView>, x: HistoryEntryView)
    requires
        distinct_keys(s),
        keys_differ(s, x),
    ensures
        distinct_keys(insert_by_recency(s, x)),
        forall|k: int|
            0 <= k < insert_by_recency(s, x).len() ==> (#[trigger] insert_by_recency(s, x)[k] == x
                || s.contains(insert_by_recency(s, x)[k])),
    decreases s.len(),
{
    let r = insert_by_recency(s, x);
    if s.len() == 0 {
    } else if s.last().completed_at >= x.completed_at {
        assert forall|k: int| 0 <= k < r.len() implies (#[trigger] r[k] == x || s.contains(r[k])) by {
            if k < s.len() {
                assert(r[k] == s[k]);
            }
        }
    } else {
        let d = s.drop_last();
        assert(distinct_keys(d)) by {
            assert forall|i: int, j: int| 0 <= i < j < d.len() implies (#[trigger] d[i]).id != (
            #[trigger] d[j]).id && d[i].download_id != d[j].download_id by {
                assert(d[i] == s[i] && d[j] == s[j]);
            }
        }
        assert(keys_differ(d, x)) by {
            assert forall|k: int| 0 <= k < d.len() implies (#[trigger] d[k]).id != x.id
                && d[k].download_id != x.download_id by {
                assert(d[k] == s[k]);
            }
        }
        lemma_insert_distinct(d, x);
        let u = insert_by_recency(d, x);
        let last = s.last();
        assert(r == u.push(last));
        assert forall|k: int| 0 <= k < u.len() implies (#[trigger] u[k]).id != last.id
            && u[k].download_id != last.download_id by {
            if u[k] != x {
                assert(d.contains(u[k]));
                let m = choose|m: int| 0 <= m < d.len() && d[m] == u[k];
                assert(s[m] == d[m]);
                assert(s[s.len() - 1] == last);
            } else {
                assert(s[s.len() - 1] == last);
            }
        }
        assert forall|i: int, j: int| 0 <= i < j < r.len() implies (#[trigger] r[i]).id != (
        #[trigger] r[j]).id && r[i].download_id != r[j].download_id by {
            if j == u.len() {
                assert(r[i] == u[i]);
            } else {
                assert(r[i] == u[i] && r[j] == u[j]);
            }
        }
        assert forall|k: int| 0 <= k < r.len() implies (#[trigger] r[k] == x || s.contains(r[k])) by {
            if k == u.len() {
                assert(s[s.len() - 1] == r[k]);
            } else {
                assert(r[k] == u[k]);
                if u[k] != x {
                    let m = choose|m: int| 0 <= m < d.len() && d[m] == u[k];
                    assert(s[m] == d[m]);
                }
            }
        }
    }
}

proof fn lemma_sort_distinct(s: Seq<HistoryEntryView>)
    requires
        distinct_keys(s),
    ensures
        distinct_keys(sort_by_recency(s)),
        forall|k: int| 0 <= k < sort_by_recency(s).len() ==> s.contains(#[trigger] sort_by_recency(s)[k]),
    decreases s.len(),
{
    if s.len() > 0 {
        let d = s.drop_last();
        assert(distinct_keys(d)) by {
            assert forall|i: int, j: int| 0 <= i < j < d.len() implies (#[trigger] d[i]).id != (
            #[trigger] d[j]).id && d[i].download_id != d[j].download_id by {
                assert(d[i] == s[i] && d[j] == s[j]);
            }
        }
        lemma_sort_distinct(d);
        let sd = sort_by_recency(d);
        let x = s.last();
        assert(keys_differ(sd, x)) by {
            assert forall|k: int| 0 <= k < sd.len() implies (#[trigger] sd[k]).id != x.id
                && sd[k].download_id != x.download_id by {
                assert(d.contains(sd[k]));
                let m = choose|m: int| 0 <= m < d.len() && d[m] == sd[k];
                assert(s[m] == d[m]);
                assert(s[s.len() - 1] == x);
            }
        }
        lemma_insert_distinct(sd, x);
        let r = sort_by_recency(s);
        assert forall|k: int| 0 <= k < r.len() implies s.contains(#[trigger] r[k]) by {
            if r[k] == x {
                assert(s[s.len() - 1] == x);
            } else {
                assert(sd.contains(r[k]));
                let m = choose|m: int| 0 <= m < sd.len() && sd[m] == r[k];
                assert(d.contains(sd[m]));
                let q = choose|q: int| 0 <= q < d.len() && d[q] == sd[m];
                assert(s[q] == d[q]);
            }
        }
    }
}

proof fn lemma_upsert_distinct(live: Seq<HistoryEntryView>, e: HistoryEntryView)
    requires
        distinct_keys(live),
    ensures
        distinct_keys(upsert_live(live, e)),
{
    let f = |x: HistoryEntryView| x.download_id != e.download_id;
    let kept = live.filter(f);
    lemma_filter_distinct(live, f);
    kept.filter_lemma(f);
    assert forall|k: int| 0 <= k < kept.len() implies (#[trigger] kept[k]).download_id
        != e.download_id by {
        assert(f(kept[k]));
    }
    lemma_find_entry_result(kept, e.id);
    let r = upsert_live(live, e);
    match find_entry(kept, e.id) {
        Some(k) => {
            assert(r == kept.update(k, e));
            assert forall|i: int, j: int| 0 <= i < j < r.len() implies (#[trigger] r[i]).id != (
            #[trigger] r[j]).id && r[i].download_id != r[j].download_id by {
                if i == k {
                    assert(r[j] == kept[j]);
                } else if j == k {
                    assert(r[i] == kept[i]);
                } else {
                    assert(r[i] == kept[i] && r[j] == kept[j]);
                }
            }
        },
        None => {
            assert(r == kept.push(e));
            assert forall|i: int, j: int| 0 <= i < j < r.len() implies (#[trigger] r[i]).id != (
            #[trigger] r[j]).id && r[i].download_id != r[j].download_id by {
                assert(r[i] == kept[i]);
                if j < kept.len() {
                    assert(r[j] == kept[j]);
                }
            }
        },
    }
}

proof fn lemma_replay_distinct(lines: Seq<JournalLineView>, total: nat)
    ensures
        distinct_keys(replay_spec(lines, total).live),
    decreases lines.len(),
{
    if lines.len() > 0 {
        lemma_replay_distinct(lines.drop_last(), total);
        let st = replay_spec(lines.drop_last(), total);
        let l = lines.last();
        match l.op {
            Some(JournalOpView::Upsert(d)) => match entry_from_dto_spec(d) {
                Some(e) => lemma_upsert_distinct(st.live, e),
                None => {},
            },
            Some(JournalOpView::Remove(id)) => {
                lemma_filter_distinct(st.live, |x: HistoryEntryView| uuid_hyphenated(x.id.0) != id);
            },
            None => {},
        }
    }
}

/// The history a journal replays to, as it is loaded, lists the entries
/// most recent first, and no two of them share an identifier or a download.
pub proof fn law_replayed_history_is_sorted_and_keyed(lines: Seq<JournalLineView>, total: nat)
    ensures
        most_recent_first(sort_by_recency(replay_spec(lines, total).live)),
        distinct_keys(sort_by_recency(replay_spec(lines, total).live)),
{
    law_sort_by_recency(replay_spec(lines, total).live);
    lemma_replay_distinct(lines, total);
    lemma_sort_distinct(replay_spec(lines, total).live);
}

/// What replaying the journal gives: the live entries, most recent first,
/// the number of operations read and the rejected lines.
pub struct Replayed {
    pub entries: Vec<DownloadHistoryEntry>,
    pub op_count: usize,
    pub rejected: Vec<String>,
}

fn filter_download(live: Vec<DownloadHistoryEntry>, d: DownloadId) -> (r: Vec<DownloadHistoryEntry>)
    ensures
        entry_views(r@) == entry_views(live@).filter(
            |x: HistoryEntryView| x.download_id != d,
        ),
{
    let ghost lv = entry_views(live@);
    let mut out: Vec<DownloadHistoryEntry> = Vec::new();
    let mut i: usize = 0;
    while i < live.len()
        invariant
            i <= live@.len(),
            lv == entry_views(live@),
            entry_views(out@) == lv.subrange(0, i as int).filter(
                |x: HistoryEntryView| x.download_id != d,
            ),
        decreases live@.len() - i,
    {
        proof {
            let f = |x: HistoryEntryView| x.download_id != d;
            assert(lv.subrange(0, i + 1) =~= lv.subrange(0, i as int).push(lv[i as int]));
            lv.subrange(0, i as int).lemma_filter_push(lv[i as int], f);
        }
        assert(lv[i as int] == live@[i as int]@);
        if live[i].download_id() != d {
            let ghost before = entry_views(out@);
            let e = live[i].duplicate();
            out.push(e);
            assert(entry_views(out@) =~= before.push(lv[i as int]));
        }
        i = i + 1;
    }
    assert(lv.subrange(0, live@.len() as int) =~= lv);
    out
}


proof fn lemma_find_entry(s: Seq<HistoryEntryView>, id: HistoryEntryId, k: int)
    requires
        0 <= k <= s.len(),
        forall|j: int| 0 <= j < k ==> s[j].id != id,
        k < s.len() ==> s[k].id == id,
    ensures
        k < s.len() ==> find_entry(s, id) == Some(k),
        k == s.len() ==> find_entry(s, id) is None,
    decreases s.len(),
{
    if s.len() > 0 {
        let t = s.drop_last();
        if k < s.len() - 1 {
            lemma_find_entry(t, id, k);
        } else if k == s.len() - 1 {
            lemma_find_entry(t, id, k);
        } else {
            lemma_find_entry(t, id, k - 1);
        }
    }
}

fn position_of(v: &Vec<DownloadHistoryEntry>, id: HistoryEntryId) -> (r: Option<usize>)
    ensures
        match r {
            Some(k) => find_entry(entry_views(v@), id) == Some(k as int) && k < v@.len(),
            None => find_entry(entry_views(v@), id) is None,
        },
{
    let ghost ev = entry_views(v@);
    let mut i: usize = 0;
    while i < v.len()
        invariant
            i <= v@.len(),
            ev == entry_views(v@),
            forall|j: int| 0 <= j < i ==> ev[j].id != id,
        decreases v@.len() - i,
    {
        assert(ev[i as int] == v@[i as int]@);
        if v[i].id() == id {
            proof {
                lemma_find_entry(ev, id, i as int);
            }
            return Some(i);
        }
        i = i + 1;
    }
    proof {
        lemma_find_entry(ev, id, i as int);
    }
    None
}

fn upsert_into(live: Vec<DownloadHistoryEntry>, e: DownloadHistoryEntry) -> (r: Vec<
    DownloadHistoryEntry,
>)
    ensures
        entry_views(r@) == upsert_live(entry_views(live@), e@),
{
    let mut kept = filter_download(live, e.download_id());
    let ghost kv = entry_views(kept@);
    let ghost ev = e@;
    match position_of(&kept, e.id()) {
        Some(k) => {
            kept.set(k, e);
            assert(entry_views(kept@) =~= kv.update(k as int, ev));
        },
        None => {
            kept.push(e);
            assert(entry_views(kept@) =~= kv.push(ev));
        },
    }
    kept
}

fn str_equal(a: &str, b: &str) -> (r: bool)
    ensures
        r == (a@ == b@),
{
    let x = to_chars(a);
    let y = to_chars(b);
    if x.len() != y.len() {
        return false;
    }
    let mut i: usize = 0;
    while i < x.len()
        invariant
            x@ == a@,
            y@ == b@,
            x@.len() == y@.len(),
            i <= x@.len(),
            forall|j: int| 0 <= j < i ==> x@[j] == y@[j],
        decreases x@.len() - i,
    {
        if x[i] != y[i] {
            return false;
        }
        i = i + 1;
    }
    assert(x@ =~= y@);
    true
}

fn remove_from(live: Vec<DownloadHistoryEntry>, id: &str) -> (r: Vec<DownloadHistoryEntry>)
    ensures
        entry_views(r@) == remove_live(entry_views(live@), id@),
{
    let ghost lv = entry_views(live@);
    let mut out: Vec<DownloadHistoryEntry> = Vec::new();
    let mut i: usize = 0;
    while i < live.len()
        invariant
            i <= live@.len(),
            lv == entry_views(live@),
            entry_views(out@) == remove_live(lv.subrange(0, i as int), id@),
        decreases live@.len() - i,
    {
        proof {
            let f = |x: HistoryEntryView| uuid_hyphenated(x.id.0) != id@;
            assert(lv.subrange(0, i + 1) =~= lv.subrange(0, i as int).push(lv[i as int]));
            lv.subrange(0, i as int).lemma_filter_push(lv[i as int], f);
        }
        assert(lv[i as int] == live@[i as int]@);
        let text = live[i].id().as_str();
        if !str_equal(text.as_str(), id) {
            let ghost before = entry_views(out@);
            let e = live[i].duplicate();
            out.push(e);
            assert(entry_views(out@) =~= before.push(lv[i as int]));
        }
        i = i + 1;
    }
    assert(lv.subrange(0, live@.len() as int) =~= lv);
    out
}

impl DownloadHistoryEntryDto {
    /// A field-by-field copy.
    pub fn duplicate(&self) -> (r: Self)
        ensures
            r@ == self@,
    {
        DownloadHistoryEntryDto {
            id: self.id.clone(),
            download_id: self.download_id.clone(),
            source_url: self.source_url.clone(),
            title: self.title.clone(),
            preset: self.preset,
            destination_path: self.destination_path.clone(),
            completed_at: self.completed_at,
        }
    }
}

pub open spec fn replay_outcome(r: Replayed, st: ReplayView) -> bool {
    &&& entry_views(r.entries@) == sort_by_recency(st.live)
    &&& r.op_count == st.op_count
    &&& crate::binres::strings_view(r.rejected@) == st.rejected
}

/// Replays the journal: the live entries, most recent first, the number of
/// operations read and the rejected lines.
pub fn replay_journal(lines: &Vec<JournalLine>) -> (r: Replayed)
    ensures
        replay_outcome(r, replay_spec(lines_view(lines@), lines@.len())),
        most_recent_first(entry_views(r.entries@)),
        distinct_keys(entry_views(r.entries@)),
{
    let ghost lv = lines_view(lines@);
    let n = lines.len();
    let mut live: Vec<DownloadHistoryEntry> = Vec::new();
    let mut op_count: usize = 0;
    let mut rejected: Vec<String> = Vec::new();
    let mut i: usize = 0;
    assert(entry_views(live@) =~= Seq::<HistoryEntryView>::empty());
    assert(crate::binres::strings_view(rejected@) =~= Seq::<Seq<char>>::empty());
    while i < n
        invariant
            n == lines@.len(),
            lv == lines_view(lines@),
            i <= n,
            op_count <= i,
            ({
                let st = replay_spec(lv.subrange(0, i as int), n as nat);
                &&& entry_views(live@) == st.live
                &&& op_count == st.op_count
                &&& crate::binres::strings_view(rejected@) == st.rejected
            }),
        decreases n - i,
    {
        assert(lv.subrange(0, i + 1).drop_last() =~= lv.subrange(0, i as int));
        assert(lv[i as int] == line_view(lines@[i as int]));
        let line = &lines[i];
        let t = trim_str(line.text.as_str());
        if t.unicode_len() > 0 {
            op_count = op_count + 1;
            match &line.op {
                Ok(HistoryJournalOp::Upsert { entry, .. }) => {
                    match DownloadHistoryEntry::try_from_dto(entry.duplicate()) {
                        Ok(e) => {
                            let mut old_live: Vec<DownloadHistoryEntry> = Vec::new();
                            std::mem::swap(&mut old_live, &mut live);
                            live = upsert_into(old_live, e);
                        },
                        Err(_) => {
                            let ghost before = crate::binres::strings_view(rejected@);
                            rejected.push(t);
                            assert(crate::binres::strings_view(rejected@) =~= before.push(
                                trim(lv[i as int].text),
                            ));
                        },
                    }
                },
                Ok(HistoryJournalOp::Remove { id, .. }) => {
                    let mut old_live: Vec<DownloadHistoryEntry> = Vec::new();
                            std::mem::swap(&mut old_live, &mut live);
                    live = remove_from(old_live, id.as_str());
                },
                Err(_) => {
                    if i + 1 != n {
                        let ghost before = crate::binres::strings_view(rejected@);
                        rejected.push(t);
                        assert(crate::binres::strings_view(rejected@) =~= before.push(
                            trim(lv[i as int].text),
                        ));
                    }
                },
            }
        }
        i = i + 1;
    }
    assert(lv.subrange(0, n as int) =~= lv);
    proof {
        law_replayed_history_is_sorted_and_keyed(lv, n as nat);
    }
    Replayed { entries: sort_most_recent_first(live), op_count, rejected }
}

/// Whether the journal should be rewritten with only its live entries: it is
/// over 4 MiB, or it holds more than a hundred operations and more than
/// twice as many as live entries plus a hundred.
pub open spec fn should_compact_spec(file_size: u64, op_count: nat, live_count: nat) -> bool {
    file_size > 4 * 1024 * 1024 || (op_count > live_count * 2 + 100 && op_count > 100)
}

pub fn should_compact(file_size: u64, op_count: usize, live_count: usize) -> (r: bool)
    ensures
        r == should_compact_spec(file_size, op_count as nat, live_count as nat),
{
    let ops = op_count as u128;
    let live = live_count as u128;
    file_size > 4 * 1024 * 1024 || (ops > live * 2 + 100 && ops > 100)
}

/// The history kept in memory.
pub struct InMemoryHistory {
    entries: Vec<DownloadHistoryEntry>,
}

impl View for InMemoryHistory {
    type V = Seq<HistoryEntryView>;

    closed spec fn view(&self) -> Seq<HistoryEntryView> {
        entry_views(self.entries@)
    }
}

/// The entries after appending one: it comes first, and replaces any entry
/// with its identifier or of the same download.
pub open spec fn append_spec(s: Seq<HistoryEntryView>, e: HistoryEntryView) -> Seq<HistoryEntryView> {
    seq![e] + s.filter(|x: HistoryEntryView| x.download_id != e.download_id && x.id != e.id)
}

/// The entries after removing the one with an identifier.
pub open spec fn remove_spec(s: Seq<HistoryEntryView>, id: HistoryEntryId) -> Seq<HistoryEntryView> {
    s.filter(|x: HistoryEntryView| x.id != id)
}

impl InMemoryHistory {
    pub fn new() -> (h: Self)
        ensures
            h@ == Seq::<HistoryEntryView>::empty(),
    {
        let h = InMemoryHistory { entries: Vec::new() };
        assert(h@ =~= Seq::<HistoryEntryView>::empty());
        h
    }

    /// Copies of the entries, most recent first.
    pub fn load(&self) -> (r: Vec<DownloadHistoryEntry>)
        ensures
            entry_views(r@) == sort_by_recency(self@),
            most_recent_first(entry_views(r@)),
            distinct_keys(self@) ==> distinct_keys(entry_views(r@)),
    {
        proof {
            law_sort_by_recency(self@);
            if distinct_keys(self@) {
                lemma_sort_distinct(self@);
            }
        }
        let mut copy: Vec<DownloadHistoryEntry> = Vec::new();
        let mut i: usize = 0;
        while i < self.entries.len()
            invariant
                i <= self.entries@.len(),
                entry_views(copy@) == entry_views(self.entries@).subrange(0, i as int),
            decreases self.entries@.len() - i,
        {
            let ghost before = entry_views(copy@);
            assert(entry_views(self.entries@)[i as int] == self.entries@[i as int]@);
            let d = self.entries[i].duplicate();
            copy.push(d);
            assert(entry_views(copy@) =~= before.push(self.entries@[i as int]@));
            assert(entry_views(self.entries@).subrange(0, i + 1) =~= entry_views(
                self.entries@,
            ).subrange(0, i as int).push(self.entries@[i as int]@));
            i = i + 1;
        }
        assert(entry_views(self.entries@).subrange(0, i as int) =~= entry_views(self.entries@));
        sort_most_recent_first(copy)
    }

    /// Replaces all entries, kept most recent first.
    pub fn save(&mut self, entries: Vec<DownloadHistoryEntry>)
        ensures
            final(self)@ == sort_by_recency(entry_views(entries@)),
    {
        self.entries = sort_most_recent_first(entries);
    }

    /// Records an entry first, replacing any entry with its identifier or of
    /// the same download.
    pub fn append(&mut self, entry: DownloadHistoryEntry)
        ensures
            final(self)@ == append_spec(old(self)@, entry@),
    {
        let ghost ev = entry@;
        let ghost sv = self@;
        let d = entry.download_id();
        let id = entry.id();
        let mut kept: Vec<DownloadHistoryEntry> = Vec::new();
        kept.push(entry);
        let mut i: usize = 0;
        assert(entry_views(kept@) =~= seq![ev] + sv.subrange(0, 0).filter(
            |x: HistoryEntryView| x.download_id != ev.download_id && x.id != ev.id,
        ));
        while i < self.entries.len()
            invariant
                i <= self.entries@.len(),
                sv == entry_views(self.entries@),
                d == ev.download_id,
                id == ev.id,
                entry_views(kept@) == seq![ev] + sv.subrange(0, i as int).filter(
                    |x: HistoryEntryView| x.download_id != ev.download_id && x.id != ev.id,
                ),
            decreases self.entries@.len() - i,
        {
            proof {
                let f = |x: HistoryEntryView| x.download_id != ev.download_id && x.id != ev.id;
                assert(sv.subrange(0, i + 1) =~= sv.subrange(0, i as int).push(sv[i as int]));
                sv.subrange(0, i as int).lemma_filter_push(sv[i as int], f);
            }
            assert(sv[i as int] == self.entries@[i as int]@);
            if self.entries[i].download_id() != d && self.entries[i].id() != id {
                let ghost before = entry_views(kept@);
                kept.push(self.entries[i].duplicate());
                assert(entry_views(kept@) =~= before.push(sv[i as int]));
            }
            i = i + 1;
        }
        assert(sv.subrange(0, i as int) =~= sv);
        self.entries = kept;
    }

    /// Forgets the entry with an identifier.
    pub fn remove(&mut self, id: HistoryEntryId)
        ensures
            final(self)@ == remove_spec(old(self)@, id),
    {
        let ghost sv = self@;
        let mut kept: Vec<DownloadHistoryEntry> = Vec::new();
        let mut i: usize = 0;
        while i < self.entries.len()
            invariant
                i <= self.entries@.len(),
                sv == entry_views(self.entries@),
                entry_views(kept@) == sv.subrange(0, i as int).filter(
                    |x: HistoryEntryView| x.id != id,
                ),
            decreases self.entries@.len() - i,
        {
            proof {
                let f = |x: HistoryEntryView| x.id != id;
                assert(sv.subrange(0, i + 1) =~= sv.subrange(0, i as int).push(sv[i as int]));
                sv.subrange(0, i as int).lemma_filter_push(sv[i as int], f);
            }
            assert(sv[i as int] == self.entries@[i as int]@);
            if self.entries[i].id() != id {
                let ghost before = entry_views(kept@);
                kept.push(self.entries[i].duplicate());
                assert(entry_views(kept@) =~= before.push(sv[i as int]));
            }
            i = i + 1;
        }
        assert(sv.subrange(0, i as int) =~= sv);
        self.entries = kept;
    }
}

/// A read after an append finds the appended entry, first.
pub proof fn law_append_then_find(s: Seq<HistoryEntryView>, e: HistoryEntryView)
    ensures
        find_entry(append_spec(s, e), e.id) == Some(0int),
        append_spec(s, e)[0] == e,
{
    let a = append_spec(s, e);
    let f = |x: HistoryEntryView| x.download_id != e.download_id && x.id != e.id;
    s.filter_lemma(f);
    assert forall|j: int| 0 < j < a.len() implies a[j].id != e.id by {
        assert(a[j] == s.filter(f)[j - 1]);
    }
    lemma_find_entry(a, e.id, 0);
}

proof fn lemma_filter_twice(s: Seq<HistoryEntryView>, f: spec_fn(HistoryEntryView) -> bool)
    ensures
        s.filter(f).filter(f) == s.filter(f),
    decreases s.len(),
{
    reveal(Seq::filter);
    if s.len() > 0 {
        lemma_filter_twice(s.drop_last(), f);
        let sub = s.drop_last().filter(f);
        if f(s.last()) {
            assert(sub.push(s.last()).drop_last() =~= sub);
        }
    }
}

/// Appending is idempotent: appending the same entry twice leaves the
/// history as one append does.
pub proof fn law_append_idempotent(s: Seq<HistoryEntryView>, e: HistoryEntryView)
    ensures
        append_spec(append_spec(s, e), e) == append_spec(s, e),
{
    let f = |x: HistoryEntryView| x.download_id != e.download_id && x.id != e.id;
    let kept = s.filter(f);
    kept.lemma_filter_prepend(e, f);
    lemma_filter_twice(s, f);
    assert(Seq::<HistoryEntryView>::empty() + kept =~= kept);
}

/// Appending and removing keep the history keyed: when no two entries share
/// an identifier or a download, none do after an append or a removal.
pub proof fn law_history_ops_keep_keys(s: Seq<HistoryEntryView>, e: HistoryEntryView, id: HistoryEntryId)
    requires
        distinct_keys(s),
    ensures
        distinct_keys(append_spec(s, e)),
        distinct_keys(remove_spec(s, id)),
{
    let f = |x: HistoryEntryView| x.download_id != e.download_id && x.id != e.id;
    let kept = s.filter(f);
    lemma_filter_distinct(s, f);
    kept.filter_lemma(f);
    let a = append_spec(s, e);
    assert(a == seq![e] + kept);
    assert forall|i: int, j: int| 0 <= i < j < a.len() implies (#[trigger] a[i]).id != (
    #[trigger] a[j]).id && a[i].download_id != a[j].download_id by {
        assert(a[j] == kept[j - 1]);
        assert(f(kept[j - 1]));
        if i > 0 {
            assert(a[i] == kept[i - 1]);
        }
    }
    lemma_filter_distinct(s, |x: HistoryEntryView| x.id != id);
}

/// After a removal no entry has the removed identifier.
pub proof fn law_remove_forgets(s: Seq<HistoryEntryView>, id: HistoryEntryId)
    ensures
        find_entry(remove_spec(s, id), id) is None,
{
    let r = remove_spec(s, id);
    let f = |x: HistoryEntryView| x.id != id;
    s.filter_lemma(f);
    lemma_find_entry(r, id, r.len() as int);
}

/// The error when no history entry has an identifier.
pub fn history_entry_missing(id: HistoryEntryId, code: DownloadErrorCode) -> (e: CoreError)
    ensures
        is_failure(
            e,
            code,
            "Entrée d'historique '"@ + uuid_hyphenated(id.0) + "' introuvable."@,
        ),
{
    CoreError::DownloadFailed(
        DownloadErrorDetails::with_message(
            code,
            concat3("Entrée d'historique '", id.as_str().as_str(), "' introuvable."),
        ),
    )
}

/// The error when a downloaded file is no longer on disk.
pub fn missing_file_failure(path: &str) -> (e: CoreError)
    ensures
        is_failure(
            e,
            DownloadErrorCode::OutputFileNotFound,
            "Le fichier téléchargé '"@ + path@ + "' est introuvable sur le disque."@,
        ),
{
    CoreError::DownloadFailed(
        DownloadErrorDetails::with_message(
            DownloadErrorCode::OutputFileNotFound,
            concat3("Le fichier téléchargé '", path, "' est introuvable sur le disque."),
        ),
    )
}

/// The recorded destination of a history entry (whose file is then checked
/// on disk).
pub fn history_file_path(entries: &Vec<DownloadHistoryEntry>, id: HistoryEntryId) -> (r: Result<
    String,
    CoreError,
>)
    ensures
        match find_entry(entry_views(entries@), id) {
            Some(k) => r matches Ok(p) && p@ == entry_views(entries@)[k].destination_path,
            None => r matches Err(e) && is_failure(
                e,
                DownloadErrorCode::OutputFileNotFound,
                "Entrée d'historique '"@ + uuid_hyphenated(id.0) + "' introuvable."@,
            ),
        },
{
    match position_of(entries, id) {
        Some(k) => {
            assert(entry_views(entries@)[k as int] == entries@[k as int]@);
            Ok(String::from_str(entries[k].destination_path()))
        },
        None => Err(history_entry_missing(id, DownloadErrorCode::OutputFileNotFound)),
    }
}

/// The source URL of a history entry, which must be an http or https URL.
pub fn history_source_url(entries: &Vec<DownloadHistoryEntry>, id: HistoryEntryId) -> (r: Result<
    String,
    CoreError,
>)
    ensures
        match find_entry(entry_views(entries@), id) {
            Some(k) => if is_web_url(entry_views(entries@)[k].source_url) {
                r matches Ok(u) && u@ == entry_views(entries@)[k].source_url
            } else {
                r matches Err(e) && is_failure(
                    e,
                    DownloadErrorCode::SourceUrlInvalid,
                    only_web_urls_message(),
                )
            },
            None => r matches Err(e) && is_failure(
                e,
                DownloadErrorCode::SourceUrlInvalid,
                "Entrée d'historique '"@ + uuid_hyphenated(id.0) + "' introuvable."@,
            ),
        },
{
    match position_of(entries, id) {
        Some(k) => {
            assert(entry_views(entries@)[k as int] == entries@[k as int]@);
            check_web_url(entries[k].source_url().to_string())
        },
        None => Err(history_entry_missing(id, DownloadErrorCode::SourceUrlInvalid)),
    }
}

} // verus!
