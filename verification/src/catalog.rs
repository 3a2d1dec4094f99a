//! Catalog records and the projection of a raw search response into a
//! result set the host can index.
//!
//! A raw response is a sequence of track descriptors. Only tracks that carry
//! a `progressive` transcoding and a permalink are usable; the result set is
//! exactly that filtered subsequence, each entry labelled `"{user} - {title}"`.

use vstd::prelude::*;
use vstd::string::StringExecFns;

verus! {

/// Delivery protocol of one transcoding. Only `Progressive` renditions are
/// directly fetchable; `Hls` and anything else are inert metadata here.
#[derive(Clone, Copy, PartialEq, Eq, Structural, Debug)]
pub enum Protocol {
    Progressive,
    Hls,
    Other,
}

/// One rendition of a track: a locator plus its delivery protocol.
pub struct Transcoding {
    pub url: String,
    pub protocol: Protocol,
}

/// Mathematical model of a transcoding.
pub struct TranscodingModel {
    pub url: Seq<char>,
    pub protocol: Protocol,
}

impl View for Transcoding {
    type V = TranscodingModel;

    open spec fn view(&self) -> TranscodingModel {
        TranscodingModel { url: self.url@, protocol: self.protocol }
    }
}

/// A track as projected from a catalog response. Immutable once built.
pub struct TrackDescriptor {
    pub title: String,
    pub duration: u64,
    pub username: String,
    pub transcodings: Vec<Transcoding>,
    pub permalink_url: Option<String>,
}

/// Mathematical model of a track descriptor.
pub struct TrackModel {
    pub title: Seq<char>,
    pub duration: u64,
    pub username: Seq<char>,
    pub transcodings: Seq<TranscodingModel>,
    pub permalink_url: Option<Seq<char>>,
}

impl View for TrackDescriptor {
    type V = TrackModel;

    open spec fn view(&self) -> TrackModel {
        TrackModel {
            title: self.title@,
            duration: self.duration,
            username: self.username@,
            transcodings: self.transcodings@.map_values(|t: Transcoding| t@),
            permalink_url: match self.permalink_url {
                Some(u) => Some(u@),
                None => None,
            },
        }
    }
}

pub open spec fn is_progressive(t: TranscodingModel) -> bool {
    t.protocol == Protocol::Progressive
}

/// The track offers at least one directly fetchable rendition.
pub open spec fn has_progressive(t: TrackModel) -> bool {
    exists|i: int| 0 <= i < t.transcodings.len() && is_progressive(t.transcodings[i])
}

/// A track belongs in a result set exactly when it can later be streamed:
/// it has a progressive rendition and a permalink to resolve.
pub open spec fn streamable(t: TrackModel) -> bool {
    has_progressive(t) && t.permalink_url is Some
}

/// The filter predicate, fixed once so every statement uses the same closure.
pub open spec fn streamable_pred() -> spec_fn(TrackModel) -> bool {
    |t: TrackModel| streamable(t)
}

/// Display label of a track: `"{user} - {title}"`.
pub open spec fn display_label(username: Seq<char>, title: Seq<char>) -> Seq<char> {
    username + " - "@ + title
}

/// One row of a result set.
pub struct SearchEntry {
    pub label: String,
    pub permalink: String,
    pub duration: u64,
}

/// Mathematical model of a result row.
pub struct EntryModel {
    pub label: Seq<char>,
    pub permalink: Seq<char>,
    pub duration: u64,
}

impl View for SearchEntry {
    type V = EntryModel;

    open spec fn view(&self) -> EntryModel {
        EntryModel { label: self.label@, permalink: self.permalink@, duration: self.duration }
    }
}

/// The row a streamable track projects to.
pub open spec fn spec_entry_of(t: TrackModel) -> EntryModel {
    EntryModel {
        label: display_label(t.username, t.title),
        permalink: match t.permalink_url {
            Some(u) => u,
            None => Seq::empty(),
        },
        duration: t.duration,
    }
}

/// The whole projection: keep exactly the streamable tracks, in order,
/// and turn each into its row.
pub open spec fn spec_search_entries(ts: Seq<TrackModel>) -> Seq<EntryModel> {
    ts.filter(streamable_pred()).map_values(|t: TrackModel| spec_entry_of(t))
}

pub open spec fn tracks_model(ts: Seq<TrackDescriptor>) -> Seq<TrackModel> {
    ts.map_values(|t: TrackDescriptor| t@)
}

/// The models of a vector of rows, in order.
pub open spec fn entry_models_of(es: Seq<SearchEntry>) -> Seq<EntryModel> {
    es.map_values(|e: SearchEntry| e@)
}

/// Builds the display label of a track: `"{user} - {title}"`.
pub fn make_label(username: &str, title: &str) -> (r: String)
    ensures
        r@ == display_label(username@, title@),
{
    let r = String::from_str(username).concat(" - ").concat(title);
    proof {
        assert(r@ =~= display_label(username@, title@));
    }
    r
}

/// An ordered result set behind an explicit-release handle. After `release`
/// every query is the defined empty answer, never undefined behavior.
pub struct SearchResultSet {
    pub entries: Vec<SearchEntry>,
    pub released: bool,
}

impl SearchResultSet {
    pub open spec fn entry_models(&self) -> Seq<EntryModel> {
        entry_models_of(self.entries@)
    }

    /// Number of rows still visible through the handle.
    pub fn result_count(&self) -> (n: usize)
        ensures
            !self.released ==> n == self.entries@.len(),
            self.released ==> n == 0,
    {
        if self.released {
            0
        } else {
            self.entries.len()
        }
    }

    /// The display label at `idx`; `None` once released or out of range.
    pub fn title(&self, idx: usize) -> (r: Option<&String>)
        ensures
            match r {
                Some(s) => !self.released && idx < self.entries@.len() && s@
                    == self.entry_models()[idx as int].label,
                None => self.released || idx >= self.entries@.len(),
            },
    {
        if self.released || idx >= self.entries.len() {
            None
        } else {
            Some(&self.entries[idx].label)
        }
    }

    /// The permalink at `idx`; `None` once released or out of range.
    pub fn url(&self, idx: usize) -> (r: Option<&String>)
        ensures
            match r {
                Some(s) => !self.released && idx < self.entries@.len() && s@
                    == self.entry_models()[idx as int].permalink,
                None => self.released || idx >= self.entries@.len(),
            },
    {
        if self.released || idx >= self.entries.len() {
            None
        } else {
            Some(&self.entries[idx].permalink)
        }
    }

    /// Invalidates the handle: drops the rows and marks it released.
    pub fn release(&mut self)
        ensures
            final(self).released,
            final(self).entries@.len() == 0,
    {
        self.entries = Vec::new();
        self.released = true;
    }
}

/// Projects a raw catalog response into a result set: exactly the tracks
/// with a permalink and a progressive rendition survive, in response order,
/// labelled `"{user} - {title}"`.
pub fn build_search_results(collection: &Vec<TrackDescriptor>) -> (r: SearchResultSet)
    ensures
        !r.released,
        r.entry_models() == spec_search_entries(tracks_model(collection@)),
{
    let ghost ts = tracks_model(collection@);
    let mut entries: Vec<SearchEntry> = Vec::new();
    let mut i: usize = 0;
    proof {
        assert(ts.take(0) =~= Seq::<TrackModel>::empty());
        reveal(Seq::filter);
    }
    while i < collection.len()
        invariant
            i <= collection.len(),
            ts == tracks_model(collection@),
            ts.len() == collection@.len(),
            forall|j: int| 0 <= j < collection@.len() ==> ts[j] == collection@[j]@,
            entry_models_of(entries@) == spec_search_entries(ts.take(i as int)),
        decreases collection.len() - i,
    {
        let t = &collection[i];
        let keep: bool = match &t.permalink_url {
            Some(_) => has_progressive_exec(t),
            None => false,
        };
        proof {
            assert(ts.take(i + 1).drop_last() =~= ts.take(i as int));
            assert(ts.take(i + 1).last() == t@);
            reveal(Seq::filter);
            assert(ts.take(i + 1).filter(streamable_pred()) == if streamable(t@) {
                ts.take(i as int).filter(streamable_pred()).push(t@)
            } else {
                ts.take(i as int).filter(streamable_pred())
            });
        }
        if keep {
            proof {
                assert(streamable(t@));
            }
            let label = make_label(t.username.as_str(), t.title.as_str());
            let permalink = match &t.permalink_url {
                Some(u) => u.clone(),
                None => String::new(),
            };
            let entry = SearchEntry { label, permalink, duration: t.duration };
            let ghost em = entry@;
            let ghost eold = entries@;
            proof {
                assert(em == spec_entry_of(t@));
            }
            entries.push(entry);
            proof {
                let f1 = ts.take(i + 1).filter(streamable_pred());
                let f0 = ts.take(i as int).filter(streamable_pred());
                assert(f1 == f0.push(t@));
                assert(entries@.len() == eold.len() + 1);
                assert(entries@[eold.len() as int]@ == em);
                assert(forall|k: int| 0 <= k < eold.len() ==> entries@[k] == eold[k]);
                assert(entry_models_of(eold) == spec_search_entries(ts.take(i as int)));
                assert(entry_models_of(eold).len() == eold.len());
                assert(spec_search_entries(ts.take(i as int)).len() == f0.len());
                assert(entries@.len() == f1.len());
                assert forall|k: int| 0 <= k < entries@.len() implies entry_models_of(entries@)[k]
                    == spec_search_entries(ts.take(i + 1))[k] by {
                    assert(entry_models_of(entries@)[k] == entries@[k]@);
                    assert(spec_search_entries(ts.take(i + 1))[k] == spec_entry_of(f1[k]));
                    if k < eold.len() {
                        assert(entries@[k] == eold[k]);
                        assert(f1[k] == f0[k]);
                        assert(entry_models_of(eold)[k] == eold[k]@);
                        assert(eold[k]@ == spec_entry_of(f0[k]));
                    } else {
                        assert(entries@[k]@ == em);
                        assert(f1[k] == t@);
                    }
                }
                assert(entry_models_of(entries@) =~= spec_search_entries(ts.take(i + 1)));
            }
        } else {
            proof {
                assert(entry_models_of(entries@) =~= spec_search_entries(ts.take(i + 1)));
            }
        }
        i = i + 1;
    }
    proof {
        assert(ts.take(collection@.len() as int) =~= ts);
    }
    SearchResultSet { entries, released: false }
}

/// Whether the track offers a progressive rendition.
pub fn has_progressive_exec(t: &TrackDescriptor) -> (r: bool)
    ensures
        r == has_progressive(t@),
{
    let mut i: usize = 0;
    while i < t.transcodings.len()
        invariant
            i <= t.transcodings@.len(),
            forall|j: int| 0 <= j < i ==> !is_progressive(t@.transcodings[j]),
            t@.transcodings.len() == t.transcodings@.len(),
            forall|j: int|
                0 <= j < t.transcodings@.len() ==> t@.transcodings[j] == t.transcodings@[j]@,
        decreases t.transcodings@.len() - i,
    {
        let is_prog: bool = match t.transcodings[i].protocol {
            Protocol::Progressive => true,
            _ => false,
        };
        if is_prog {
            proof {
                assert(is_progressive(t@.transcodings[i as int]));
            }
            return true;
        }
        i = i + 1;
    }
    proof {
        assert(forall|j: int| 0 <= j < t@.transcodings.len() ==> !is_progressive(
            t@.transcodings[j],
        ));
    }
    false
}

/// Every row of the projection stems from a track of the raw response that
/// passed the filter, and the row count equals the filtered subset's size.
pub proof fn lemma_search_entries_from_response(ts: Seq<TrackModel>)
    ensures
        spec_search_entries(ts).len() == ts.filter(streamable_pred()).len(),
        forall|i: int|
            0 <= i < spec_search_entries(ts).len() ==> ts.contains(
                #[trigger] ts.filter(streamable_pred())[i],
            ) && streamable(ts.filter(streamable_pred())[i]) && spec_search_entries(ts)[i]
                == spec_entry_of(ts.filter(streamable_pred())[i]),
{
    broadcast use vstd::seq_lib::group_filter_ensures;

    let filtered = ts.filter(streamable_pred());
    lemma_filter_members(ts);
    assert forall|i: int| 0 <= i < spec_search_entries(ts).len() implies ts.contains(
        #[trigger] ts.filter(streamable_pred())[i],
    ) && streamable(ts.filter(streamable_pred())[i]) && spec_search_entries(ts)[i]
        == spec_entry_of(ts.filter(streamable_pred())[i]) by {
        assert(streamable_pred()(filtered[i]));
        assert(streamable(filtered[i]));
        assert(spec_search_entries(ts)[i] == spec_entry_of(filtered[i]));
    }
}

/// Each element the filter keeps occurs in the sequence it was drawn from.
pub proof fn lemma_filter_members(ts: Seq<TrackModel>)
    ensures
        forall|i: int|
            0 <= i < ts.filter(streamable_pred()).len() ==> ts.contains(
                #[trigger] ts.filter(streamable_pred())[i],
            ),
    decreases ts.len(),
{
    reveal(Seq::filter);
    if ts.len() == 0 {
    } else {
        let prefix = ts.drop_last();
        lemma_filter_members(prefix);
        assert forall|i: int| 0 <= i < ts.filter(streamable_pred()).len() implies ts.contains(
            #[trigger] ts.filter(streamable_pred())[i],
        ) by {
            let f = ts.filter(streamable_pred());
            let fp = prefix.filter(streamable_pred());
            if i < fp.len() {
                assert(f[i] == fp[i]);
                assert(prefix.contains(fp[i]));
                let j = choose|j: int| 0 <= j < prefix.len() && prefix[j] == fp[i];
                assert(ts[j] == f[i]);
            } else {
                assert(f[i] == ts.last());
                assert(ts[ts.len() - 1] == f[i]);
            }
        }
    }
}

} // verus!
