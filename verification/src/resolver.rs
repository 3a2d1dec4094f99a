//! Track resolution: from a track reference to an authenticated media
//! locator and a suggested filename.
//!
//! Resolution chains four exchanges, each with its own failure kind: scrape
//! a credential from the platform's landing page scripts, resolve the track
//! reference into a descriptor, pick its first progressive rendition, and
//! exchange that rendition's locator for a time-limited media URL. The
//! network itself is a collaborator: the host performs each fetch and feeds
//! the outcome back as an event, while every decision between events is made
//! here, as a verified step of a state machine.

use crate::catalog::TrackDescriptor;
use crate::catalog::TrackModel;
use crate::catalog::Transcoding;
use crate::catalog::TranscodingModel;
use crate::catalog::has_progressive;
use crate::catalog::is_progressive;
use crate::scrape::spec_candidates;
use crate::scrape::spec_find_client_id;
use crate::scrape::spec_script_sources;
use crate::scrape::credential_candidates;
use crate::scrape::find_client_id;
use crate::text::spec_sanitize;
use crate::text::sanitize_path_chars;
use crate::text::strings_model;
use vstd::prelude::*;
use vstd::string::StringExecFns;

verus! {

/// Every failure the pipeline can report, one variant per stage.
#[derive(Clone, Copy, PartialEq, Eq, Structural, Debug)]
pub enum TrackError {
    /// The scraping heuristic exhausted its candidate scripts.
    CredentialNotFound,
    /// Transport-level failure while resolving the track.
    NetworkError,
    /// The resolve exchange answered with a non-success status.
    HttpStatusError { status: u16 },
    /// The resolve response body did not match the expected schema.
    DecodeError,
    /// The track has no progressive rendition.
    UnsupportedFormat,
    /// The final authenticated locator exchange failed.
    StreamExchangeFailed,
    /// The media stream could not be opened.
    ConnectError,
    /// The stream's container could not be identified.
    ProbeError,
    /// No track in the container carries the expected codec.
    NoDecodableTrack,
    /// The decoder could not be constructed for the selected track.
    DecoderInitError,
}

/// The compact status code a boundary call reports for each failure.
/// Zero is success; every failure is negative, grouped by stage.
pub open spec fn spec_status_code(e: TrackError) -> int {
    match e {
        TrackError::CredentialNotFound => -2,
        TrackError::NetworkError => -3,
        TrackError::HttpStatusError { .. } => -3,
        TrackError::DecodeError => -3,
        TrackError::UnsupportedFormat => -4,
        TrackError::StreamExchangeFailed => -5,
        TrackError::ConnectError => -6,
        TrackError::ProbeError => -7,
        TrackError::NoDecodableTrack => -8,
        TrackError::DecoderInitError => -9,
    }
}

pub fn status_code(e: &TrackError) -> (c: i32)
    ensures
        c == spec_status_code(*e),
        c < 0,
{
    match e {
        TrackError::CredentialNotFound => -2,
        TrackError::NetworkError => -3,
        TrackError::HttpStatusError { .. } => -3,
        TrackError::DecodeError => -3,
        TrackError::UnsupportedFormat => -4,
        TrackError::StreamExchangeFailed => -5,
        TrackError::ConnectError => -6,
        TrackError::ProbeError => -7,
        TrackError::NoDecodableTrack => -8,
        TrackError::DecoderInitError => -9,
    }
}

/// The resolve request: the track reference and the credential as query
/// parameters of the platform's resolve endpoint.
pub open spec fn spec_resolve_url(track: Seq<char>, client_id: Seq<char>) -> Seq<char> {
    "https://api-v2.soundcloud.com/resolve?url="@ + track + "&client_id="@ + client_id
}

pub fn resolve_request_url(track: &str, client_id: &str) -> (r: String)
    ensures
        r@ == spec_resolve_url(track@, client_id@),
{
    let r = String::from_str("https://api-v2.soundcloud.com/resolve?url=").concat(track).concat(
        "&client_id=",
    ).concat(client_id);
    proof {
        assert(r@ =~= spec_resolve_url(track@, client_id@));
    }
    r
}

/// The search request for a query, capped at ten rows.
pub open spec fn spec_search_url(query: Seq<char>, client_id: Seq<char>) -> Seq<char> {
    "https://api-v2.soundcloud.com/search/tracks?q="@ + query + "&client_id="@ + client_id
        + "&limit=10"@
}

pub fn search_request_url(query: &str, client_id: &str) -> (r: String)
    ensures
        r@ == spec_search_url(query@, client_id@),
{
    let r = String::from_str("https://api-v2.soundcloud.com/search/tracks?q=").concat(
        query,
    ).concat("&client_id=").concat(client_id).concat("&limit=10");
    proof {
        assert(r@ =~= spec_search_url(query@, client_id@));
    }
    r
}

/// The exchange request: the rendition's locator with the credential.
pub open spec fn spec_exchange_url(locator: Seq<char>, client_id: Seq<char>) -> Seq<char> {
    locator + "?client_id="@ + client_id
}

pub fn exchange_request_url(locator: &str, client_id: &str) -> (r: String)
    ensures
        r@ == spec_exchange_url(locator@, client_id@),
{
    let r = String::from_str(locator).concat("?client_id=").concat(client_id);
    proof {
        assert(r@ =~= spec_exchange_url(locator@, client_id@));
    }
    r
}

/// Suggested filename of a download: `"{owner} - {title}.mp3"` with every
/// path separator replaced.
pub open spec fn spec_suggested_filename(username: Seq<char>, title: Seq<char>) -> Seq<char> {
    spec_sanitize(username + " - "@ + title + ".mp3"@)
}

pub fn suggested_filename(username: &str, title: &str) -> (r: String)
    ensures
        r@ == spec_suggested_filename(username@, title@),
{
    let raw = String::from_str(username).concat(" - ").concat(title).concat(".mp3");
    proof {
        assert(raw@ =~= username@ + " - "@ + title@ + ".mp3"@);
    }
    sanitize_path_chars(raw.as_str())
}

/// The first progressive rendition, scanning in declaration order.
pub open spec fn spec_first_progressive(ts: Seq<TranscodingModel>) -> Option<TranscodingModel>
    decreases ts.len(),
{
    if ts.len() == 0 {
        None
    } else if is_progressive(ts[0]) {
        Some(ts[0])
    } else {
        spec_first_progressive(ts.drop_first())
    }
}

/// Picks the first progressive rendition of a track, if it has one.
pub fn select_progressive(t: &TrackDescriptor) -> (r: Option<&Transcoding>)
    ensures
        match r {
            Some(tc) => spec_first_progressive(t@.transcodings) == Some(tc@) && is_progressive(tc@)
                && has_progressive(t@),
            None => spec_first_progressive(t@.transcodings) is None && !has_progressive(t@),
        },
{
    let ghost ts = t@.transcodings;
    proof {
        assert(ts.skip(0) =~= ts);
    }
    let mut i: usize = 0;
    while i < t.transcodings.len()
        invariant
            i <= t.transcodings@.len(),
            ts == t@.transcodings,
            ts.len() == t.transcodings@.len(),
            forall|j: int| 0 <= j < t.transcodings@.len() ==> ts[j] == t.transcodings@[j]@,
            forall|j: int| 0 <= j < i ==> !is_progressive(ts[j]),
            spec_first_progressive(ts) == spec_first_progressive(ts.skip(i as int)),
        decreases t.transcodings@.len() - i,
    {
        let is_prog: bool = match t.transcodings[i].protocol {
            crate::catalog::Protocol::Progressive => true,
            _ => false,
        };
        proof {
            assert(ts.skip(i as int).len() > 0);
            assert(ts.skip(i as int)[0] == ts[i as int]);
        }
        if is_prog {
            proof {
                assert(is_progressive(ts[i as int]));
                assert(spec_first_progressive(ts.skip(i as int)) == Some(ts[i as int]));
            }
            return Some(&t.transcodings[i]);
        }
        proof {
            assert(ts.skip(i as int).drop_first() =~= ts.skip(i + 1));
        }
        i = i + 1;
    }
    proof {
        assert(ts.skip(ts.len() as int).len() == 0);
        assert(spec_first_progressive(ts) is None);
    }
    None
}

/// A rendition-less descriptor can never yield a locator: resolution with
/// such a descriptor always fails as `UnsupportedFormat`.
pub proof fn lemma_no_progressive_never_selected(ts: Seq<TranscodingModel>)
    requires
        forall|i: int| 0 <= i < ts.len() ==> !is_progressive(ts[i]),
    ensures
        spec_first_progressive(ts) is None,
    decreases ts.len(),
{
    if ts.len() > 0 {
        assert(forall|i: int|
            0 <= i < ts.drop_first().len() ==> ts.drop_first()[i] == ts[i + 1]);
        lemma_no_progressive_never_selected(ts.drop_first());
    }
}

/// State of one resolution attempt. Between two events the machine either
/// waits for the outcome of the request its state implies, or is terminal.
pub enum ResolveState {
    /// Waiting for the text of the platform's entry page.
    FetchPage,
    /// Waiting for the text of the first pending candidate script.
    TryScripts { pending: Vec<String> },
    /// Waiting for the outcome of the resolve request.
    Resolve { client_id: String, request_url: String },
    /// Waiting for the outcome of the locator exchange request.
    Exchange { client_id: String, request_url: String, filename: String },
    /// Terminal: an authenticated media locator and a suggested filename.
    Done { media_url: String, filename: String },
    /// Terminal: the stage that failed, by kind.
    Failed { error: TrackError },
}

/// Mathematical model of a resolution state.
pub enum RStateModel {
    FetchPage,
    TryScripts { pending: Seq<Seq<char>> },
    Resolve { client_id: Seq<char>, request_url: Seq<char> },
    Exchange { client_id: Seq<char>, request_url: Seq<char>, filename: Seq<char> },
    Done { media_url: Seq<char>, filename: Seq<char> },
    Failed { error: TrackError },
}

impl View for ResolveState {
    type V = RStateModel;

    open spec fn view(&self) -> RStateModel {
        match self {
            ResolveState::FetchPage => RStateModel::FetchPage,
            ResolveState::TryScripts { pending } => RStateModel::TryScripts {
                pending: strings_model(pending@),
            },
            ResolveState::Resolve { client_id, request_url } => RStateModel::Resolve {
                client_id: client_id@,
                request_url: request_url@,
            },
            ResolveState::Exchange { client_id, request_url, filename } => RStateModel::Exchange {
                client_id: client_id@,
                request_url: request_url@,
                filename: filename@,
            },
            ResolveState::Done { media_url, filename } => RStateModel::Done {
                media_url: media_url@,
                filename: filename@,
            },
            ResolveState::Failed { error } => RStateModel::Failed { error: *error },
        }
    }
}

/// What one resolve fetch came back as.
pub enum FetchOutcome {
    /// The request did not complete at the transport level.
    TransportFailed,
    /// The request completed with a non-success status.
    BadStatus { status: u16 },
    /// The body could not be decoded into a descriptor.
    Malformed,
    /// The decoded descriptor.
    Parsed { track: TrackDescriptor },
}

/// Mathematical model of a fetch outcome.
pub enum OutcomeModel {
    TransportFailed,
    BadStatus { status: u16 },
    Malformed,
    Parsed { track: TrackModel },
}

impl View for FetchOutcome {
    type V = OutcomeModel;

    open spec fn view(&self) -> OutcomeModel {
        match self {
            FetchOutcome::TransportFailed => OutcomeModel::TransportFailed,
            FetchOutcome::BadStatus { status } => OutcomeModel::BadStatus { status: *status },
            FetchOutcome::Malformed => OutcomeModel::Malformed,
            FetchOutcome::Parsed { track } => OutcomeModel::Parsed { track: track@ },
        }
    }
}

/// What the host hands back after performing the pending request.
/// A `None` body is a fetch that failed at the transport level.
pub enum ResolveEvent {
    PageFetched { body: Option<String> },
    ScriptFetched { body: Option<String> },
    Resolved { outcome: FetchOutcome },
    Exchanged { media_url: Option<String> },
}

/// Mathematical model of a resolution event.
pub enum REventModel {
    PageFetched { body: Option<Seq<char>> },
    ScriptFetched { body: Option<Seq<char>> },
    Resolved { outcome: OutcomeModel },
    Exchanged { media_url: Option<Seq<char>> },
}

pub open spec fn opt_string_model(o: Option<String>) -> Option<Seq<char>> {
    match o {
        Some(s) => Some(s@),
        None => None,
    }
}

impl View for ResolveEvent {
    type V = REventModel;

    open spec fn view(&self) -> REventModel {
        match self {
            ResolveEvent::PageFetched { body } => REventModel::PageFetched {
                body: opt_string_model(*body),
            },
            ResolveEvent::ScriptFetched { body } => REventModel::ScriptFetched {
                body: opt_string_model(*body),
            },
            ResolveEvent::Resolved { outcome } => REventModel::Resolved { outcome: outcome@ },
            ResolveEvent::Exchanged { media_url } => REventModel::Exchanged {
                media_url: opt_string_model(*media_url),
            },
        }
    }
}

pub open spec fn failed(e: TrackError) -> RStateModel {
    RStateModel::Failed { error: e }
}

/// The whole decision logic of one resolution step: what the next state is
/// for a given state and event. An event that does not answer the pending
/// request leaves the state unchanged.
pub open spec fn spec_resolver_step(
    track: Seq<char>,
    limit: int,
    st: RStateModel,
    ev: REventModel,
) -> RStateModel {
    match (st, ev) {
        (RStateModel::FetchPage, REventModel::PageFetched { body }) => match body {
            None => failed(TrackError::CredentialNotFound),
            Some(page) => {
                let cands = spec_candidates(spec_script_sources(page, 0), limit);
                if cands.len() == 0 {
                    failed(TrackError::CredentialNotFound)
                } else {
                    RStateModel::TryScripts { pending: cands }
                }
            },
        },
        (RStateModel::TryScripts { pending }, REventModel::ScriptFetched { body }) => {
            let found = match body {
                Some(js) => spec_find_client_id(js, 0),
                None => None,
            };
            match found {
                Some(id) => RStateModel::Resolve {
                    client_id: id,
                    request_url: spec_resolve_url(track, id),
                },
                None => {
                    if pending.len() <= 1 {
                        failed(TrackError::CredentialNotFound)
                    } else {
                        RStateModel::TryScripts { pending: pending.drop_first() }
                    }
                },
            }
        },
        (RStateModel::Resolve { client_id, .. }, REventModel::Resolved { outcome }) => match outcome {
            OutcomeModel::TransportFailed => failed(TrackError::NetworkError),
            OutcomeModel::BadStatus { status } => failed(TrackError::HttpStatusError { status }),
            OutcomeModel::Malformed => failed(TrackError::DecodeError),
            OutcomeModel::Parsed { track: t } => match spec_first_progressive(t.transcodings) {
                None => failed(TrackError::UnsupportedFormat),
                Some(tc) => RStateModel::Exchange {
                    client_id: client_id,
                    request_url: spec_exchange_url(tc.url, client_id),
                    filename: spec_suggested_filename(t.username, t.title),
                },
            },
        },
        (RStateModel::Exchange { filename, .. }, REventModel::Exchanged { media_url }) => match media_url {
            None => failed(TrackError::StreamExchangeFailed),
            Some(u) => RStateModel::Done { media_url: u, filename: filename },
        },
        (s, _) => s,
    }
}

/// One resolution attempt for one track reference.
pub struct TrackResolver {
    pub track_url: String,
    pub script_limit: usize,
    pub state: ResolveState,
}

impl TrackResolver {
    /// Starts an attempt: the first pending request is the entry page.
    pub fn new(track_url: String, script_limit: usize) -> (r: TrackResolver)
        ensures
            r.track_url@ == track_url@,
            r.script_limit == script_limit,
            r.state@ is FetchPage,
    {
        TrackResolver { track_url, script_limit, state: ResolveState::FetchPage }
    }

    /// Feeds the outcome of the pending request into the machine.
    pub fn step(&mut self, ev: ResolveEvent)
        ensures
            final(self).track_url@ == old(self).track_url@,
            final(self).script_limit == old(self).script_limit,
            final(self).state@ == spec_resolver_step(
                old(self).track_url@,
                old(self).script_limit as int,
                old(self).state@,
                ev@,
            ),
    {
        let ghost evm = ev@;
        let mut st = ResolveState::FetchPage;
        core::mem::swap(&mut st, &mut self.state);
        let ghost stm = st@;
        let limit = self.script_limit;
        let next: ResolveState = match (st, ev) {
            (ResolveState::FetchPage, ResolveEvent::PageFetched { body }) => match body {
                None => ResolveState::Failed { error: TrackError::CredentialNotFound },
                Some(page) => {
                    let cands = credential_candidates(page.as_str(), limit);
                    if cands.len() == 0 {
                        ResolveState::Failed { error: TrackError::CredentialNotFound }
                    } else {
                        ResolveState::TryScripts { pending: cands }
                    }
                },
            },
            (ResolveState::TryScripts { pending }, ResolveEvent::ScriptFetched { body }) => {
                let found: Option<String> = match body {
                    Some(js) => find_client_id(js.as_str()),
                    None => None,
                };
                match found {
                    Some(id) => {
                        let request_url = resolve_request_url(
                            self.track_url.as_str(),
                            id.as_str(),
                        );
                        ResolveState::Resolve { client_id: id, request_url }
                    },
                    None => {
                        if pending.len() <= 1 {
                            ResolveState::Failed { error: TrackError::CredentialNotFound }
                        } else {
                            let ghost pm = strings_model(pending@);
                            let mut rest = pending;
                            rest.remove(0);
                            proof {
                                assert(strings_model(rest@) =~= pm.drop_first());
                            }
                            ResolveState::TryScripts { pending: rest }
                        }
                    },
                }
            },
            (ResolveState::Resolve { client_id, .. }, ResolveEvent::Resolved { outcome }) => match outcome {
                FetchOutcome::TransportFailed => ResolveState::Failed {
                    error: TrackError::NetworkError,
                },
                FetchOutcome::BadStatus { status } => ResolveState::Failed {
                    error: TrackError::HttpStatusError { status },
                },
                FetchOutcome::Malformed => ResolveState::Failed { error: TrackError::DecodeError },
                FetchOutcome::Parsed { track } => {
                    let selected: Option<String> = match select_progressive(&track) {
                        Some(tc) => Some(tc.url.clone()),
                        None => None,
                    };
                    match selected {
                        None => ResolveState::Failed { error: TrackError::UnsupportedFormat },
                        Some(loc) => {
                            let request_url = exchange_request_url(
                                loc.as_str(),
                                client_id.as_str(),
                            );
                            let filename = suggested_filename(
                                track.username.as_str(),
                                track.title.as_str(),
                            );
                            ResolveState::Exchange { client_id, request_url, filename }
                        },
                    }
                },
            },
            (
                ResolveState::Exchange { filename, .. },
                ResolveEvent::Exchanged { media_url },
            ) => match media_url {
                None => ResolveState::Failed { error: TrackError::StreamExchangeFailed },
                Some(u) => ResolveState::Done { media_url: u, filename },
            },
            (s, _) => s,
        };
        self.state = next;
        proof {
            assert(self.state@ == spec_resolver_step(
                self.track_url@,
                limit as int,
                stm,
                evm,
            ));
        }
    }
}

/// Every failing event drives the machine into the failure of the stage
/// that actually failed, and a well-formed answer never fails that stage:
/// no failure is ever reported generically.
pub proof fn lemma_failure_kind_matches_stage(
    track: Seq<char>,
    limit: int,
    st: RStateModel,
    ev: REventModel,
)
    ensures
        st is FetchPage && ev == (REventModel::PageFetched { body: Option::<Seq<char>>::None })
            ==> spec_resolver_step(track, limit, st, ev) == failed(TrackError::CredentialNotFound),
        st matches RStateModel::TryScripts { pending } ==> ((pending.len() <= 1 && ev
            == (REventModel::ScriptFetched { body: Option::<Seq<char>>::None }))
            ==> spec_resolver_step(track, limit, st, ev) == failed(
            TrackError::CredentialNotFound,
        )),
        st is Resolve && ev == (REventModel::Resolved {
            outcome: OutcomeModel::TransportFailed,
        }) ==> spec_resolver_step(track, limit, st, ev) == failed(TrackError::NetworkError),
        forall|s: u16|
            st is Resolve && ev == (REventModel::Resolved {
                outcome: OutcomeModel::BadStatus { status: s },
            }) ==> spec_resolver_step(track, limit, st, ev) == failed(
                TrackError::HttpStatusError { status: s },
            ),
        st is Resolve && ev == (REventModel::Resolved { outcome: OutcomeModel::Malformed })
            ==> spec_resolver_step(track, limit, st, ev) == failed(TrackError::DecodeError),
        ev matches REventModel::Resolved { outcome: OutcomeModel::Parsed { track: t } } ==> ((
        st is Resolve && !has_progressive(t)) ==> spec_resolver_step(track, limit, st, ev)
            == failed(TrackError::UnsupportedFormat)),
        st is Exchange && ev == (REventModel::Exchanged {
            media_url: Option::<Seq<char>>::None,
        }) ==> spec_resolver_step(track, limit, st, ev) == failed(TrackError::StreamExchangeFailed),
        ev matches REventModel::Resolved { outcome: OutcomeModel::Parsed { track: t } } ==> ((
        st is Resolve && has_progressive(t)) ==> spec_resolver_step(track, limit, st, ev)
            is Exchange),
{
    match ev {
        REventModel::Resolved { outcome: OutcomeModel::Parsed { track: t } } => {
            if st is Resolve {
                if !has_progressive(t) {
                    assert forall|i: int| 0 <= i < t.transcodings.len() implies !is_progressive(
                        t.transcodings[i],
                    ) by {}
                    lemma_no_progressive_never_selected(t.transcodings);
                } else {
                    lemma_progressive_found(t.transcodings);
                }
            }
        },
        _ => {},
    }
}

/// A descriptor with a progressive rendition always has a first one.
pub proof fn lemma_progressive_found(ts: Seq<TranscodingModel>)
    requires
        exists|i: int| 0 <= i < ts.len() && is_progressive(ts[i]),
    ensures
        spec_first_progressive(ts) is Some,
    decreases ts.len(),
{
    if ts.len() > 0 && !is_progressive(ts[0]) {
        let i = choose|i: int| 0 <= i < ts.len() && is_progressive(ts[i]);
        assert(ts.drop_first()[i - 1] == ts[i]);
        lemma_progressive_found(ts.drop_first());
    }
}

/// A descriptor with zero progressive renditions yields `UnsupportedFormat`,
/// never a locator.
pub proof fn lemma_no_progressive_is_unsupported(
    track: Seq<char>,
    limit: int,
    st: RStateModel,
    t: TrackModel,
)
    requires
        st is Resolve,
        !has_progressive(t),
    ensures
        spec_resolver_step(
            track,
            limit,
            st,
            REventModel::Resolved { outcome: OutcomeModel::Parsed { track: t } },
        ) == failed(TrackError::UnsupportedFormat),
{
    assert forall|i: int| 0 <= i < t.transcodings.len() implies !is_progressive(
        t.transcodings[i],
    ) by {}
    lemma_no_progressive_never_selected(t.transcodings);
}

} // verus!
