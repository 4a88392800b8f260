//! Resolution of tracks against another platform's search results.
use vstd::prelude::*;
use vstd::string::StringExecFns;
use crate::text::{
    lower_of, lowercase, opt_view, percent_decode, percent_decoded, percent_encode,
    percent_encoded,
};
use crate::track::{tracks_view, Track, TrackView};

verus! {

/// Which fields of a search result must match the track.
#[derive(Clone, Copy, Debug, PartialEq, Eq, Structural)]
pub enum MatchPolicy {
    /// The result's title equals the track's name, ignoring case.
    NameOnly,
    /// Both the title and the result's artist match, ignoring case.
    NameAndArtist,
}

/// One search result as rendered: its visible title, the artist shown with
/// it and its link, each `None` where the page did not yield it.
#[derive(Clone, Debug)]
pub struct Candidate {
    pub title: Option<String>,
    pub artist: Option<String>,
    pub href: Option<String>,
}

/// The lowercase forms of a search result's title and artist.
#[derive(Clone, Debug)]
pub struct FoldedCandidate {
    pub title: Option<String>,
    pub artist: Option<String>,
}

/// The lowercase form of an optional string.
pub open spec fn opt_lower(o: Option<String>) -> Option<Seq<char>> {
    match o {
        Some(s) => Some(lower_of(s@)),
        None => None,
    }
}

/// Whether lowercase result fields match the lowercase track fields.
pub open spec fn accepts(
    policy: MatchPolicy,
    name_folded: Seq<char>,
    artist_folded: Seq<char>,
    title_folded: Option<Seq<char>>,
    cand_artist_folded: Option<Seq<char>>,
) -> bool {
    title_folded == Some(name_folded) && (policy == MatchPolicy::NameOnly || cand_artist_folded
        == Some(artist_folded))
}

/// Whether a search result matches a track, ignoring case.
pub open spec fn cand_accepted(policy: MatchPolicy, t: TrackView, c: Candidate) -> bool {
    accepts(policy, lower_of(t.name), lower_of(t.artist), opt_lower(c.title), opt_lower(c.artist))
}

/// The `i`-th result is the first one that matches.
pub open spec fn is_first_accepted(
    policy: MatchPolicy,
    t: TrackView,
    cands: Seq<Candidate>,
    i: int,
) -> bool {
    0 <= i < cands.len() && cand_accepted(policy, t, cands[i]) && forall|j: int|
        0 <= j < i ==> !cand_accepted(policy, t, #[trigger] cands[j])
}

/// The decoded link of a result, if it has one that decodes.
pub open spec fn link_of(c: Candidate) -> Option<Seq<char>> {
    match c.href {
        Some(h) => percent_decoded(h@),
        None => None,
    }
}

/// The link a track resolves to among search results: that of the first
/// matching result, or none where no result matches.
pub open spec fn resolved_link(policy: MatchPolicy, t: TrackView, cands: Seq<Candidate>) -> Option<
    Seq<char>,
> {
    if exists|i: int| is_first_accepted(policy, t, cands, i) {
        link_of(cands[choose|i: int| is_first_accepted(policy, t, cands, i)])
    } else {
        None
    }
}

/// The search page for a track: the query "name - artist", percent-encoded.
pub open spec fn search_url_of(t: TrackView) -> Seq<char> {
    "https://music.apple.com/us/search?term="@ + percent_encoded(t.name + " - "@ + t.artist)
}

/// Builds the search page URL for a track.
pub fn apple_search_url(track: &Track) -> (r: String)
    ensures
        r@ == search_url_of(track@),
{
    let query = track.name.clone().concat(" - ").concat(track.artist.as_str());
    let encoded = percent_encode(query.as_str());
    String::from_str("https://music.apple.com/us/search?term=").concat(encoded.as_str())
}

fn holds_text(o: &Option<String>, s: &String) -> (r: bool)
    ensures
        r == (opt_view(*o) == Some(s@)),
{
    match o {
        Some(x) => *x == *s,
        None => false,
    }
}

/// The index of the first folded result that matches the folded track
/// fields, or `None` where none does.
pub fn first_accepted(
    policy: MatchPolicy,
    name_folded: &String,
    artist_folded: &String,
    folded: &Vec<FoldedCandidate>,
) -> (r: Option<usize>)
    ensures
        match r {
            Some(i) => i < folded@.len() && accepts(
                policy,
                name_folded@,
                artist_folded@,
                opt_view(folded@[i as int].title),
                opt_view(folded@[i as int].artist),
            ) && forall|j: int|
                0 <= j < i ==> !accepts(
                    policy,
                    name_folded@,
                    artist_folded@,
                    opt_view(#[trigger] folded@[j].title),
                    opt_view(folded@[j].artist),
                ),
            None => forall|j: int|
                0 <= j < folded@.len() ==> !accepts(
                    policy,
                    name_folded@,
                    artist_folded@,
                    opt_view(#[trigger] folded@[j].title),
                    opt_view(folded@[j].artist),
                ),
        },
{
    let mut i: usize = 0;
    while i < folded.len()
        invariant
            i <= folded@.len(),
            forall|j: int|
                0 <= j < i ==> !accepts(
                    policy,
                    name_folded@,
                    artist_folded@,
                    opt_view(#[trigger] folded@[j].title),
                    opt_view(folded@[j].artist),
                ),
        decreases folded@.len() - i,
    {
        let c = &folded[i];
        let title_ok = holds_text(&c.title, name_folded);
        let artist_ok = match policy {
            MatchPolicy::NameOnly => true,
            MatchPolicy::NameAndArtist => holds_text(&c.artist, artist_folded),
        };
        if title_ok && artist_ok {
            return Some(i);
        }
        i = i + 1;
    }
    None
}

fn fold_opt(o: &Option<String>) -> (r: Option<String>)
    ensures
        opt_view(r) == opt_lower(*o),
{
    match o {
        Some(s) => Some(lowercase(s.as_str())),
        None => None,
    }
}

/// The link a track resolves to among search results, in rendered order.
pub fn select_link(policy: MatchPolicy, track: &Track, candidates: &Vec<Candidate>) -> (r: Option<
    String,
>)
    ensures
        opt_view(r) == resolved_link(policy, track@, candidates@),
{
    let name_folded = lowercase(track.name.as_str());
    let artist_folded = lowercase(track.artist.as_str());
    let mut folded: Vec<FoldedCandidate> = Vec::new();
    let mut i: usize = 0;
    while i < candidates.len()
        invariant
            i <= candidates@.len(),
            folded@.len() == i,
            forall|j: int|
                0 <= j < i ==> opt_view(#[trigger] folded@[j].title) == opt_lower(
                    candidates@[j].title,
                ) && opt_view(folded@[j].artist) == opt_lower(candidates@[j].artist),
        decreases candidates@.len() - i,
    {
        let c = &candidates[i];
        let f = FoldedCandidate { title: fold_opt(&c.title), artist: fold_opt(&c.artist) };
        folded.push(f);
        i = i + 1;
    }
    let ghost t = track@;
    let ghost cs = candidates@;
    assert forall|j: int| 0 <= j < cs.len() implies cand_accepted(policy, t, #[trigger] cs[j])
        == accepts(
        policy,
        name_folded@,
        artist_folded@,
        opt_view(folded@[j].title),
        opt_view(folded@[j].artist),
    ) by {}
    match first_accepted(policy, &name_folded, &artist_folded, &folded) {
        Some(i) => {
            assert(is_first_accepted(policy, t, cs, i as int));
            let ghost k = choose|k: int| is_first_accepted(policy, t, cs, k);
            assert(k == i as int) by {
                if k < i as int {
                    assert(!cand_accepted(policy, t, cs[k]));
                } else if k > i as int {
                    assert(!cand_accepted(policy, t, cs[i as int]));
                }
            }
            match &candidates[i].href {
                Some(h) => percent_decode(h.as_str()),
                None => None,
            }
        },
        None => {
            assert forall|k: int| !is_first_accepted(policy, t, cs, k) by {
                if 0 <= k < cs.len() {
                    assert(!cand_accepted(policy, t, cs[k]));
                }
            }
            None
        },
    }
}

/// What searching for one track produced.
pub enum SearchOutcome {
    /// The search page failed to load, or its results never appeared.
    Failed,
    /// The results under the songs heading, in rendered order.
    Results(Vec<Candidate>),
}

/// The links that one search contributes: the resolved link, if any.
pub open spec fn outcome_links(policy: MatchPolicy, t: TrackView, outcome: SearchOutcome) -> Seq<
    Seq<char>,
> {
    match outcome {
        SearchOutcome::Failed => Seq::empty(),
        SearchOutcome::Results(cands) => match resolved_link(policy, t, cands@) {
            Some(l) => seq![l],
            None => Seq::empty(),
        },
    }
}

/// A search that failed, or whose results hold no match for the track,
/// contributes no link; the resolution goes on with the next track.
pub proof fn lemma_unmatched_search_adds_no_link(
    policy: MatchPolicy,
    t: TrackView,
    outcome: SearchOutcome,
)
    requires
        match outcome {
            SearchOutcome::Failed => true,
            SearchOutcome::Results(cands) => forall|j: int|
                0 <= j < cands@.len() ==> !cand_accepted(policy, t, #[trigger] cands@[j]),
        },
    ensures
        outcome_links(policy, t, outcome) == Seq::<Seq<char>>::empty(),
{
}

/// The characters of each string.
pub open spec fn strings_view(s: Seq<String>) -> Seq<Seq<char>> {
    s.map_values(|x: String| x@)
}

/// Resolution of a playlist, one search per track, in order.
pub struct Resolver {
    policy: MatchPolicy,
    tracks: Vec<Track>,
    next: usize,
    links: Vec<String>,
}

/// The value of a `Resolver`: the policy, the tracks, how many of them have
/// been searched, and the links found so far.
pub struct ResolverView {
    pub policy: MatchPolicy,
    pub tracks: Seq<TrackView>,
    pub next: nat,
    pub links: Seq<Seq<char>>,
}

impl View for Resolver {
    type V = ResolverView;

    closed spec fn view(&self) -> ResolverView {
        ResolverView {
            policy: self.policy,
            tracks: tracks_view(self.tracks@),
            next: self.next as nat,
            links: strings_view(self.links@),
        }
    }
}

impl Resolver {
    /// The resolver's state is consistent: no more tracks searched than given.
    pub open spec fn wf(&self) -> bool {
        self@.next <= self@.tracks.len()
    }

    /// Starts resolving the tracks, none searched yet.
    pub fn new(tracks: Vec<Track>, policy: MatchPolicy) -> (r: Resolver)
        ensures
            r.wf(),
            r@ == (ResolverView {
                policy,
                tracks: tracks_view(tracks@),
                next: 0,
                links: Seq::empty(),
            }),
    {
        let r = Resolver { policy, tracks, next: 0, links: Vec::new() };
        assert(strings_view(r.links@) =~= Seq::empty());
        r
    }

    /// Whether every track has been searched.
    pub fn is_done(&self) -> (r: bool)
        requires
            self.wf(),
        ensures
            r == (self@.next == self@.tracks.len()),
    {
        self.next == self.tracks.len()
    }

    /// The search page for the next track, or `None` when all are searched.
    pub fn next_search_url(&self) -> (r: Option<String>)
        requires
            self.wf(),
        ensures
            self@.next < self@.tracks.len() ==> opt_view(r) == Some(
                search_url_of(self@.tracks[self@.next as int]),
            ),
            self@.next == self@.tracks.len() ==> r is None,
    {
        if self.next < self.tracks.len() {
            Some(apple_search_url(&self.tracks[self.next]))
        } else {
            None
        }
    }

    /// Takes in the search for the next track. A failed search, or one
    /// without a matching result, adds no link; either way the following
    /// track is searched next.
    pub fn record(&mut self, outcome: SearchOutcome)
        requires
            old(self).wf(),
            old(self)@.next < old(self)@.tracks.len(),
        ensures
            final(self).wf(),
            final(self)@.policy == old(self)@.policy,
            final(self)@.tracks == old(self)@.tracks,
            final(self)@.next == old(self)@.next + 1,
            final(self)@.links == old(self)@.links + outcome_links(
                old(self)@.policy,
                old(self)@.tracks[old(self)@.next as int],
                outcome,
            ),
    {
        let ghost prior = self.links@;
        let count = self.tracks.len();
        assert(self.next < count);
        match outcome {
            SearchOutcome::Failed => {},
            SearchOutcome::Results(cands) => {
                match select_link(self.policy, &self.tracks[self.next], &cands) {
                    Some(l) => {
                        self.links.push(l);
                        assert(strings_view(self.links@) =~= strings_view(prior) + seq![l@]);
                    },
                    None => {},
                }
            },
        }
        assert(strings_view(self.links@) =~= strings_view(prior) + outcome_links(
            old(self)@.policy,
            old(self)@.tracks[old(self)@.next as int],
            outcome,
        ));
        self.next = self.next + 1;
    }

    /// The links found so far, in track order.
    pub fn links(&self) -> (r: &Vec<String>)
        ensures
            strings_view(r@) == self@.links,
    {
        &self.links
    }

    /// Ends resolution and hands over the links, in track order.
    pub fn into_links(self) -> (r: Vec<String>)
        ensures
            strings_view(r@) == self@.links,
    {
        self.links
    }
}

} // verus!
