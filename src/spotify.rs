//! Incremental collection of a virtualized playlist: each pass reads the rows
//! that are rendered, and collection ends on the first pass that adds no new
//! track.
use vstd::prelude::*;
use crate::track::{
    dedup_append, dedupe, lemma_dedup_append_concat, lemma_dedup_append_contents,
    lemma_dedup_append_covered, lemma_dedup_append_no_duplicates, tracks_view, Track, TrackView,
};

verus! {

/// The two text fields read from one rendered row; `None` where the row
/// did not yield the field.
#[derive(Clone, Debug)]
pub struct RowFields {
    pub name: Option<String>,
    pub artist: Option<String>,
}

/// What one pass over the rendered rows produced.
pub enum PassOutcome {
    /// The row query itself failed.
    QueryFailed,
    /// The fields of the rows after the already collected ones, in page order.
    Rows(Vec<RowFields>),
}

/// What the caller does next.
#[derive(Clone, Copy, Debug, PartialEq, Eq, Structural)]
pub enum ScrollAction {
    /// Query the rows again.
    ScrollAgain,
    /// The list has converged; collection is complete.
    Finished,
    /// A configured ceiling was reached before the list converged.
    TimedOut,
}

/// Ceilings on the scroll loop: the number of passes, and the number of
/// failed row queries in a row.
#[derive(Clone, Copy, Debug, PartialEq, Eq, Structural)]
pub struct ScrollLimits {
    pub max_passes: usize,
    pub max_failed_queries: usize,
}

/// A counter that stops at the largest `usize`.
pub open spec fn count_up(n: nat) -> nat {
    if n < usize::MAX {
        n + 1
    } else {
        n
    }
}

/// Whether the counters have gone past the ceilings, if there are any.
pub open spec fn over_limits(limits: Option<ScrollLimits>, passes: nat, failures: nat) -> bool {
    match limits {
        Some(l) => passes >= l.max_passes || failures > l.max_failed_queries,
        None => false,
    }
}

/// The track a row gives, if it yielded both fields.
pub open spec fn row_track(r: RowFields) -> Option<TrackView> {
    match r.name {
        Some(n) => match r.artist {
            Some(a) => Some(TrackView { name: n@, artist: a@, album: None }),
            None => None,
        },
        None => None,
    }
}

/// The tracks of the complete rows, in order.
pub open spec fn parsed_rows(rows: Seq<RowFields>) -> Seq<TrackView>
    decreases rows.len(),
{
    if rows.len() == 0 {
        Seq::empty()
    } else {
        let p = parsed_rows(rows.drop_last());
        match row_track(rows.last()) {
            Some(t) => p.push(t),
            None => p,
        }
    }
}

/// Every row yielded both of its fields.
pub open spec fn all_complete(rows: Seq<RowFields>) -> bool {
    forall|i: int| 0 <= i < rows.len() ==> (#[trigger] row_track(rows[i])) is Some
}

/// The collection state of the scroll loop.
pub struct SpotifyCollector {
    collected: Vec<Track>,
    limits: Option<ScrollLimits>,
    passes: usize,
    failures: usize,
}

/// The value of a `SpotifyCollector`: the tracks collected so far, the
/// ceilings, the passes taken and the failed queries since the last pass that
/// read rows.
pub struct CollectorView {
    pub tracks: Seq<TrackView>,
    pub limits: Option<ScrollLimits>,
    pub passes: nat,
    pub failures: nat,
}

impl View for SpotifyCollector {
    type V = CollectorView;

    closed spec fn view(&self) -> CollectorView {
        CollectorView {
            tracks: tracks_view(self.collected@),
            limits: self.limits,
            passes: self.passes as nat,
            failures: self.failures as nat,
        }
    }
}

fn count_up_exec(n: usize) -> (r: usize)
    ensures
        r as nat == count_up(n as nat),
{
    if n < usize::MAX {
        n + 1
    } else {
        n
    }
}

fn over_limits_exec(limits: Option<ScrollLimits>, passes: usize, failures: usize) -> (r: bool)
    ensures
        r == over_limits(limits, passes as nat, failures as nat),
{
    match limits {
        Some(l) => passes >= l.max_passes || failures > l.max_failed_queries,
        None => false,
    }
}

fn contains_track(v: &Vec<Track>, t: &Track) -> (r: bool)
    ensures
        r == tracks_view(v@).contains(t@),
{
    let mut i: usize = 0;
    while i < v.len()
        invariant
            i <= v.len(),
            forall|j: int| 0 <= j < i ==> v@[j]@ != t@,
        decreases v.len() - i,
    {
        if v[i] == *t {
            assert(tracks_view(v@)[i as int] == t@);
            return true;
        }
        i = i + 1;
    }
    assert forall|j: int| 0 <= j < tracks_view(v@).len() implies tracks_view(v@)[j] != t@ by {
        assert(tracks_view(v@)[j] == v@[j]@);
    }
    false
}

fn row_to_track(r: &RowFields) -> (t: Option<Track>)
    ensures
        match t {
            Some(t) => row_track(*r) == Some(t@),
            None => row_track(*r) is None,
        },
{
    match (&r.name, &r.artist) {
        (Some(n), Some(a)) => Some(Track { name: n.clone(), artist: a.clone(), album: None }),
        _ => None,
    }
}

proof fn lemma_parsed_complete(s: Seq<RowFields>)
    requires
        all_complete(s),
    ensures
        parsed_rows(s).len() == s.len(),
        forall|i: int| 0 <= i < s.len() ==> Some(#[trigger] parsed_rows(s)[i]) == row_track(s[i]),
    decreases s.len(),
{
    if s.len() > 0 {
        assert forall|i: int| 0 <= i < s.drop_last().len() implies (#[trigger] row_track(
            s.drop_last()[i],
        )) is Some by {
            assert(s.drop_last()[i] == s[i]);
            assert(row_track(s[i]) is Some);
        }
        lemma_parsed_complete(s.drop_last());
        assert(row_track(s[s.len() - 1]) is Some);
    }
}

/// A pass over a rendered list that only grew since the previous pass: when
/// every row is complete and the collection holds the distinct tracks of the
/// previous list, skipping the collected rows and taking in the rest leaves
/// exactly the distinct tracks of the current list, in first-seen order. When
/// the list did not change, the pass adds nothing, so collection finishes.
pub proof fn lemma_pass_over_growing_list(prev: Seq<RowFields>, cur: Seq<RowFields>)
    requires
        prev.is_prefix_of(cur),
        all_complete(cur),
    ensures
        dedupe(parsed_rows(prev)).len() <= cur.len(),
        dedup_append(
            dedupe(parsed_rows(prev)),
            parsed_rows(cur.skip(dedupe(parsed_rows(prev)).len() as int)),
        ) == dedupe(parsed_rows(cur)),
        prev == cur ==> dedupe(parsed_rows(cur)).len() == dedupe(parsed_rows(prev)).len(),
{
    let p = parsed_rows(prev);
    let c = parsed_rows(cur);
    let d = dedupe(p);
    lemma_dedup_append_contents(Seq::empty(), p);
    let k = d.len() as int;
    assert forall|i: int| 0 <= i < prev.len() implies (#[trigger] row_track(prev[i])) is Some by {
        assert(prev[i] == cur[i]);
        assert(row_track(cur[i]) is Some);
    }
    lemma_parsed_complete(prev);
    assert forall|i: int| 0 <= i < cur.skip(k).len() implies (#[trigger] row_track(
        cur.skip(k)[i],
    )) is Some by {
        assert(cur.skip(k)[i] == cur[i + k]);
        assert(row_track(cur[i + k]) is Some);
    }
    lemma_parsed_complete(cur);
    lemma_parsed_complete(cur.skip(k));
    assert forall|i: int| 0 <= i < p.len() implies p[i] == c[i] by {
        assert(Some(p[i]) == row_track(prev[i]));
        assert(Some(c[i]) == row_track(cur[i]));
    }
    assert forall|i: int| 0 <= i < c.len() - k implies parsed_rows(cur.skip(k))[i] == c.skip(k)[i] by {
        assert(Some(parsed_rows(cur.skip(k))[i]) == row_track(cur.skip(k)[i]));
        assert(Some(c[i + k]) == row_track(cur[i + k]));
    }
    assert(parsed_rows(cur.skip(k)) =~= c.skip(k));
    let m = c.subrange(k, p.len() as int);
    let t = c.skip(p.len() as int);
    assert(c.skip(k) =~= m + t);
    assert(c =~= p + t);
    lemma_dedup_append_concat(d, m, t);
    assert forall|i: int| 0 <= i < m.len() implies d.contains(m[i]) by {
        assert(m[i] == p[i + k]);
        assert(p.contains(p[i + k]));
    }
    lemma_dedup_append_covered(d, m);
    lemma_dedup_append_concat(Seq::empty(), p, t);
}

impl SpotifyCollector {
    /// The collection holds each track at most once.
    pub open spec fn wf(&self) -> bool {
        self@.tracks.no_duplicates()
    }

    /// An empty collection without ceilings: it goes on until a pass adds
    /// no track.
    pub fn new() -> (r: SpotifyCollector)
        ensures
            r.wf(),
            r@ == (CollectorView { tracks: Seq::empty(), limits: None, passes: 0, failures: 0 }),
    {
        let r = SpotifyCollector { collected: Vec::new(), limits: None, passes: 0, failures: 0 };
        assert(tracks_view(r.collected@) =~= Seq::empty());
        r
    }

    /// An empty collection that gives up at the given ceilings.
    pub fn with_limits(limits: ScrollLimits) -> (r: SpotifyCollector)
        ensures
            r.wf(),
            r@ == (CollectorView {
                tracks: Seq::empty(),
                limits: Some(limits),
                passes: 0,
                failures: 0,
            }),
    {
        let r = SpotifyCollector { collected: Vec::new(), limits: Some(limits), passes: 0, failures: 0 };
        assert(tracks_view(r.collected@) =~= Seq::empty());
        r
    }

    /// How many rendered rows the next pass skips: those already collected.
    pub fn rows_to_skip(&self) -> (r: usize)
        ensures
            r == self@.tracks.len(),
    {
        self.collected.len()
    }

    /// The tracks collected so far, in first-seen order.
    pub fn tracks(&self) -> (r: &Vec<Track>)
        ensures
            tracks_view(r@) == self@.tracks,
    {
        &self.collected
    }

    /// Ends collection and hands over the collected tracks.
    pub fn into_tracks(self) -> (r: Vec<Track>)
        ensures
            tracks_view(r@) == self@.tracks,
    {
        self.collected
    }

    /// Takes in one pass. A failed query keeps the tracks and asks for another
    /// pass. Otherwise each complete row whose track is not yet collected is
    /// appended in order, and collection finishes exactly when none was. A
    /// pass that does not finish gives up once a ceiling is reached.
    pub fn step(&mut self, pass: PassOutcome) -> (action: ScrollAction)
        requires
            old(self).wf(),
        ensures
            final(self).wf(),
            old(self)@.tracks.is_prefix_of(final(self)@.tracks),
            final(self)@.limits == old(self)@.limits,
            final(self)@.passes == count_up(old(self)@.passes),
            match pass {
                PassOutcome::QueryFailed => final(self)@.tracks == old(self)@.tracks
                    && final(self)@.failures == count_up(old(self)@.failures) && action == (if over_limits(
                    final(self)@.limits,
                    final(self)@.passes,
                    final(self)@.failures,
                ) {
                    ScrollAction::TimedOut
                } else {
                    ScrollAction::ScrollAgain
                }),
                PassOutcome::Rows(rows) => final(self)@.tracks == dedup_append(
                    old(self)@.tracks,
                    parsed_rows(rows@),
                ) && final(self)@.failures == 0 && action == (if final(self)@.tracks.len()
                    == old(self)@.tracks.len() {
                    ScrollAction::Finished
                } else if over_limits(final(self)@.limits, final(self)@.passes, 0) {
                    ScrollAction::TimedOut
                } else {
                    ScrollAction::ScrollAgain
                }),
            },
    {
        self.passes = count_up_exec(self.passes);
        match pass {
            PassOutcome::QueryFailed => {
                self.failures = count_up_exec(self.failures);
                if over_limits_exec(self.limits, self.passes, self.failures) {
                    ScrollAction::TimedOut
                } else {
                    ScrollAction::ScrollAgain
                }
            },
            PassOutcome::Rows(rows) => {
                self.failures = 0;
                let ghost start = self@.tracks;
                let start_len = self.collected.len();
                let mut i: usize = 0;
                while i < rows.len()
                    invariant
                        i <= rows.len(),
                        start.no_duplicates(),
                        self@.tracks == dedup_append(start, parsed_rows(rows@.take(i as int))),
                        start.len() == start_len,
                        self.limits == old(self).limits,
                        self.passes as nat == count_up(old(self).passes as nat),
                        self.failures == 0,
                    decreases rows.len() - i,
                {
                    let ghost before = parsed_rows(rows@.take(i as int));
                    proof {
                        assert(rows@.take(i + 1).drop_last() =~= rows@.take(i as int));
                        assert(rows@.take(i + 1).last() == rows@[i as int]);
                    }
                    match row_to_track(&rows[i]) {
                        Some(t) => {
                            assert(parsed_rows(rows@.take(i + 1)) == before.push(t@));
                            assert(before.push(t@).drop_last() =~= before);
                            if !contains_track(&self.collected, &t) {
                                self.collected.push(t);
                                assert(tracks_view(self.collected@) =~= dedup_append(
                                    start,
                                    before,
                                ).push(t@));
                            }
                        },
                        None => {
                            assert(parsed_rows(rows@.take(i + 1)) == before);
                        },
                    }
                    i = i + 1;
                }
                proof {
                    assert(rows@.take(rows@.len() as int) =~= rows@);
                    lemma_dedup_append_contents(start, parsed_rows(rows@));
                    lemma_dedup_append_no_duplicates(start, parsed_rows(rows@));
                }
                if self.collected.len() == start_len {
                    ScrollAction::Finished
                } else if over_limits_exec(self.limits, self.passes, 0) {
                    ScrollAction::TimedOut
                } else {
                    ScrollAction::ScrollAgain
                }
            },
        }
    }
}

} // verus!
