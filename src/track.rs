//! The normalized track record and the order-keeping deduplication of
//! track sequences.
use vstd::prelude::*;
use vstd::std_specs::cmp::PartialEqSpec;
use crate::text::opt_view;

verus! {

/// One track of a playlist, independent of the platform it came from.
#[derive(Clone, Debug)]
pub struct Track {
    pub name: String,
    pub artist: String,
    pub album: Option<String>,
}

/// The mathematical value of a `Track`.
pub struct TrackView {
    pub name: Seq<char>,
    pub artist: Seq<char>,
    pub album: Option<Seq<char>>,
}

impl View for Track {
    type V = TrackView;

    open spec fn view(&self) -> TrackView {
        TrackView { name: self.name@, artist: self.artist@, album: opt_view(self.album) }
    }
}

/// The values of a sequence of tracks.
pub open spec fn tracks_view(s: Seq<Track>) -> Seq<TrackView> {
    s.map_values(|t: Track| t@)
}

fn opt_string_eq(a: &Option<String>, b: &Option<String>) -> (r: bool)
    ensures
        r == (opt_view(*a) == opt_view(*b)),
{
    match (a, b) {
        (Some(x), Some(y)) => *x == *y,
        (None, None) => true,
        _ => false,
    }
}

impl PartialEq for Track {
    fn eq(&self, o: &Track) -> (r: bool) {
        let same_name = self.name == o.name;
        let same_artist = self.artist == o.artist;
        let same_album = opt_string_eq(&self.album, &o.album);
        same_name && same_artist && same_album
    }
}

impl vstd::std_specs::cmp::PartialEqSpecImpl for Track {
    open spec fn obeys_eq_spec() -> bool {
        true
    }

    open spec fn eq_spec(&self, o: &Track) -> bool {
        self@ == o@
    }
}

/// Track equality is reflexive and symmetric: two records are equal exactly
/// when name, artist and album are all equal.
pub proof fn lemma_track_eq_equivalence(a: Track, b: Track)
    ensures
        a.eq_spec(&a),
        a.eq_spec(&b) == b.eq_spec(&a),
        a.eq_spec(&b) <==> (a.name@ == b.name@ && a.artist@ == b.artist@ && opt_view(a.album)
            == opt_view(b.album)),
{
}

/// Appends the items of `s` to `acc` in order, skipping each item that is
/// already present at the moment it is reached.
pub open spec fn dedup_append(acc: Seq<TrackView>, s: Seq<TrackView>) -> Seq<TrackView>
    decreases s.len(),
{
    if s.len() == 0 {
        acc
    } else {
        let p = dedup_append(acc, s.drop_last());
        if p.contains(s.last()) {
            p
        } else {
            p.push(s.last())
        }
    }
}

/// The distinct items of `s`, in order of first occurrence.
pub open spec fn dedupe(s: Seq<TrackView>) -> Seq<TrackView> {
    dedup_append(Seq::empty(), s)
}

/// Appending two sequences one after the other is appending their concatenation.
pub proof fn lemma_dedup_append_concat(acc: Seq<TrackView>, a: Seq<TrackView>, b: Seq<TrackView>)
    ensures
        dedup_append(acc, a + b) == dedup_append(dedup_append(acc, a), b),
    decreases b.len(),
{
    if b.len() == 0 {
        assert(a + b =~= a);
    } else {
        assert((a + b).drop_last() =~= a + b.drop_last());
        assert((a + b).last() == b.last());
        lemma_dedup_append_concat(acc, a, b.drop_last());
    }
}

/// The result keeps `acc` as a prefix, holds every item of `acc` and of `s`,
/// and nothing else, and grows by at most the length of `s`.
pub proof fn lemma_dedup_append_contents(acc: Seq<TrackView>, s: Seq<TrackView>)
    ensures
        acc.is_prefix_of(dedup_append(acc, s)),
        dedup_append(acc, s).len() <= acc.len() + s.len(),
        forall|x: TrackView|
            dedup_append(acc, s).contains(x) <==> (acc.contains(x) || s.contains(x)),
    decreases s.len(),
{
    if s.len() > 0 {
        let p = dedup_append(acc, s.drop_last());
        lemma_dedup_append_contents(acc, s.drop_last());
        assert forall|x: TrackView| s.contains(x) <==> (s.drop_last().contains(x) || x == s.last()) by {
            if s.contains(x) {
                let i = choose|i: int| 0 <= i < s.len() && s[i] == x;
                if i < s.len() - 1 {
                    assert(s.drop_last()[i] == x);
                }
            }
            if x == s.last() {
                assert(s[s.len() - 1] == x);
            }
            if s.drop_last().contains(x) {
                let i = choose|i: int| 0 <= i < s.len() - 1 && s.drop_last()[i] == x;
                assert(s[i] == x);
            }
        }
        if !p.contains(s.last()) {
            assert forall|x: TrackView| p.push(s.last()).contains(x) <==> (p.contains(x) || x == s.last()) by {
                if p.push(s.last()).contains(x) {
                    let i = choose|i: int| 0 <= i < p.len() + 1 && p.push(s.last())[i] == x;
                    if i < p.len() {
                        assert(p[i] == x);
                    }
                }
                if p.contains(x) {
                    let i = choose|i: int| 0 <= i < p.len() && p[i] == x;
                    assert(p.push(s.last())[i] == x);
                }
                if x == s.last() {
                    assert(p.push(s.last())[p.len() as int] == x);
                }
            }
            assert(acc.is_prefix_of(p.push(s.last())));
        }
    }
}

/// Items that are all present already add nothing.
pub proof fn lemma_dedup_append_covered(acc: Seq<TrackView>, s: Seq<TrackView>)
    requires
        forall|i: int| 0 <= i < s.len() ==> acc.contains(s[i]),
    ensures
        dedup_append(acc, s) == acc,
    decreases s.len(),
{
    if s.len() > 0 {
        lemma_dedup_append_covered(acc, s.drop_last());
        assert(acc.contains(s[s.len() - 1]));
    }
}

/// Starting from a duplicate-free sequence, the result is duplicate-free.
pub proof fn lemma_dedup_append_no_duplicates(acc: Seq<TrackView>, s: Seq<TrackView>)
    requires
        acc.no_duplicates(),
    ensures
        dedup_append(acc, s).no_duplicates(),
    decreases s.len(),
{
    if s.len() > 0 {
        lemma_dedup_append_no_duplicates(acc, s.drop_last());
        let p = dedup_append(acc, s.drop_last());
        if !p.contains(s.last()) {
            let q = p.push(s.last());
            assert forall|i: int, j: int| 0 <= i < q.len() && 0 <= j < q.len() && i != j implies q[i]
                != q[j] by {
                if i == p.len() {
                    assert(p[j] == q[j]);
                } else if j == p.len() {
                    assert(p[i] == q[i]);
                }
            }
        }
    }
}

/// Deduplicating a sequence followed by itself gives the same result as
/// deduplicating it once.
pub proof fn lemma_dedupe_doubled(l: Seq<TrackView>)
    ensures
        dedupe(l + l) == dedupe(l),
{
    lemma_dedup_append_concat(Seq::empty(), l, l);
    lemma_dedup_append_contents(Seq::empty(), l);
    assert forall|i: int| 0 <= i < l.len() implies dedupe(l).contains(l[i]) by {
        assert(l.contains(l[i]));
    }
    lemma_dedup_append_covered(dedupe(l), l);
}

} // verus!
