//! Tracks from a fully rendered YouTube Music playlist page.
use vstd::prelude::*;
use crate::error::ScrapeError;
use crate::track::{tracks_view, Track, TrackView};

verus! {

/// Each rendered row holds five text fields: name, artist, album, duration
/// and a trailing empty one.
pub const ROW_FIELDS: usize = 5;

/// The track a five-field row stands for; an empty album is absent.
pub open spec fn yt_track(fields: Seq<String>) -> TrackView {
    TrackView {
        name: fields[0]@,
        artist: fields[1]@,
        album: if fields[2]@.len() == 0 {
            None
        } else {
            Some(fields[2]@)
        },
    }
}

/// Maps the text fields of one row to a track.
pub fn yt_track_from_fields(fields: &Vec<String>) -> (r: Result<Track, ScrapeError>)
    ensures
        fields@.len() == ROW_FIELDS ==> r is Ok && r->Ok_0@ == yt_track(fields@),
        fields@.len() != ROW_FIELDS ==> r == Err::<Track, ScrapeError>(ScrapeError::MalformedRow),
{
    if fields.len() != ROW_FIELDS {
        return Err(ScrapeError::MalformedRow);
    }
    let album = if fields[2].as_str().is_empty() {
        None
    } else {
        Some(fields[2].clone())
    };
    Ok(Track { name: fields[0].clone(), artist: fields[1].clone(), album })
}

/// Maps every row, in page order; any row of another shape fails the whole
/// playlist.
pub fn tracks_from_rows(rows: &Vec<Vec<String>>) -> (r: Result<Vec<Track>, ScrapeError>)
    ensures
        (forall|i: int| 0 <= i < rows@.len() ==> (#[trigger] rows@[i])@.len() == ROW_FIELDS) ==> r
            is Ok && tracks_view(r->Ok_0@) == rows@.map_values(|row: Vec<String>| yt_track(row@)),
        (exists|i: int| 0 <= i < rows@.len() && (#[trigger] rows@[i])@.len() != ROW_FIELDS) ==> r
            == Err::<Vec<Track>, ScrapeError>(ScrapeError::MalformedRow),
{
    let mut out: Vec<Track> = Vec::new();
    let mut i: usize = 0;
    while i < rows.len()
        invariant
            i <= rows@.len(),
            forall|j: int| 0 <= j < i ==> (#[trigger] rows@[j])@.len() == ROW_FIELDS,
            tracks_view(out@) =~= rows@.take(i as int).map_values(|row: Vec<String>| yt_track(row@)),
        decreases rows@.len() - i,
    {
        match yt_track_from_fields(&rows[i]) {
            Ok(t) => {
                let ghost prior = out@;
                out.push(t);
                proof {
                    assert(rows@.take(i + 1) =~= rows@.take(i as int).push(rows@[i as int]));
                    assert(out@ =~= prior.push(t));
                    assert(tracks_view(out@) =~= tracks_view(prior).push(t@));
                }
            },
            Err(e) => {
                return Err(e);
            },
        }
        i = i + 1;
    }
    assert(rows@.take(rows@.len() as int) =~= rows@);
    Ok(out)
}

} // verus!
