use playlist_porter::spotify::{PassOutcome, RowFields, ScrollAction, ScrollLimits, SpotifyCollector};
use playlist_porter::track::Track;

fn full(name: &str, artist: &str) -> RowFields {
    RowFields { name: Some(name.to_string()), artist: Some(artist.to_string()) }
}

fn track(name: &str, artist: &str) -> Track {
    Track { name: name.to_string(), artist: artist.to_string(), album: None }
}

/// Runs the collector against a page whose rendered list is `passes[k]` on
/// the k-th pass (the last list repeats), as the scroll loop does.
fn run(passes: &[Vec<RowFields>]) -> (Vec<Track>, usize) {
    let mut c = SpotifyCollector::new();
    let mut k = 0;
    loop {
        let rendered = &passes[k.min(passes.len() - 1)];
        let rest: Vec<RowFields> = rendered.iter().skip(c.rows_to_skip()).cloned().collect();
        k += 1;
        if c.step(PassOutcome::Rows(rest)) == ScrollAction::Finished {
            return (c.into_tracks(), k);
        }
        assert!(k < 100);
    }
}

#[test]
fn growing_list_is_collected_in_first_seen_order() {
    let a = full("A", "1");
    let b = full("B", "2");
    let c = full("C", "3");
    let d = full("D", "4");
    let passes = vec![
        vec![a.clone(), b.clone()],
        vec![a.clone(), b.clone(), c.clone()],
        vec![a.clone(), b.clone(), c.clone(), d.clone()],
    ];
    let (tracks, n) = run(&passes);
    assert_eq!(tracks, vec![track("A", "1"), track("B", "2"), track("C", "3"), track("D", "4")]);
    assert_eq!(n, 4);
}

#[test]
fn repeated_rows_in_list_are_collected_once() {
    let a = full("A", "1");
    let b = full("B", "2");
    let passes = vec![vec![a.clone(), a.clone()], vec![a.clone(), a.clone(), b.clone()]];
    let (tracks, _) = run(&passes);
    assert_eq!(tracks, vec![track("A", "1"), track("B", "2")]);
}

#[test]
fn pass_with_new_rows_asks_for_another() {
    let mut c = SpotifyCollector::new();
    assert_eq!(c.step(PassOutcome::Rows(vec![full("A", "1")])), ScrollAction::ScrollAgain);
    assert_eq!(c.rows_to_skip(), 1);
    assert_eq!(c.step(PassOutcome::Rows(vec![full("A", "1"), full("B", "2")])), ScrollAction::ScrollAgain);
    assert_eq!(c.tracks(), &vec![track("A", "1"), track("B", "2")]);
}

#[test]
fn first_pass_without_new_rows_finishes() {
    let mut c = SpotifyCollector::new();
    c.step(PassOutcome::Rows(vec![full("A", "1")]));
    assert_eq!(c.step(PassOutcome::Rows(vec![full("A", "1")])), ScrollAction::Finished);
    let mut e = SpotifyCollector::new();
    assert_eq!(e.step(PassOutcome::Rows(vec![])), ScrollAction::Finished);
    assert!(e.tracks().is_empty());
}

#[test]
fn failed_query_changes_nothing_and_retries() {
    let mut c = SpotifyCollector::new();
    c.step(PassOutcome::Rows(vec![full("A", "1")]));
    assert_eq!(c.step(PassOutcome::QueryFailed), ScrollAction::ScrollAgain);
    assert_eq!(c.tracks(), &vec![track("A", "1")]);
}

#[test]
fn partial_rows_are_dropped() {
    let mut c = SpotifyCollector::new();
    let rows = vec![
        RowFields { name: Some("A".to_string()), artist: None },
        RowFields { name: None, artist: Some("2".to_string()) },
        full("C", "3"),
    ];
    assert_eq!(c.step(PassOutcome::Rows(rows)), ScrollAction::ScrollAgain);
    assert_eq!(c.into_tracks(), vec![track("C", "3")]);
}

#[test]
fn deduplicating_a_doubled_list_equals_deduplicating_it_once() {
    let l = vec![full("A", "1"), full("B", "2"), full("A", "1")];
    let mut doubled = l.clone();
    doubled.extend(l.clone());
    let mut once = SpotifyCollector::new();
    once.step(PassOutcome::Rows(l));
    let mut twice = SpotifyCollector::new();
    twice.step(PassOutcome::Rows(doubled));
    assert_eq!(once.tracks(), twice.tracks());
    assert_eq!(once.tracks().len(), 2);
}

#[test]
fn pass_ceiling_gives_up_while_rows_keep_coming() {
    let mut c = SpotifyCollector::with_limits(ScrollLimits { max_passes: 2, max_failed_queries: 5 });
    assert_eq!(c.step(PassOutcome::Rows(vec![full("A", "1")])), ScrollAction::ScrollAgain);
    assert_eq!(c.step(PassOutcome::Rows(vec![full("B", "2")])), ScrollAction::TimedOut);
    assert_eq!(c.tracks().len(), 2);
}

#[test]
fn convergence_at_the_ceiling_still_finishes() {
    let mut c = SpotifyCollector::with_limits(ScrollLimits { max_passes: 2, max_failed_queries: 5 });
    c.step(PassOutcome::Rows(vec![full("A", "1")]));
    assert_eq!(c.step(PassOutcome::Rows(vec![full("A", "1")])), ScrollAction::Finished);
}

#[test]
fn failed_queries_in_a_row_give_up() {
    let mut c = SpotifyCollector::with_limits(ScrollLimits { max_passes: 100, max_failed_queries: 1 });
    assert_eq!(c.step(PassOutcome::QueryFailed), ScrollAction::ScrollAgain);
    assert_eq!(c.step(PassOutcome::Rows(vec![full("A", "1")])), ScrollAction::ScrollAgain);
    assert_eq!(c.step(PassOutcome::QueryFailed), ScrollAction::ScrollAgain);
    assert_eq!(c.step(PassOutcome::QueryFailed), ScrollAction::TimedOut);
}

#[test]
fn without_ceilings_failed_queries_never_give_up() {
    let mut c = SpotifyCollector::new();
    for _ in 0..1000 {
        assert_eq!(c.step(PassOutcome::QueryFailed), ScrollAction::ScrollAgain);
    }
}
