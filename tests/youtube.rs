use playlist_porter::error::ScrapeError;
use playlist_porter::track::Track;
use playlist_porter::youtube::{tracks_from_rows, yt_track_from_fields};

fn row(fields: &[&str]) -> Vec<String> {
    fields.iter().map(|s| s.to_string()).collect()
}

#[test]
fn five_fields_with_album() {
    let t = yt_track_from_fields(&row(&["Song", "Artist", "Album", "3:21", ""])).unwrap();
    assert_eq!(
        t,
        Track { name: "Song".to_string(), artist: "Artist".to_string(), album: Some("Album".to_string()) }
    );
}

#[test]
fn five_fields_with_empty_album() {
    let t = yt_track_from_fields(&row(&["Song", "Artist", "", "3:21", ""])).unwrap();
    assert_eq!(t.name, "Song");
    assert_eq!(t.artist, "Artist");
    assert_eq!(t.album, None);
}

#[test]
fn other_field_counts_are_malformed() {
    assert_eq!(
        yt_track_from_fields(&row(&["Song", "Artist", "Album", "3:21"])),
        Err(ScrapeError::MalformedRow)
    );
    assert_eq!(
        yt_track_from_fields(&row(&["Song", "Artist", "Album", "3:21", "", "x"])),
        Err(ScrapeError::MalformedRow)
    );
    assert_eq!(yt_track_from_fields(&row(&[])), Err(ScrapeError::MalformedRow));
}

#[test]
fn rows_map_in_page_order() {
    let rows = vec![row(&["A", "X", "", "1:00", ""]), row(&["B", "Y", "Z", "2:00", ""])];
    let tracks = tracks_from_rows(&rows).unwrap();
    assert_eq!(tracks.len(), 2);
    assert_eq!(tracks[0].name, "A");
    assert_eq!(tracks[0].album, None);
    assert_eq!(tracks[1].name, "B");
    assert_eq!(tracks[1].album, Some("Z".to_string()));
}

#[test]
fn one_malformed_row_fails_the_playlist() {
    let rows = vec![row(&["A", "X", "", "1:00", ""]), row(&["B", "Y"])];
    assert_eq!(tracks_from_rows(&rows), Err(ScrapeError::MalformedRow));
}

#[test]
fn no_rows_give_no_tracks() {
    assert_eq!(tracks_from_rows(&vec![]), Ok(vec![]));
}
