use playlist_porter::track::Track;

fn t(name: &str, artist: &str, album: Option<&str>) -> Track {
    Track { name: name.to_string(), artist: artist.to_string(), album: album.map(|a| a.to_string()) }
}

#[test]
fn equality_is_structural() {
    let a = t("N", "A", None);
    assert!(a == a.clone());
    assert!(a == t("N", "A", None));
    assert!(t("N", "A", Some("X")) == t("N", "A", Some("X")));
    assert!(a != t("N", "A", Some("X")));
    assert!(t("N", "A", Some("X")) != a);
    assert!(a != t("N", "B", None));
    assert!(a != t("M", "A", None));
    assert!(t("N", "A", Some("")) != a);
}
