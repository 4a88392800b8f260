//! The streaming platforms, told apart by the host of a URL.
use vstd::prelude::*;
use vstd::string::StringExecFns;
use crate::text::{parse_url_host, parsed_url_host};

verus! {

/// A supported music service, or `Unknown`.
#[derive(Clone, Copy, Debug, PartialEq, Eq, Structural)]
pub enum Platform {
    Youtube,
    Apple,
    Spotify,
    Unknown,
}

/// The platform that serves a host; absent and unrecognized hosts are `Unknown`.
pub open spec fn platform_of_host(host: Option<Seq<char>>) -> Platform {
    match host {
        Some(h) => if h == "music.youtube.com"@ {
            Platform::Youtube
        } else if h == "music.apple.com"@ || h == "itunes.apple.com"@ {
            Platform::Apple
        } else if h == "open.spotify.com"@ || h == "spotify.com"@ {
            Platform::Spotify
        } else {
            Platform::Unknown
        },
        None => Platform::Unknown,
    }
}

fn same_text(a: &String, b: &str) -> (r: bool)
    ensures
        r == (a@ == b@),
{
    let b = String::from_str(b);
    *a == b
}

impl Platform {
    /// Classifies a URL's host by exact match against the known hosts.
    pub fn from_host(host: Option<&str>) -> (r: Platform)
        ensures
            r == platform_of_host(
                match host {
                    Some(h) => Some(h@),
                    None => None,
                },
            ),
    {
        match host {
            Some(h) => {
                let h = String::from_str(h);
                if same_text(&h, "music.youtube.com") {
                    Platform::Youtube
                } else if same_text(&h, "music.apple.com") || same_text(&h, "itunes.apple.com") {
                    Platform::Apple
                } else if same_text(&h, "open.spotify.com") || same_text(&h, "spotify.com") {
                    Platform::Spotify
                } else {
                    Platform::Unknown
                }
            },
            None => Platform::Unknown,
        }
    }

    /// Classifies a URL given as text; `None` when the text is not a URL.
    pub fn from_url(url: &str) -> (r: Option<Platform>)
        ensures
            match parsed_url_host(url@) {
                None => r is None,
                Some(host) => r == Some(platform_of_host(host)),
            },
    {
        match parse_url_host(url) {
            None => None,
            Some(None) => Some(Platform::from_host(None)),
            Some(Some(h)) => Some(Platform::from_host(Some(h.as_str()))),
        }
    }
}

} // verus!
