//! Metadata of audio tracks.
use vstd::prelude::*;
use std::time::Duration;

verus! {

#[derive(Debug, Clone, PartialEq, Eq)]
pub struct Metadata {
    pub title: Option<String>,
    pub artist: Option<String>,
    pub album: Option<String>,
    pub duration: Option<Duration>,
    pub genre: Option<String>,
}

/// `value` holds a string whose text is `text`.
pub open spec fn holds_text(value: Option<String>, text: Seq<char>) -> bool {
    value matches Some(s) && s@ == text
}

impl Metadata {
    pub open spec fn is_empty(self) -> bool {
        self.title is None && self.artist is None && self.album is None && self.duration is None
            && self.genre is None
    }

    pub fn new() -> (r: Self)
        ensures
            r.is_empty(),
    {
        Metadata { title: None, artist: None, album: None, duration: None, genre: None }
    }

    pub fn with_title(self, title: &str) -> (r: Self)
        ensures
            holds_text(r.title, title@),
            r.artist == self.artist && r.album == self.album && r.duration == self.duration
                && r.genre == self.genre,
    {
        Metadata { title: Some(title.to_owned()), ..self }
    }

    pub fn with_artist(self, artist: &str) -> (r: Self)
        ensures
            holds_text(r.artist, artist@),
            r.title == self.title && r.album == self.album && r.duration == self.duration
                && r.genre == self.genre,
    {
        Metadata { artist: Some(artist.to_owned()), ..self }
    }

    pub fn with_album(self, album: &str) -> (r: Self)
        ensures
            holds_text(r.album, album@),
            r.title == self.title && r.artist == self.artist && r.duration == self.duration
                && r.genre == self.genre,
    {
        Metadata { album: Some(album.to_owned()), ..self }
    }

    pub fn with_duration(self, duration: Duration) -> (r: Self)
        ensures
            r.duration == Some(duration),
            r.title == self.title && r.artist == self.artist && r.album == self.album
                && r.genre == self.genre,
    {
        Metadata { duration: Some(duration), ..self }
    }

    pub fn with_genre(self, genre: &str) -> (r: Self)
        ensures
            holds_text(r.genre, genre@),
            r.title == self.title && r.artist == self.artist && r.album == self.album
                && r.duration == self.duration,
    {
        Metadata { genre: Some(genre.to_owned()), ..self }
    }
}

impl Default for Metadata {
    fn default() -> (r: Self)
        ensures
            r.is_empty(),
    {
        Metadata::new()
    }
}

} // verus!
