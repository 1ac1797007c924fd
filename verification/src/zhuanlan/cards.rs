//! What the site knows of the videos that an article links to.
use crate::keyed::{first_with, has_key, position, Keyed};
use vstd::prelude::*;

verus! {

/// What the site knows of one video.
#[derive(Debug, Clone)]
pub struct Card {
    pub aid: u64,
    pub pic: String,
}

/// A video id together with what the site knows of the video.
#[derive(Debug, Clone)]
pub struct CardEntry {
    pub bvid: String,
    pub card: Card,
}

impl Keyed for CardEntry {
    open spec fn key(&self) -> Seq<char> {
        self.bvid@
    }

    fn key_str(&self) -> (k: &str) {
        self.bvid.as_str()
    }
}

/// What the site knows of the videos that were asked about. A video that
/// was deleted has no entry.
#[derive(Debug, Clone)]
pub struct Cards {
    pub map: Vec<CardEntry>,
}

impl Cards {
    /// What the site knows of the video `bvid`.
    pub fn get(&self, bvid: &str) -> (r: Option<&Card>)
        ensures
            r is Some <==> has_key(self.map@, bvid@),
            r matches Some(card) ==> *card == self.map@[first_with(self.map@, bvid@)->0].card,
    {
        match position(&self.map, bvid) {
            Some(i) => Some(&self.map[i].card),
            None => None,
        }
    }
}

} // verus!
