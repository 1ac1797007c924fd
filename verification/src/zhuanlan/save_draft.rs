//! The draft of an article as it is handed to the site.
use crate::zhuanlan::items::{markup_of_all, Element};
use vstd::prelude::*;

verus! {

/// The site's answer to a saved draft.
#[derive(Debug, Clone)]
pub struct SaveDraft {
    /// The id of the draft.
    pub aid: i64,
}

/// A draft.
#[derive(Debug, Clone)]
pub struct Draft {
    pub title: String,
    /// The address of the banner; empty where there is none.
    pub banner_url: String,
    /// The content, element after element.
    pub content: Vec<Element>,
    /// A short abstract.
    pub summary: String,
    /// The token that the site asks for with every write.
    pub csrf: String,
}

impl Draft {
    /// The markup of the whole content.
    pub fn content_string(&self) -> (s: String)
        ensures
            s@ == markup_of_all(self.content@),
    {
        let mut s = String::new();
        let mut i: usize = 0;
        while i < self.content.len()
            invariant
                i <= self.content.len(),
                s@ == markup_of_all(self.content@.take(i as int)),
            decreases self.content.len() - i,
        {
            proof {
                assert(self.content@.take(i as int + 1).drop_last() =~= self.content@.take(i as int));
            }
            self.content[i].push_markup(&mut s);
            i += 1;
        }
        proof {
            assert(self.content@.take(self.content@.len() as int) =~= self.content@);
        }
        s
    }
}

} // verus!
