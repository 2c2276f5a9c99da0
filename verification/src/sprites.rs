//! Sprite metadata: the name of a sprite and the location its preview image
//! is fetched from. Fetching and caching are outside collaborators; the
//! logic here only derives the preview's file name from its location.

use crate::names::{last_index_of, last_index_of_char, lemma_last_index_of};
use vstd::prelude::*;

verus! {

/// The suffix after the last slash, or the whole string when it holds no
/// slash.
pub open spec fn spec_after_last_slash(s: Seq<char>) -> Seq<char> {
    s.skip(last_index_of(s, '/') + 1)
}

/// A sprite as its metadata describes it: a display name and the location
/// of its preview image.
pub struct Sprite {
    pub name: String,
    pub preview: String,
}

impl Sprite {
    /// The file-name part of the preview location: everything after the
    /// last slash, or the whole location when it holds no slash.
    pub fn preview_filename(&self) -> (r: &str)
        ensures
            r@ == spec_after_last_slash(self.preview@),
    {
        proof {
            lemma_last_index_of(self.preview@, '/');
        }
        let s = self.preview.as_str();
        match last_index_of_char(s, '/') {
            Some(k) => {
                let n = s.unicode_len();
                let r = s.substring_char(k + 1, n);
                proof {
                    assert(r@ =~= spec_after_last_slash(self.preview@));
                }
                r
            },
            None => {
                proof {
                    assert(s@ =~= spec_after_last_slash(self.preview@));
                }
                s
            },
        }
    }
}

} // verus!
