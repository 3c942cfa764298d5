//! The emoji dictionary: emoji and the short names under which they are
//! spoken, shared read-only by everyone who asks for it.

use vstd::prelude::*;
use std::collections::HashMap;
use std::sync::Arc;

verus! {

/// Emoji and their spoken short names.
pub struct EmojiDB {
    data: Arc<HashMap<String, String>>,
}

impl EmojiDB {
    /// The dictionary as a map from emoji to short name.
    pub closed spec fn dictionary(&self) -> Map<String, String> {
        self.data@
    }

    /// A dictionary holding `data`.
    pub fn new(data: HashMap<String, String>) -> (r: EmojiDB)
        ensures
            r.dictionary() == data@,
    {
        EmojiDB { data: Arc::new(data) }
    }

    /// A shared handle on the dictionary.
    pub fn get_dictionary(&self) -> (r: Arc<HashMap<String, String>>)
        ensures
            r@ == self.dictionary(),
    {
        self.data.clone()
    }
}

} // verus!
