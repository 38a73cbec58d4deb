//! The knock-knock-joke lineage of the content model: the JSON-facing
//! record and its split into a stored entry plus a tag list.

use vstd::prelude::*;

verus! {

/// JSON-facing representation of a knock-knock joke with its tags.
pub struct JsonJoke {
    pub id: String,
    pub whos_there: String,
    pub answer_who: String,
    pub tags: Vec<String>,
    pub source: String,
}

/// A stored knock-knock joke, without its tags.
pub struct Joke {
    pub id: String,
    pub whos_there: String,
    pub answer_who: String,
    pub joke_source: String,
}

impl JsonJoke {
    /// Splits a `JsonJoke` into a joke and its tag list.
    #[verifier::loop_isolation(false)]
    pub fn to_joke(&self) -> (r: (Joke, Vec<String>))
        ensures
            r.0.id@ == self.id@,
            r.0.whos_there@ == self.whos_there@,
            r.0.answer_who@ == self.answer_who@,
            r.0.joke_source@ == self.source@,
            r.1@.map_values(|t: String| t@) == self.tags@.map_values(|t: String| t@),
    {
        let joke = Joke {
            id: self.id.clone(),
            whos_there: self.whos_there.clone(),
            answer_who: self.answer_who.clone(),
            joke_source: self.source.clone(),
        };
        let mut tags: Vec<String> = Vec::new();
        let mut i: usize = 0;
        while i < self.tags.len()
            invariant
                i <= self.tags@.len(),
                tags@.map_values(|t: String| t@) == self.tags@.map_values(|t: String| t@).take(
                    i as int,
                ),
            decreases self.tags@.len() - i,
        {
            tags.push(self.tags[i].clone());
            proof {
                let m = self.tags@.map_values(|t: String| t@);
                assert(tags@.map_values(|t: String| t@) =~= m.take(i + 1));
            }
            i += 1;
        }
        proof {
            let m = self.tags@.map_values(|t: String| t@);
            assert(m.take(m.len() as int) =~= m);
        }
        (joke, tags)
    }
}

} // verus!
