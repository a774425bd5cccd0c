//! The dynamic schema: an order-irrelevant mapping from origin schema names
//! to target schema names, used to remap table qualification at compile time.
//! Parsed from an optional JSON string; malformed input degrades to empty.
use vstd::prelude::*;

verus! {

/// First value mapped to `key`, if any.
pub open spec fn spec_map_lookup(entries: Seq<(Seq<char>, Seq<char>)>, key: Seq<char>) -> Option<
    Seq<char>,
>
    decreases entries.len(),
{
    if entries.len() == 0 {
        None
    } else if entries[0].0 == key {
        Some(entries[0].1)
    } else {
        spec_map_lookup(entries.drop_first(), key)
    }
}

/// A mapping from origin schema name to target schema name.
#[derive(Debug)]
pub struct DynamicSchema {
    pub entries: Vec<(String, String)>,
}

impl View for DynamicSchema {
    type V = Seq<(Seq<char>, Seq<char>)>;

    open spec fn view(&self) -> Seq<(Seq<char>, Seq<char>)> {
        Seq::new(self.entries@.len(), |i: int| (self.entries@[i].0@, self.entries@[i].1@))
    }
}

/// Relies on serde_json::from_str for `HashMap<String, String>`: parses a
/// JSON object of string-to-string entries, failing on malformed input or any
/// other JSON shape; a map's keys are distinct.
#[verifier::external_body]
fn parse_schema_pairs(s: &str) -> (r: Option<Vec<(String, String)>>)
    ensures
        r matches Some(v) ==> forall|i: int, j: int|
            0 <= i < j < v@.len() ==> v@[i].0@ != v@[j].0@,
{
    let parsed: Result<std::collections::HashMap<String, String>, serde_json::Error> =
        serde_json::from_str(s);
    parsed.ok().map(|m| m.into_iter().collect())
}

impl DynamicSchema {
    /// An empty mapping: every origin schema maps to itself.
    pub fn new() -> (r: Self)
        ensures
            r@.len() == 0,
    {
        DynamicSchema { entries: Vec::new() }
    }

    /// Parses the mapping from an optional JSON object of string entries.
    /// An absent or malformed input degrades to the empty mapping; a parsed
    /// mapping has distinct origin names.
    pub fn from_str(s: Option<String>) -> (r: Self)
        ensures
            s is None ==> r@.len() == 0,
            forall|i: int, j: int| 0 <= i < j < r@.len() ==> r@[i].0 != r@[j].0,
    {
        match s {
            None => Self::new(),
            Some(text) => {
                match parse_schema_pairs(text.as_str()) {
                    Some(entries) => {
                        let r = DynamicSchema { entries };
                        proof {
                            assert(forall|i: int|
                                0 <= i < r@.len() ==> #[trigger] r@[i] == (
                                r.entries@[i].0@,
                                r.entries@[i].1@,
                                ));
                        }
                        r
                    },
                    None => Self::new(),
                }
            },
        }
    }

    /// Whether the mapping is empty.
    pub fn is_empty(&self) -> (r: bool)
        ensures
            r == (self@.len() == 0),
    {
        self.entries.len() == 0
    }

    /// Adds a mapping from an origin schema to a target schema.
    pub fn insert(&mut self, origin: String, target: String)
        ensures
            final(self)@ == old(self)@.push((origin@, target@)),
    {
        self.entries.push((origin, target));
        proof {
            assert(self@ =~= old(self)@.push((origin@, target@)));
        }
    }

    /// The target schema mapped to the origin, if any.
    pub fn get(&self, origin: &String) -> (r: Option<&String>)
        ensures
            match r {
                Some(t) => spec_map_lookup(self@, origin@) == Some(t@),
                None => spec_map_lookup(self@, origin@) is None,
            },
    {
        let mut i: usize = 0;
        proof {
            assert(self@.skip(0) =~= self@);
        }
        while i < self.entries.len()
            invariant
                i <= self.entries@.len(),
                self@.len() == self.entries@.len(),
                spec_map_lookup(self@, origin@) == spec_map_lookup(self@.skip(i as int), origin@),
            decreases self.entries@.len() - i,
        {
            proof {
                assert(self@.skip(i as int)[0] == self@[i as int]);
                assert(self@.skip(i as int).drop_first() =~= self@.skip(i + 1));
            }
            if self.entries[i].0 == *origin {
                return Some(&self.entries[i].1);
            }
            i = i + 1;
        }
        proof {
            assert(self@.skip(i as int).len() == 0);
        }
        None
    }
}

} // verus!
