use vstd::prelude::*;

verus! {

/// The string-to-string map that a JSON text denotes when it is an object
/// whose values are all strings; `None` for any other text.
pub uninterp spec fn json_string_map(text: Seq<char>) -> Option<Map<Seq<char>, Seq<char>>>;

#[verifier::external_type_specification]
#[verifier::external_body]
pub struct ExJsonError(serde_json::Error);

/// The map that a list of key-value pairs builds when they are inserted in
/// order: a later pair overrides an earlier one with the same key.
pub open spec fn pairs_map(s: Seq<(Seq<char>, Seq<char>)>) -> Map<Seq<char>, Seq<char>>
    decreases s.len(),
{
    if s.len() == 0 {
        Map::empty()
    } else {
        pairs_map(s.drop_last()).insert(s.last().0, s.last().1)
    }
}

pub open spec fn pair_views(v: Seq<(String, String)>) -> Seq<(Seq<char>, Seq<char>)> {
    v.map_values(|p: (String, String)| (p.0@, p.1@))
}

/// Relies on `serde_json::from_str` into a `HashMap<String, String>`: it
/// accepts exactly the JSON objects whose values are all strings, and yields
/// their entries (each key once, in no particular order).
#[verifier::external_body]
fn json_object(text: &str) -> (r: Result<Vec<(String, String)>, serde_json::Error>)
    ensures
        match r {
            Ok(v) => json_string_map(text@) == Some(pairs_map(pair_views(v@))),
            Err(_) => json_string_map(text@) is None,
        },
{
    match serde_json::from_str::<std::collections::HashMap<String, String>>(text) {
        Ok(m) => Ok(m.into_iter().collect()),
        Err(e) => Err(e),
    }
}

/// Why a configuration could not be read.
#[derive(Debug, Clone, Copy, PartialEq, Eq)]
pub enum ConfigError {
    /// The text is not a JSON object of string values.
    InvalidJson,
}

/// Read-only key-value configuration of a game package.
#[derive(Debug)]
pub struct PackConfig {
    entries: Vec<(String, String)>,
}

impl View for PackConfig {
    type V = Map<Seq<char>, Seq<char>>;

    closed spec fn view(&self) -> Map<Seq<char>, Seq<char>> {
        pairs_map(pair_views(self.entries@))
    }
}

/// Without a pair of key `k` from position `i` on, a list maps `k` as its
/// first `i` pairs do.
proof fn lemma_pairs_map_tail_free(s: Seq<(Seq<char>, Seq<char>)>, i: int, k: Seq<char>)
    requires
        0 <= i <= s.len(),
        forall|j: int| i <= j < s.len() ==> s[j].0 != k,
    ensures
        pairs_map(s).contains_key(k) == pairs_map(s.take(i)).contains_key(k),
        pairs_map(s.take(i)).contains_key(k) ==> pairs_map(s)[k] == pairs_map(s.take(i))[k],
    decreases s.len() - i,
{
    if i < s.len() {
        lemma_pairs_map_tail_free(s, i + 1, k);
        assert(s.take(i + 1).drop_last() =~= s.take(i));
    } else {
        assert(s.take(i) =~= s);
    }
}

impl PackConfig {
    /// Reads a configuration from a JSON object of string values.
    pub fn from_json(text: &str) -> (r: Result<PackConfig, ConfigError>)
        ensures
            match json_string_map(text@) {
                Some(m) => r matches Ok(c) && c@ == m,
                None => r == Err::<PackConfig, ConfigError>(ConfigError::InvalidJson),
            },
    {
        match json_object(text) {
            Ok(entries) => Ok(PackConfig { entries }),
            Err(_) => Err(ConfigError::InvalidJson),
        }
    }

    /// The value of `key`, if the configuration has one. The answer depends
    /// on the configuration and the key alone, so asking twice gives the
    /// same answer.
    pub fn get_config(&self, key: &str) -> (r: Option<String>)
        ensures
            match r {
                Some(v) => self@.contains_key(key@) && v@ == self@[key@],
                None => !self@.contains_key(key@),
            },
    {
        let ghost s = pair_views(self.entries@);
        let target = key.to_owned();
        let mut i: usize = self.entries.len();
        while i > 0
            invariant
                i <= self.entries.len(),
                s == pair_views(self.entries@),
                target@ == key@,
                forall|j: int| i <= j < s.len() ==> s[j].0 != key@,
            decreases i,
        {
            let e = &self.entries[i - 1];
            assert(s[i - 1] == (e.0@, e.1@));
            if e.0.eq(&target) {
                let v = e.1.clone();
                proof {
                    lemma_pairs_map_tail_free(s, i as int, key@);
                    assert(s.take(i as int).drop_last() =~= s.take(i - 1));
                }
                return Some(v);
            }
            i = i - 1;
        }
        proof {
            lemma_pairs_map_tail_free(s, 0, key@);
            assert(s.take(0) =~= Seq::<(Seq<char>, Seq<char>)>::empty());
        }
        None
    }
}

} // verus!
