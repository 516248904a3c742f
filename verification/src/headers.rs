//! Request headers: a map from header names to values, and the rule for
//! the names that a caller may not set.

use vstd::prelude::*;
use crate::text::{eq_ignoring_case, same_ignoring_case, same_text, text_of};

verus! {

/// The views of the entries, in order.
pub open spec fn pairs_of(entries: Seq<(String, String)>) -> Seq<(Seq<char>, Seq<char>)> {
    entries.map_values(|e: (String, String)| (e.0@, e.1@))
}

/// The map that a list of entries stands for: a later entry for a name
/// takes the place of an earlier one.
pub open spec fn map_of(pairs: Seq<(Seq<char>, Seq<char>)>) -> Map<Seq<char>, Seq<char>>
    decreases pairs.len(),
{
    if pairs.len() == 0 {
        Map::empty()
    } else {
        map_of(pairs.drop_last()).insert(pairs.last().0, pairs.last().1)
    }
}

/// The names that are the same as `name` but for the case of their letters.
pub open spec fn names_like(name: Seq<char>) -> Set<Seq<char>> {
    Set::new(|k: Seq<char>| same_ignoring_case(k, name))
}

/// `name` is one of the header names that a caller may not set, in
/// whatever case it is written: `Cache-Control`, `Pragma`,
/// `If-Modified-Since`, `If-None-Match` and `User-Agent`.
pub open spec fn is_stripped_name(name: Seq<char>) -> bool {
    ||| same_ignoring_case(name, "Cache-Control"@)
    ||| same_ignoring_case(name, "Pragma"@)
    ||| same_ignoring_case(name, "If-Modified-Since"@)
    ||| same_ignoring_case(name, "If-None-Match"@)
    ||| same_ignoring_case(name, "User-Agent"@)
}

/// The header names that a caller may not set.
pub open spec fn stripped_names() -> Set<Seq<char>> {
    Set::new(|k: Seq<char>| is_stripped_name(k))
}

/// A map from header names to header values. Names are told apart by their
/// exact spelling.
#[derive(Clone, Debug)]
pub struct Headers {
    entries: Vec<(String, String)>,
}

impl View for Headers {
    type V = Map<Seq<char>, Seq<char>>;

    closed spec fn view(&self) -> Map<Seq<char>, Seq<char>> {
        map_of(pairs_of(self.entries@))
    }
}

/// A name that no entry of a list has is not in the list's map.
proof fn lemma_map_of_absent(pairs: Seq<(Seq<char>, Seq<char>)>, key: Seq<char>)
    requires
        forall|i: int| 0 <= i < pairs.len() ==> (#[trigger] pairs[i]).0 != key,
    ensures
        !map_of(pairs).dom().contains(key),
    decreases pairs.len(),
{
    if pairs.len() > 0 {
        let shorter = pairs.drop_last();
        assert forall|i: int| 0 <= i < shorter.len() implies (#[trigger] shorter[i]).0 != key by {
            assert(pairs[i].0 != key);
        }
        lemma_map_of_absent(shorter, key);
        assert(pairs[pairs.len() - 1].0 != key);
    }
}

/// Under a name, the map of a list has the value of the last entry with
/// that name.
proof fn lemma_map_of_found(pairs: Seq<(Seq<char>, Seq<char>)>, key: Seq<char>, at: int)
    requires
        0 <= at < pairs.len(),
        pairs[at].0 == key,
        forall|j: int| at < j < pairs.len() ==> (#[trigger] pairs[j]).0 != key,
    ensures
        map_of(pairs).dom().contains(key),
        map_of(pairs)[key] == pairs[at].1,
    decreases pairs.len(),
{
    if at < pairs.len() - 1 {
        let shorter = pairs.drop_last();
        assert forall|j: int| at < j < shorter.len() implies (#[trigger] shorter[j]).0 != key by {
            assert(pairs[j].0 != key);
        }
        lemma_map_of_found(shorter, key, at);
        assert(pairs[pairs.len() - 1].0 != key);
    }
}

impl Headers {
    /// The entries in the order in which they were put in; the map is
    /// `map_of` of them.
    pub closed spec fn pairs(&self) -> Seq<(Seq<char>, Seq<char>)> {
        pairs_of(self.entries@)
    }

    /// A map without entries.
    pub fn new() -> (headers: Self)
        ensures
            headers@ == Map::<Seq<char>, Seq<char>>::empty(),
            headers.pairs() == Seq::<(Seq<char>, Seq<char>)>::empty(),
    {
        Headers { entries: Vec::new() }
    }

    /// Gives the value that stands under `name`, if one does.
    pub fn get(&self, name: &str) -> (value: Option<String>)
        ensures
            text_of(value) == if self@.dom().contains(name@) {
                Some(self@[name@])
            } else {
                None
            },
    {
        let ghost pairs = pairs_of(self.entries@);
        let mut i: usize = self.entries.len();
        while i > 0
            invariant
                i <= self.entries.len(),
                pairs == pairs_of(self.entries@),
                forall|j: int| i <= j < pairs.len() ==> (#[trigger] pairs[j]).0 != name@,
            decreases i,
        {
            i -= 1;
            if same_text(self.entries[i].0.as_str(), name) {
                let value = self.entries[i].1.clone();
                proof {
                    assert(pairs[i as int] == (self.entries@[i as int].0@, self.entries@[i as int].1@));
                    lemma_map_of_found(pairs, name@, i as int);
                }
                return Some(value);
            }
        }
        proof {
            lemma_map_of_absent(pairs, name@);
        }
        None
    }

    /// Tells whether a value stands under `name`.
    pub fn contains_key(&self, name: &str) -> (found: bool)
        ensures
            found == self@.dom().contains(name@),
    {
        self.get(name).is_some()
    }

    /// Puts `value` under `name`, in place of what stood there.
    pub fn insert(&mut self, name: String, value: String)
        ensures
            final(self)@ == old(self)@.insert(name@, value@),
            final(self).pairs() == old(self).pairs().push((name@, value@)),
    {
        let ghost before = pairs_of(self.entries@);
        self.entries.push((name, value));
        proof {
            assert(pairs_of(self.entries@).drop_last() =~= before);
            assert(pairs_of(self.entries@) =~= before.push((name@, value@)));
        }
    }

    /// Takes away what stands under `name`, if anything does.
    pub fn remove(&mut self, name: &str)
        ensures
            final(self)@ == old(self)@.remove(name@),
    {
        let ghost pairs = pairs_of(self.entries@);
        let mut kept: Vec<(String, String)> = Vec::new();
        let mut i: usize = 0;
        while i < self.entries.len()
            invariant
                i <= self.entries.len(),
                pairs == pairs_of(self.entries@),
                map_of(pairs_of(kept@)) == map_of(pairs.take(i as int)).remove(name@),
            decreases self.entries.len() - i,
        {
            let ghost kept_before = pairs_of(kept@);
            proof {
                assert(pairs.take(i + 1).drop_last() =~= pairs.take(i as int));
            }
            if !same_text(self.entries[i].0.as_str(), name) {
                kept.push((self.entries[i].0.clone(), self.entries[i].1.clone()));
                proof {
                    assert(pairs_of(kept@).drop_last() =~= kept_before);
                    assert(pairs_of(kept@).last() == pairs[i as int]);
                    assert(map_of(pairs_of(kept@)) =~= map_of(pairs.take(i + 1)).remove(name@));
                }
            } else {
                proof {
                    assert(map_of(pairs_of(kept@)) =~= map_of(pairs.take(i + 1)).remove(name@));
                }
            }
            i += 1;
        }
        proof {
            assert(pairs.take(i as int) =~= pairs);
        }
        self.entries = kept;
    }

    /// Takes away every entry whose name is `name` but for the case of its
    /// letters.
    pub fn remove_ignoring_case(&mut self, name: &str)
        ensures
            final(self)@ == old(self)@.remove_keys(names_like(name@)),
    {
        let ghost pairs = pairs_of(self.entries@);
        let ghost like = names_like(name@);
        let mut kept: Vec<(String, String)> = Vec::new();
        let mut i: usize = 0;
        while i < self.entries.len()
            invariant
                i <= self.entries.len(),
                pairs == pairs_of(self.entries@),
                like == names_like(name@),
                map_of(pairs_of(kept@)) == map_of(pairs.take(i as int)).remove_keys(like),
            decreases self.entries.len() - i,
        {
            let ghost kept_before = pairs_of(kept@);
            proof {
                assert(pairs.take(i + 1).drop_last() =~= pairs.take(i as int));
            }
            if !eq_ignoring_case(self.entries[i].0.as_str(), name) {
                kept.push((self.entries[i].0.clone(), self.entries[i].1.clone()));
                proof {
                    assert(pairs_of(kept@).drop_last() =~= kept_before);
                    assert(pairs_of(kept@).last() == pairs[i as int]);
                    assert(!like.contains(pairs[i as int].0));
                    assert(map_of(pairs_of(kept@)) =~= map_of(pairs.take(i + 1)).remove_keys(like));
                }
            } else {
                proof {
                    assert(like.contains(pairs[i as int].0));
                    assert(map_of(pairs_of(kept@)) =~= map_of(pairs.take(i + 1)).remove_keys(like));
                }
            }
            i += 1;
        }
        proof {
            assert(pairs.take(i as int) =~= pairs);
        }
        self.entries = kept;
    }

    /// Gives the entries as pairs of name and value. Where a name comes more
    /// than once, the last pair with it holds its value.
    pub fn entries(&self) -> (pairs: Vec<(String, String)>)
        ensures
            pairs_of(pairs@) == self.pairs(),
            map_of(pairs_of(pairs@)) == self@,
    {
        let mut pairs: Vec<(String, String)> = Vec::new();
        let mut i: usize = 0;
        while i < self.entries.len()
            invariant
                i <= self.entries.len(),
                pairs_of(pairs@) == pairs_of(self.entries@).take(i as int),
            decreases self.entries.len() - i,
        {
            let ghost before = pairs_of(pairs@);
            pairs.push((self.entries[i].0.clone(), self.entries[i].1.clone()));
            proof {
                assert(pairs_of(pairs@).drop_last() =~= before);
                assert(pairs_of(pairs@).last() == pairs_of(self.entries@)[i as int]);
                assert(pairs_of(pairs@) =~= pairs_of(pairs@).drop_last().push(pairs_of(pairs@).last()));
                assert(pairs_of(pairs@) =~= pairs_of(self.entries@).take(i + 1));
            }
            i += 1;
        }
        proof {
            assert(pairs_of(self.entries@).take(i as int) =~= pairs_of(self.entries@));
        }
        pairs
    }

    /// Makes a copy of the map.
    pub fn duplicate(&self) -> (copy: Self)
        ensures
            copy@ == self@,
            copy.pairs() == self.pairs(),
    {
        Headers { entries: self.entries() }
    }
}

/// Takes away the headers that a caller may not set: whatever stands under
/// `Cache-Control`, `Pragma`, `If-Modified-Since`, `If-None-Match` or
/// `User-Agent`, in any case of the letters. Every other entry stays.
pub fn modify_header(header: &mut Headers)
    ensures
        final(header)@ == old(header)@.remove_keys(stripped_names()),
        forall|name: Seq<char>| final(header)@.dom().contains(name) ==> !is_stripped_name(name),
{
    header.remove_ignoring_case("Cache-Control");
    header.remove_ignoring_case("Pragma");
    header.remove_ignoring_case("If-Modified-Since");
    header.remove_ignoring_case("If-None-Match");
    header.remove_ignoring_case("User-Agent");
    proof {
        assert(header@ =~= old(header)@.remove_keys(stripped_names()));
    }
}

} // verus!
