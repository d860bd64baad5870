//! The parameters of a request: a map from names to values, each name at most once.

use crate::text::text_eq;
use vstd::prelude::*;

verus! {

/// A name and its value.
pub type Pair = (Seq<char>, Seq<char>);

/// The map that results from inserting pairs one after the other into an empty map.
pub open spec fn pairs_map(pairs: Seq<Pair>) -> Map<Seq<char>, Seq<char>>
    decreases pairs.len(),
{
    if pairs.len() == 0 {
        Map::empty()
    } else {
        pairs_map(pairs.drop_last()).insert(pairs.last().0, pairs.last().1)
    }
}

/// Whether no name occurs twice.
pub open spec fn distinct_names(pairs: Seq<Pair>) -> bool {
    forall|i: int, j: int|
        0 <= i < j < pairs.len() ==> (#[trigger] pairs[i]).0 != (#[trigger] pairs[j]).0
}

/// The text behind a pair of strings.
pub open spec fn pair_view(pair: (String, String)) -> Pair {
    (pair.0@, pair.1@)
}

/// The texts behind a list of pairs of strings.
pub open spec fn pairs_view(pairs: Seq<(String, String)>) -> Seq<Pair> {
    pairs.map_values(|pair: (String, String)| pair_view(pair))
}

/// `map` with `value` under `name`, if it had nothing there.
pub open spec fn or_insert(
    map: Map<Seq<char>, Seq<char>>,
    name: Seq<char>,
    value: Seq<char>,
) -> Map<Seq<char>, Seq<char>> {
    if map.dom().contains(name) {
        map
    } else {
        map.insert(name, value)
    }
}

/// A name is in the map of some pairs exactly if one of them carries it.
pub proof fn pairs_map_names(pairs: Seq<Pair>, name: Seq<char>)
    ensures
        pairs_map(pairs).dom().contains(name) <==> exists|i: int|
            0 <= i < pairs.len() && (#[trigger] pairs[i]).0 == name,
    decreases pairs.len(),
{
    if pairs.len() > 0 {
        let front = pairs.drop_last();
        pairs_map_names(front, name);
        if pairs_map(front).dom().contains(name) {
            let i = choose|i: int| 0 <= i < front.len() && (#[trigger] front[i]).0 == name;
            assert(pairs[i].0 == name);
        }
        if pairs.last().0 == name {
            assert(pairs[pairs.len() - 1].0 == name);
        }
        if exists|i: int| 0 <= i < pairs.len() && (#[trigger] pairs[i]).0 == name {
            let i = choose|i: int| 0 <= i < pairs.len() && (#[trigger] pairs[i]).0 == name;
            if i < pairs.len() - 1 {
                assert(front[i].0 == name);
            }
        }
    }
}

/// The last pair that carries a name gives it its value in the map.
pub proof fn last_pair_holds(pairs: Seq<Pair>, i: int)
    requires
        0 <= i < pairs.len(),
        forall|j: int| i < j < pairs.len() ==> (#[trigger] pairs[j]).0 != pairs[i].0,
    ensures
        pairs_map(pairs).dom().contains(pairs[i].0),
        pairs_map(pairs)[pairs[i].0] == pairs[i].1,
    decreases pairs.len(),
{
    if i < pairs.len() - 1 {
        let front = pairs.drop_last();
        assert forall|j: int| i < j < front.len() implies (#[trigger] front[j]).0 != front[i].0 by {
            assert(front[j] == pairs[j]);
        }
        last_pair_holds(front, i);
        assert(front[i] == pairs[i]);
        assert(pairs[pairs.len() - 1].0 != pairs[i].0);
    }
}

/// With distinct names, the map of some pairs gives each name the value it has among them.
pub proof fn pairs_map_value(pairs: Seq<Pair>, i: int)
    requires
        distinct_names(pairs),
        0 <= i < pairs.len(),
    ensures
        pairs_map(pairs).dom().contains(pairs[i].0),
        pairs_map(pairs)[pairs[i].0] == pairs[i].1,
{
    last_pair_holds(pairs, i);
}

/// Giving a new value to one of distinct names is an insertion into the map.
proof fn pairs_map_update(pairs: Seq<Pair>, i: int, value: Seq<char>)
    requires
        distinct_names(pairs),
        0 <= i < pairs.len(),
    ensures
        distinct_names(pairs.update(i, (pairs[i].0, value))),
        pairs_map(pairs.update(i, (pairs[i].0, value))) == pairs_map(pairs).insert(
            pairs[i].0,
            value,
        ),
{
    let updated = pairs.update(i, (pairs[i].0, value));
    assert(forall|j: int| 0 <= j < pairs.len() ==> (#[trigger] updated[j]).0 == pairs[j].0);
    let left = pairs_map(updated);
    let right = pairs_map(pairs).insert(pairs[i].0, value);
    assert forall|name: Seq<char>| left.dom().contains(name) <==> right.dom().contains(name) by {
        pairs_map_names(updated, name);
        pairs_map_names(pairs, name);
        if left.dom().contains(name) {
            let j = choose|j: int| 0 <= j < updated.len() && (#[trigger] updated[j]).0 == name;
            assert(pairs[j].0 == name);
        }
        if right.dom().contains(name) && name != pairs[i].0 {
            let j = choose|j: int| 0 <= j < pairs.len() && (#[trigger] pairs[j]).0 == name;
            assert(updated[j].0 == name);
        }
        if name == pairs[i].0 {
            assert(updated[i].0 == name);
        }
    }
    assert forall|name: Seq<char>| left.dom().contains(name) implies left[name] == right[name] by {
        pairs_map_names(updated, name);
        let j = choose|j: int| 0 <= j < updated.len() && (#[trigger] updated[j]).0 == name;
        pairs_map_value(updated, j);
        pairs_map_value(pairs, j);
        if j != i {
            assert(updated[j] == pairs[j]);
            if i < j {
                assert(pairs[i].0 != pairs[j].0);
            } else {
                assert(pairs[j].0 != pairs[i].0);
            }
        }
    }
    assert(left =~= right);
}

/// FastCGI parameters by name.
///
/// The view is a map. Walking the parameters meets each of them once, in an order that carries no
/// meaning.
pub struct Params {
    entries: Vec<(String, String)>,
}

impl View for Params {
    type V = Map<Seq<char>, Seq<char>>;

    closed spec fn view(&self) -> Map<Seq<char>, Seq<char>> {
        pairs_map(self.pairs())
    }
}

impl Params {
    /// The parameters as a list, in the order in which they are walked.
    pub closed spec fn pairs(&self) -> Seq<Pair> {
        pairs_view(self.entries@)
    }

    /// Each parameter stands in the list once.
    #[verifier::type_invariant]
    pub closed spec fn wf(&self) -> bool {
        distinct_names(self.pairs())
    }

    /// The list and the map tell the same: distinct names, with the values of the map.
    pub proof fn pairs_are_the_map(&self)
        requires
            self.wf(),
        ensures
            distinct_names(self.pairs()),
            forall|i: int, j: int|
                0 <= i < j < self.pairs().len() ==> (#[trigger] self.pairs()[i]).0 != (
                #[trigger] self.pairs()[j]).0,
            pairs_map(self.pairs()) == self@,
            forall|i: int|
                0 <= i < self.pairs().len() ==> {
                    &&& self@.dom().contains((#[trigger] self.pairs()[i]).0)
                    &&& self@[self.pairs()[i].0] == self.pairs()[i].1
                },
            forall|name: Seq<char>| #[trigger]
                self@.dom().contains(name) ==> exists|i: int|
                    0 <= i < self.pairs().len() && (#[trigger] self.pairs()[i]).0 == name,
    {
        assert forall|i: int| 0 <= i < self.pairs().len() implies {
            &&& self@.dom().contains((#[trigger] self.pairs()[i]).0)
            &&& self@[self.pairs()[i].0] == self.pairs()[i].1
        } by {
            pairs_map_value(self.pairs(), i);
        }
        assert forall|name: Seq<char>| #[trigger] self@.dom().contains(name) implies exists|i: int|
            0 <= i < self.pairs().len() && (#[trigger] self.pairs()[i]).0 == name by {
            pairs_map_names(self.pairs(), name);
        }
    }

    /// No parameters.
    pub fn new() -> (params: Params)
        ensures
            params@ == Map::<Seq<char>, Seq<char>>::empty(),
            params.pairs() == Seq::<Pair>::empty(),
            params.wf(),
    {
        let params = Params { entries: Vec::new() };
        assert(params.pairs() =~= Seq::<Pair>::empty());
        params
    }

    /// How many parameters there are.
    pub fn len(&self) -> (n: usize)
        ensures
            n == self.pairs().len(),
    {
        self.entries.len()
    }

    /// The name and the value of the parameter in place `i`.
    pub fn entry(&self, i: usize) -> (entry: (&str, &str))
        requires
            i < self.pairs().len(),
        ensures
            (entry.0@, entry.1@) == self.pairs()[i as int],
    {
        let entry = &self.entries[i];
        (entry.0.as_str(), entry.1.as_str())
    }

    fn position(&self, name: &str) -> (place: Option<usize>)
        ensures
            match place {
                Some(i) => i < self.pairs().len() && self.pairs()[i as int].0 == name@,
                None => forall|i: int| 0 <= i < self.pairs().len() ==> (#[trigger] self.pairs()[i]).0
                    != name@,
            },
    {
        let mut i: usize = 0;
        while i < self.entries.len()
            invariant
                i <= self.entries@.len(),
                forall|j: int| 0 <= j < i ==> (#[trigger] self.pairs()[j]).0 != name@,
            decreases self.entries@.len() - i,
        {
            if text_eq(self.entries[i].0.as_str(), name) {
                return Some(i);
            }
            i = i + 1;
        }
        None
    }

    /// The value of a parameter, if it is set.
    pub fn get(&self, name: &str) -> (value: Option<&str>)
        ensures
            value is Some <==> self@.dom().contains(name@),
            value matches Some(v) ==> v@ == self@[name@],
    {
        proof {
            use_type_invariant(self);
            pairs_map_names(self.pairs(), name@);
        }
        match self.position(name) {
            Some(i) => {
                proof {
                    pairs_map_value(self.pairs(), i as int);
                }
                Some(self.entries[i].1.as_str())
            },
            None => None,
        }
    }

    /// Whether a parameter is set.
    pub fn contains_key(&self, name: &str) -> (set: bool)
        ensures
            set == self@.dom().contains(name@),
    {
        self.get(name).is_some()
    }

    /// Sets a parameter, over the value that it had.
    pub fn insert(&mut self, name: String, value: String)
        ensures
            final(self)@ == old(self)@.insert(name@, value@),
            final(self).wf(),
    {
        proof {
            use_type_invariant(&*self);
        }
        let ghost before = self.pairs();
        match self.position(name.as_str()) {
            Some(i) => {
                proof {
                    pairs_map_update(before, i as int, value@);
                }
                let mut entries: Vec<(String, String)> = Vec::new();
                std::mem::swap(&mut entries, &mut self.entries);
                entries.set(i, (name, value));
                proof {
                    assert(pairs_view(entries@) =~= before.update(i as int, (name@, value@)));
                }
                self.entries = entries;
            },
            None => {
                let ghost after = before.push((name@, value@));
                proof {
                    assert(after.drop_last() =~= before);
                    assert(distinct_names(after));
                }
                let mut entries: Vec<(String, String)> = Vec::new();
                std::mem::swap(&mut entries, &mut self.entries);
                entries.push((name, value));
                proof {
                    assert(pairs_view(entries@) =~= after);
                }
                self.entries = entries;
            },
        }
    }

    /// Sets a parameter that has no value yet.
    pub fn insert_default(&mut self, name: &str, value: &str)
        ensures
            final(self)@ == or_insert(old(self)@, name@, value@),
            final(self)@ == (if old(self)@.dom().contains(name@) {
                old(self)@
            } else {
                old(self)@.insert(name@, value@)
            }),
            final(self).wf(),
    {
        if !self.contains_key(name) {
            self.insert(name.to_owned(), value.to_owned());
        } else {
            proof {
                use_type_invariant(&*self);
            }
        }
    }
}

/// The texts of some pairs are the names and values of the pairs, in order.
pub proof fn pairs_view_is_the_texts(pairs: Seq<(String, String)>)
    ensures
        pairs_view(pairs).len() == pairs.len(),
        forall|i: int|
            0 <= i < pairs.len() ==> #[trigger] pairs_view(pairs)[i] == (
                pairs[i].0@,
                pairs[i].1@,
            ),
{
}

/// A default is taken where nothing was set, and touches nothing else.
pub proof fn default_fills_a_gap(
    map: Map<Seq<char>, Seq<char>>,
    name: Seq<char>,
    value: Seq<char>,
    other: Seq<char>,
)
    ensures
        or_insert(map, name, value).dom().contains(name),
        or_insert(map, name, value)[name] == (if map.dom().contains(name) {
            map[name]
        } else {
            value
        }),
        other != name ==> {
            &&& or_insert(map, name, value).dom().contains(other) <==> map.dom().contains(other)
            &&& map.dom().contains(other) ==> or_insert(map, name, value)[other] == map[other]
        },
{
}

} // verus!
