//! The structured fields of a log line: key/value pairs, ordered by key.

use crate::text;
use crate::text::{text_order, TextOrder};
use vstd::prelude::*;

verus! {

/// Key/value pairs in which no key occurs twice, held in the order of their keys.
#[derive(Debug)]
pub struct Fields {
    entries: Vec<(String, String)>,
}

/// The characters of each pair.
pub open spec fn pair_texts(entries: Seq<(String, String)>) -> Seq<(Seq<char>, Seq<char>)> {
    entries.map_values(|e: (String, String)| (e.0@, e.1@))
}

/// Each key comes before all that follow it.
pub open spec fn sorted_by_key(pairs: Seq<(Seq<char>, Seq<char>)>) -> bool {
    forall|i: int, j: int|
        0 <= i < j < pairs.len() ==> text::text_lt(
            (#[trigger] pairs[i]).0,
            (#[trigger] pairs[j]).0,
        )
}

/// `key` stands at place `i`.
pub open spec fn holds_at(pairs: Seq<(Seq<char>, Seq<char>)>, key: Seq<char>, i: int) -> bool {
    0 <= i < pairs.len() && pairs[i].0 == key
}

/// What the pairs map each key to.
pub open spec fn map_of(pairs: Seq<(Seq<char>, Seq<char>)>) -> Map<Seq<char>, Seq<char>> {
    Map::new(
        |key: Seq<char>| exists|i: int| holds_at(pairs, key, i),
        |key: Seq<char>| pairs[choose|i: int| holds_at(pairs, key, i)].1,
    )
}

/// A sorted sequence of pairs maps the key of each pair to the value beside it.
proof fn map_of_at(pairs: Seq<(Seq<char>, Seq<char>)>, i: int)
    requires
        sorted_by_key(pairs),
        0 <= i < pairs.len(),
    ensures
        map_of(pairs).contains_key(pairs[i].0),
        map_of(pairs)[pairs[i].0] == pairs[i].1,
{
    let key = pairs[i].0;
    assert(holds_at(pairs, key, i));
    let j = choose|j: int| holds_at(pairs, key, j);
    text::text_lt_irreflexive(key);
    if i < j {
        assert(text::text_lt(pairs[i].0, pairs[j].0));
    } else if j < i {
        assert(text::text_lt(pairs[j].0, pairs[i].0));
    }
}

/// A key that belongs between two neighbours is not among the pairs.
proof fn absent_between(pairs: Seq<(Seq<char>, Seq<char>)>, at: int, key: Seq<char>)
    requires
        0 <= at <= pairs.len(),
        forall|i: int| 0 <= i < at ==> text::text_lt((#[trigger] pairs[i]).0, key),
        forall|i: int| at <= i < pairs.len() ==> text::text_lt(key, (#[trigger] pairs[i]).0),
    ensures
        !map_of(pairs).contains_key(key),
{
    text::text_lt_irreflexive(key);
    if map_of(pairs).contains_key(key) {
        let i = choose|i: int| holds_at(pairs, key, i);
        if i < at {
            assert(text::text_lt(pairs[i].0, key));
        } else {
            assert(text::text_lt(key, pairs[i].0));
        }
    }
}

/// A pair put in front of the first greater key leaves the pairs sorted, and
/// adds one mapping.
proof fn put_between(
    pairs: Seq<(Seq<char>, Seq<char>)>,
    at: int,
    key: Seq<char>,
    value: Seq<char>,
)
    requires
        sorted_by_key(pairs),
        0 <= at <= pairs.len(),
        forall|i: int| 0 <= i < at ==> text::text_lt((#[trigger] pairs[i]).0, key),
        forall|i: int| at <= i < pairs.len() ==> text::text_lt(key, (#[trigger] pairs[i]).0),
    ensures
        sorted_by_key(pairs.insert(at, (key, value))),
        map_of(pairs.insert(at, (key, value))) == map_of(pairs).insert(key, value),
{
    let longer = pairs.insert(at, (key, value));
    assert forall|i: int, j: int| 0 <= i < j < longer.len() implies text::text_lt(
        (#[trigger] longer[i]).0,
        (#[trigger] longer[j]).0,
    ) by {
        let a = if i < at {
            longer[i] == pairs[i]
        } else {
            i == at || longer[i] == pairs[i - 1]
        };
        let b = if j < at {
            longer[j] == pairs[j]
        } else {
            j == at || longer[j] == pairs[j - 1]
        };
        assert(a && b);
    }
    assert forall|k: Seq<char>| #[trigger]
        map_of(longer).contains_key(k) == map_of(pairs).insert(key, value).contains_key(k) by {
        if map_of(longer).contains_key(k) && k != key {
            let i = choose|i: int| holds_at(longer, k, i);
            assert(holds_at(pairs, k, if i < at { i } else { i - 1 }));
        }
        if map_of(pairs).contains_key(k) {
            let i = choose|i: int| holds_at(pairs, k, i);
            assert(holds_at(longer, k, if i < at { i } else { i + 1 }));
        }
        assert(holds_at(longer, key, at));
    }
    assert forall|k: Seq<char>| #[trigger]
        map_of(longer).contains_key(k) implies map_of(longer)[k] == map_of(pairs).insert(
        key,
        value,
    )[k] by {
        let i = choose|i: int| holds_at(longer, k, i);
        map_of_at(longer, i);
        absent_between(pairs, at, key);
        if i < at {
            map_of_at(pairs, i);
        } else if i > at {
            map_of_at(pairs, i - 1);
        }
    }
    assert(map_of(longer) =~= map_of(pairs).insert(key, value));
}

/// Another value beside the same key leaves the pairs sorted, and changes one
/// mapping.
proof fn put_in_place(
    pairs: Seq<(Seq<char>, Seq<char>)>,
    at: int,
    key: Seq<char>,
    value: Seq<char>,
)
    requires
        sorted_by_key(pairs),
        holds_at(pairs, key, at),
    ensures
        sorted_by_key(pairs.update(at, (key, value))),
        map_of(pairs.update(at, (key, value))) == map_of(pairs).insert(key, value),
{
    let other = pairs.update(at, (key, value));
    assert forall|i: int, j: int| 0 <= i < j < other.len() implies text::text_lt(
        (#[trigger] other[i]).0,
        (#[trigger] other[j]).0,
    ) by {
        assert(other[i].0 == pairs[i].0 && other[j].0 == pairs[j].0);
    }
    assert forall|k: Seq<char>| #[trigger]
        map_of(other).contains_key(k) == map_of(pairs).insert(key, value).contains_key(k) by {
        if map_of(other).contains_key(k) {
            let i = choose|i: int| holds_at(other, k, i);
            assert(holds_at(pairs, k, i));
        }
        if map_of(pairs).contains_key(k) {
            let i = choose|i: int| holds_at(pairs, k, i);
            assert(holds_at(other, k, i));
        }
        assert(holds_at(other, key, at));
    }
    assert forall|k: Seq<char>| #[trigger]
        map_of(other).contains_key(k) implies map_of(other)[k] == map_of(pairs).insert(
        key,
        value,
    )[k] by {
        let i = choose|i: int| holds_at(other, k, i);
        map_of_at(other, i);
        map_of_at(pairs, i);
        map_of_at(other, at);
    }
    assert(map_of(other) =~= map_of(pairs).insert(key, value));
}

/// Without one pair the rest is sorted, and one mapping is gone.
proof fn take_out(pairs: Seq<(Seq<char>, Seq<char>)>, at: int)
    requires
        sorted_by_key(pairs),
        0 <= at < pairs.len(),
    ensures
        sorted_by_key(pairs.remove(at)),
        map_of(pairs.remove(at)) == map_of(pairs).remove(pairs[at].0),
        map_of(pairs).contains_key(pairs[at].0),
        map_of(pairs)[pairs[at].0] == pairs[at].1,
{
    let rest = pairs.remove(at);
    let key = pairs[at].0;
    assert forall|i: int, j: int| 0 <= i < j < rest.len() implies text::text_lt(
        (#[trigger] rest[i]).0,
        (#[trigger] rest[j]).0,
    ) by {
        let p = if i < at { i } else { i + 1 };
        let q = if j < at { j } else { j + 1 };
        assert(rest[i] == pairs[p] && rest[j] == pairs[q]);
    }
    assert(pairs =~= rest.insert(at, pairs[at]));
    assert forall|i: int| 0 <= i < at implies text::text_lt((#[trigger] rest[i]).0, key) by {
        assert(rest[i] == pairs[i]);
    }
    assert forall|i: int| at <= i < rest.len() implies text::text_lt(
        key,
        (#[trigger] rest[i]).0,
    ) by {
        assert(rest[i] == pairs[i + 1]);
    }
    put_between(rest, at, key, pairs[at].1);
    absent_between(rest, at, key);
    assert(map_of(rest) =~= map_of(pairs).remove(key));
}

/// Pairs that map the same keys to the same values stand in the same order.
pub proof fn same_mapping_same_order(
    a: Seq<(Seq<char>, Seq<char>)>,
    b: Seq<(Seq<char>, Seq<char>)>,
)
    requires
        sorted_by_key(a),
        sorted_by_key(b),
        map_of(a) == map_of(b),
    ensures
        a == b,
    decreases a.len(),
{
    if a.len() == 0 {
        if b.len() > 0 {
            map_of_at(b, 0);
            let i = choose|i: int| holds_at(a, b[0].0, i);
        }
        assert(a =~= b);
    } else {
        map_of_at(a, 0);
        let i = choose|i: int| holds_at(b, a[0].0, i);
        map_of_at(b, 0);
        let j = choose|j: int| holds_at(a, b[0].0, j);
        text::text_lt_irreflexive(a[0].0);
        if i > 0 {
            // Then the first key of `b` comes before that of `a`, and is not in `a`.
            assert(text::text_lt(b[0].0, b[i].0));
            if j > 0 {
                assert(text::text_lt(a[0].0, a[j].0));
                text::text_lt_transitive(a[0].0, b[0].0, b[i].0);
            }
        }
        assert(a[0] == b[0]) by {
            map_of_at(b, i);
        }
        take_out(a, 0);
        take_out(b, 0);
        same_mapping_same_order(a.remove(0), b.remove(0));
        assert(a =~= a.remove(0).insert(0, a[0]));
        assert(b =~= b.remove(0).insert(0, b[0]));
    }
}

impl View for Fields {
    type V = Map<Seq<char>, Seq<char>>;

    open spec fn view(&self) -> Map<Seq<char>, Seq<char>> {
        map_of(self.pairs())
    }
}

impl Fields {
    /// The pairs, in the order of their keys.
    pub closed spec fn pairs(&self) -> Seq<(Seq<char>, Seq<char>)> {
        pair_texts(self.entries@)
    }

    #[verifier::type_invariant]
    spec fn inv(self) -> bool {
        sorted_by_key(self.pairs())
    }

    /// No pairs.
    pub fn new() -> (fields: Fields)
        ensures
            fields@ == Map::<Seq<char>, Seq<char>>::empty(),
            fields.pairs() == Seq::<(Seq<char>, Seq<char>)>::empty(),
    {
        let fields = Fields { entries: Vec::new() };
        assert(fields.pairs() =~= Seq::empty());
        assert(fields@ =~= Map::empty());
        fields
    }

    /// Maps `key` to `value`, in place of what it was mapped to before.
    pub fn insert(&mut self, key: String, value: String)
        ensures
            final(self)@ == old(self)@.insert(key@, value@),
    {
        proof {
            use_type_invariant(&*self);
        }
        let mut entries: Vec<(String, String)> = Vec::new();
        std::mem::swap(&mut entries, &mut self.entries);
        let ghost before = pair_texts(entries@);
        match find(&entries, key.as_str()) {
            Ok(at) => {
                let ghost pair = (key, value);
                entries.set(at, (key, value));
                proof {
                    assert(pair_texts(entries@) =~= before.update(at as int, (pair.0@, pair.1@)));
                    put_in_place(before, at as int, pair.0@, pair.1@);
                }
            },
            Err(at) => {
                let ghost pair = (key, value);
                entries.insert(at, (key, value));
                proof {
                    assert(pair_texts(entries@) =~= before.insert(at as int, (pair.0@, pair.1@)));
                    put_between(before, at as int, pair.0@, pair.1@);
                }
            },
        }
        self.entries = entries;
    }

    /// Takes `key` out, and hands back what it was mapped to.
    pub fn remove(&mut self, key: &str) -> (value: Option<String>)
        ensures
            final(self)@ == old(self)@.remove(key@),
            match value {
                Some(text) => old(self)@.contains_key(key@) && text@ == old(self)@[key@],
                None => !old(self)@.contains_key(key@),
            },
    {
        proof {
            use_type_invariant(&*self);
        }
        let mut entries: Vec<(String, String)> = Vec::new();
        std::mem::swap(&mut entries, &mut self.entries);
        let ghost before = pair_texts(entries@);
        let value: Option<String> = match find(&entries, key) {
            Ok(at) => {
                let entry = entries.remove(at);
                proof {
                    assert(pair_texts(entries@) =~= before.remove(at as int));
                    take_out(before, at as int);
                }
                Some(entry.1)
            },
            Err(at) => {
                proof {
                    absent_between(before, at as int, key@);
                    assert(map_of(before).remove(key@) =~= map_of(before));
                }
                None
            },
        };
        self.entries = entries;
        value
    }

    /// What `key` is mapped to.
    pub fn get(&self, key: &str) -> (value: Option<&String>)
        ensures
            match value {
                Some(text) => self@.contains_key(key@) && text@ == self@[key@],
                None => !self@.contains_key(key@),
            },
    {
        proof {
            use_type_invariant(self);
        }
        match find(&self.entries, key) {
            Ok(at) => {
                proof {
                    map_of_at(self.pairs(), at as int);
                }
                Some(&self.entries[at].1)
            },
            Err(at) => {
                proof {
                    absent_between(self.pairs(), at as int, key@);
                }
                None
            },
        }
    }

    /// Whether `key` is mapped to anything.
    pub fn contains_key(&self, key: &str) -> (found: bool)
        ensures
            found == self@.contains_key(key@),
    {
        self.get(key).is_some()
    }

    /// Adds all pairs of `other`. Where both have a key, that of `other` counts.
    pub fn extend(&mut self, other: Fields)
        ensures
            final(self)@ == old(self)@.union_prefer_right(other@),
    {
        proof {
            use_type_invariant(&other);
        }
        let ghost all = other.pairs();
        let mut rest = other.entries;
        assert(all.skip(rest@.len() as int) =~= Seq::empty());
        assert(self@.union_prefer_right(map_of(all.skip(rest@.len() as int))) =~= self@);
        loop
            invariant
                sorted_by_key(all),
                rest@.len() <= all.len(),
                pair_texts(rest@) == all.take(rest@.len() as int),
                self@ == old(self)@.union_prefer_right(map_of(all.skip(rest@.len() as int))),
            ensures
                rest@.len() == 0,
            decreases rest@.len(),
        {
            let ghost n = rest@.len() as int;
            let ghost whole = rest@;
            match rest.pop() {
                Some((key, value)) => {
                    proof {
                        assert(pair_texts(rest@) =~= all.take(n - 1));
                        assert(all.take(n)[n - 1] == pair_texts(whole)[n - 1]);
                        let tail = all.skip(n);
                        let longer = all.skip(n - 1);
                        assert(longer =~= tail.insert(0, (key@, value@)));
                        assert forall|i: int| 0 <= i < tail.len() implies text::text_lt(
                            key@,
                            (#[trigger] tail[i]).0,
                        ) by {
                            assert(text::text_lt(all[n - 1].0, all[n + i].0));
                        }
                        put_between(tail, 0, key@, value@);
                    }
                    self.insert(key, value);
                    proof {
                        assert(self@ =~= old(self)@.union_prefer_right(
                            map_of(all.skip(n - 1)),
                        ));
                    }
                },
                None => {
                    break ;
                },
            }
        }
        assert(all.skip(0) =~= all);
    }

    /// All pairs, in the order of their keys.
    pub fn entries(&self) -> (entries: &Vec<(String, String)>)
        ensures
            pair_texts(entries@) == self.pairs(),
            sorted_by_key(self.pairs()),
            map_of(self.pairs()) == self@,
            forall|i: int|
                0 <= i < entries@.len() ==> {
                    &&& self@.contains_key((#[trigger] entries@[i]).0@)
                    &&& self@[entries@[i].0@] == entries@[i].1@
                },
            forall|key: Seq<char>| #[trigger]
                self@.contains_key(key) ==> exists|i: int|
                    0 <= i < entries@.len() && (#[trigger] entries@[i]).0@ == key,
            forall|i: int, j: int|
                0 <= i < j < entries@.len() ==> text::text_lt(
                    (#[trigger] entries@[i]).0@,
                    (#[trigger] entries@[j]).0@,
                ),
    {
        proof {
            use_type_invariant(self);
            let pairs = self.pairs();
            assert forall|i: int| 0 <= i < pairs.len() implies {
                &&& self@.contains_key((#[trigger] self.entries@[i]).0@)
                &&& self@[self.entries@[i].0@] == self.entries@[i].1@
            } by {
                assert(pairs[i] == (self.entries@[i].0@, self.entries@[i].1@));
                map_of_at(pairs, i);
            }
            assert forall|key: Seq<char>| #[trigger] self@.contains_key(key) implies exists|i: int|
                0 <= i < self.entries@.len() && (#[trigger] self.entries@[i]).0@ == key by {
                let i = choose|i: int| holds_at(pairs, key, i);
                assert(self.entries@[i].0@ == key);
            }
            assert forall|i: int, j: int| 0 <= i < j < pairs.len() implies text::text_lt(
                (#[trigger] self.entries@[i]).0@,
                (#[trigger] self.entries@[j]).0@,
            ) by {
                assert(text::text_lt(pairs[i].0, pairs[j].0));
            }
        }
        &self.entries
    }

}

impl Clone for Fields {
    fn clone(&self) -> (fields: Fields)
        ensures
            fields@ == self@,
            fields.pairs() == self.pairs(),
    {
        proof {
            use_type_invariant(self);
        }
        let mut entries: Vec<(String, String)> = Vec::new();
        let mut i: usize = 0;
        while i < self.entries.len()
            invariant
                i <= self.entries@.len(),
                pair_texts(entries@) == self.pairs().take(i as int),
            decreases self.entries@.len() - i,
        {
            let key = self.entries[i].0.clone();
            let value = self.entries[i].1.clone();
            let ghost before = entries@;
            entries.push((key, value));
            assert(pair_texts(entries@) =~= pair_texts(before).push((key@, value@)));
            i += 1;
            assert(pair_texts(entries@) =~= self.pairs().take(i as int));
        }
        assert(self.pairs().take(i as int) =~= self.pairs());
        Fields { entries }
    }
}

impl Default for Fields {
    fn default() -> (fields: Fields)
        ensures
            fields@ == Map::<Seq<char>, Seq<char>>::empty(),
    {
        Fields::new()
    }
}

/// The place at which `key` stands in `entries`, or else the place at which it
/// would have to be inserted.
fn find(entries: &Vec<(String, String)>, key: &str) -> (found: Result<usize, usize>)
    requires
        sorted_by_key(pair_texts(entries@)),
    ensures
        match found {
            Ok(at) => holds_at(pair_texts(entries@), key@, at as int),
            Err(at) => {
                &&& at <= entries@.len()
                &&& forall|i: int|
                    0 <= i < at ==> text::text_lt(
                        (#[trigger] pair_texts(entries@)[i]).0,
                        key@,
                    )
                &&& forall|i: int|
                    at <= i < entries@.len() ==> text::text_lt(
                        key@,
                        (#[trigger] pair_texts(entries@)[i]).0,
                    )
            },
        },
{
    let ghost pairs = pair_texts(entries@);
    let mut low: usize = 0;
    let mut high: usize = entries.len();
    while low < high
        invariant
            pairs == pair_texts(entries@),
            sorted_by_key(pairs),
            0 <= low <= high <= entries@.len(),
            forall|i: int|
                0 <= i < low ==> text::text_lt((#[trigger] pairs[i]).0, key@),
            forall|i: int|
                high <= i < entries@.len() ==> text::text_lt(key@, (#[trigger] pairs[i]).0),
        decreases high - low,
    {
        let mid: usize = low + (high - low) / 2;
        assert(pairs[mid as int].0 == entries@[mid as int].0@);
        match text_order(entries[mid].0.as_str(), key) {
            TextOrder::Same => {
                return Ok(mid);
            },
            TextOrder::Before => {
                assert forall|i: int| 0 <= i < mid + 1 implies text::text_lt(
                    (#[trigger] pairs[i]).0,
                    key@,
                ) by {
                    if i < mid {
                        text::text_lt_transitive(pairs[i].0, pairs[mid as int].0, key@);
                    }
                }
                low = mid + 1;
            },
            TextOrder::After => {
                assert forall|i: int| mid <= i < entries@.len() implies text::text_lt(
                    key@,
                    (#[trigger] pairs[i]).0,
                ) by {
                    if mid < i {
                        text::text_lt_transitive(key@, pairs[mid as int].0, pairs[i].0);
                    }
                }
                high = mid;
            },
        }
    }
    Err(low)
}

/// What [`Fields::entries`] lists is what the fields map, each key once beside its value, and
/// of two keys that which comes first is the one with the smaller code point at the first
/// place where they differ, or the one that ends there.
pub proof fn each_field_is_listed_once_in_order(
    fields: &Fields,
    entries: &Vec<(String, String)>,
    key: Seq<char>,
    value: Seq<char>,
    i: int,
    j: int,
    at: int,
)
    requires
        call_ensures(Fields::entries, (fields,), entries),
    ensures
        fields@.contains_key(key) && fields@[key] == value <==> exists|k: int|
            0 <= k < entries@.len() && (#[trigger] entries@[k]).0@ == key && entries@[k].1@
                == value,
        0 <= i < j < entries@.len() ==> entries@[i].0@ != entries@[j].0@,
        0 <= i < j < entries@.len() && 0 <= at < entries@[i].0@.len() && at < entries@[j].0@.len()
            && entries@[i].0@.take(at) == entries@[j].0@.take(at) ==> entries@[i].0@[at]
            <= entries@[j].0@[at],
        0 <= i < j < entries@.len() ==> !(entries@[j].0@.is_prefix_of(entries@[i].0@)),
{
    if 0 <= i < j < entries@.len() {
        let a = entries@[i].0@;
        let b = entries@[j].0@;
        assert(text::text_lt(a, b));
        text::text_lt_irreflexive(a);
        if 0 <= at < a.len() && at < b.len() && a.take(at) == b.take(at) && b[at] < a[at] {
            assert forall|k: int| 0 <= k < at implies b[k] == a[k] by {
                assert(a.take(at)[k] == b.take(at)[k]);
            }
            text::first_difference_decides(b, a, at);
        }
        if b.is_prefix_of(a) {
            if b.len() == a.len() {
                assert(a =~= b);
            } else {
                text::first_difference_decides(b, a, b.len() as int);
            }
        }
    }
}

} // verus!
