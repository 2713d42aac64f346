//! The header set of a fetcher: a map from header name to value, kept in the
//! order in which the names were first inserted.

use vstd::prelude::*;

verus! {

/// Whether some pair of `pairs` carries the name `key`.
pub open spec fn has_key(pairs: Seq<(Seq<char>, Seq<char>)>, key: Seq<char>) -> bool {
    exists|i: int| 0 <= i < pairs.len() && (#[trigger] pairs[i]).0 == key
}

/// An index at which `pairs` carries the name `key`, where there is one.
pub open spec fn position(pairs: Seq<(Seq<char>, Seq<char>)>, key: Seq<char>) -> int {
    choose|i: int| 0 <= i < pairs.len() && (#[trigger] pairs[i]).0 == key
}

/// No name occurs twice in `pairs`.
pub open spec fn distinct_keys(pairs: Seq<(Seq<char>, Seq<char>)>) -> bool {
    forall|i: int, j: int|
        0 <= i < j < pairs.len() ==> (#[trigger] pairs[i]).0 != (#[trigger] pairs[j]).0
}

/// Insert-or-replace: a known name keeps its place and takes the new value,
/// a new name goes to the end.
pub open spec fn put(pairs: Seq<(Seq<char>, Seq<char>)>, key: Seq<char>, value: Seq<char>) -> Seq<
    (Seq<char>, Seq<char>),
> {
    if has_key(pairs, key) {
        pairs.update(position(pairs, key), (key, value))
    } else {
        pairs.push((key, value))
    }
}

/// The map from name to value that `pairs` stands for.
pub open spec fn as_map(pairs: Seq<(Seq<char>, Seq<char>)>) -> Map<Seq<char>, Seq<char>> {
    Map::new(|k: Seq<char>| has_key(pairs, k), |k: Seq<char>| pairs[position(pairs, k)].1)
}

/// The names and values of a list of owned pairs.
pub open spec fn pairs_of(entries: Seq<(String, String)>) -> Seq<(Seq<char>, Seq<char>)> {
    entries.map_values(|e: (String, String)| (e.0@, e.1@))
}

/// `put` keeps names distinct.
pub proof fn lemma_put_distinct(pairs: Seq<(Seq<char>, Seq<char>)>, key: Seq<char>, value: Seq<char>)
    requires
        distinct_keys(pairs),
    ensures
        distinct_keys(put(pairs, key, value)),
{
    let after = put(pairs, key, value);
    if has_key(pairs, key) {
        let p = position(pairs, key);
        assert(pairs[p].0 == key);
        assert forall|i: int, j: int| 0 <= i < j < after.len() implies (#[trigger] after[i]).0 != (
        #[trigger] after[j]).0 by {
            assert(after[i].0 == pairs[i].0);
            assert(after[j].0 == pairs[j].0);
        }
    } else {
        assert forall|i: int, j: int| 0 <= i < j < after.len() implies (#[trigger] after[i]).0 != (
        #[trigger] after[j]).0 by {
            if j == pairs.len() {
                assert(after[i] == pairs[i]);
            } else {
                assert(after[i] == pairs[i]);
                assert(after[j] == pairs[j]);
            }
        }
    }
}

/// On distinct names, `put` is the map's insert.
pub proof fn lemma_put_is_insert(pairs: Seq<(Seq<char>, Seq<char>)>, key: Seq<char>, value: Seq<char>)
    requires
        distinct_keys(pairs),
    ensures
        as_map(put(pairs, key, value)) == as_map(pairs).insert(key, value),
{
    let after = put(pairs, key, value);
    let target = as_map(pairs).insert(key, value);
    lemma_put_distinct(pairs, key, value);
    let at: int = if has_key(pairs, key) { position(pairs, key) } else { pairs.len() as int };
    assert(0 <= at < after.len());
    assert(after[at] == (key, value));
    assert(forall|i: int| 0 <= i < after.len() && i != at ==> after[i] == pairs[i]);
    assert forall|k: Seq<char>| has_key(after, k) <==> target.contains_key(k) by {
        if has_key(after, k) {
            let i = position(after, k);
            if i != at {
                assert(pairs[i].0 == k);
            }
        }
        if has_key(pairs, k) {
            let i = position(pairs, k);
            assert(after[i].0 == k);
        }
    }
    assert forall|k: Seq<char>| has_key(after, k) implies as_map(after)[k] == target[k] by {
        let i = position(after, k);
        assert(after[i].0 == k);
        if k == key {
            assert(i == at);
        } else {
            assert(pairs[i].0 == k);
            let j = position(pairs, k);
            assert(pairs[j].0 == k);
            assert(i == j);
        }
    }
    assert(as_map(after) =~= target);
}

/// On distinct names, the map has as many entries as there are pairs.
pub proof fn lemma_as_map_len(pairs: Seq<(Seq<char>, Seq<char>)>)
    requires
        distinct_keys(pairs),
    ensures
        as_map(pairs).dom().finite(),
        as_map(pairs).len() == pairs.len(),
    decreases pairs.len(),
{
    if pairs.len() == 0 {
        assert(as_map(pairs) =~= Map::empty());
    } else {
        let rest = pairs.drop_last();
        let last = pairs.last();
        assert forall|i: int, j: int| 0 <= i < j < rest.len() implies (#[trigger] rest[i]).0 != (
        #[trigger] rest[j]).0 by {
            assert(pairs[i].0 != pairs[j].0);
        }
        lemma_as_map_len(rest);
        if has_key(rest, last.0) {
            let i = position(rest, last.0);
            assert(pairs[i].0 != pairs[pairs.len() - 1].0);
        }
        assert(put(rest, last.0, last.1) =~= pairs);
        lemma_put_is_insert(rest, last.0, last.1);
        assert(!as_map(rest).dom().contains(last.0));
    }
}

/// `put` for each pair of `extra`, from the first to the last.
pub open spec fn put_all(base: Seq<(Seq<char>, Seq<char>)>, extra: Seq<(Seq<char>, Seq<char>)>) -> Seq<
    (Seq<char>, Seq<char>),
>
    decreases extra.len(),
{
    if extra.len() == 0 {
        base
    } else {
        put(put_all(base, extra.drop_last()), extra.last().0, extra.last().1)
    }
}

/// No later pair of `extra` carries the name of the pair at `j`.
pub open spec fn is_last_of_name(extra: Seq<(Seq<char>, Seq<char>)>, j: int) -> bool {
    forall|k: int| j < k < extra.len() ==> (#[trigger] extra[k]).0 != extra[j].0
}

/// Putting one more pair after `extra` is one more `put`.
pub proof fn lemma_put_all_push(
    base: Seq<(Seq<char>, Seq<char>)>,
    extra: Seq<(Seq<char>, Seq<char>)>,
    pair: (Seq<char>, Seq<char>),
)
    ensures
        put_all(base, extra.push(pair)) == put(put_all(base, extra), pair.0, pair.1),
{
    assert(extra.push(pair).drop_last() =~= extra);
}

/// Putting `first` and then `second` is putting the two joined.
pub proof fn lemma_put_all_concat(
    base: Seq<(Seq<char>, Seq<char>)>,
    first: Seq<(Seq<char>, Seq<char>)>,
    second: Seq<(Seq<char>, Seq<char>)>,
)
    ensures
        put_all(put_all(base, first), second) == put_all(base, first + second),
    decreases second.len(),
{
    if second.len() == 0 {
        assert(first + second =~= first);
    } else {
        lemma_put_all_concat(base, first, second.drop_last());
        assert((first + second).drop_last() =~= first + second.drop_last());
    }
}

/// `put_all` keeps names distinct.
pub proof fn lemma_put_all_distinct(
    base: Seq<(Seq<char>, Seq<char>)>,
    extra: Seq<(Seq<char>, Seq<char>)>,
)
    requires
        distinct_keys(base),
    ensures
        distinct_keys(put_all(base, extra)),
    decreases extra.len(),
{
    if extra.len() > 0 {
        lemma_put_all_distinct(base, extra.drop_last());
        lemma_put_distinct(put_all(base, extra.drop_last()), extra.last().0, extra.last().1);
    }
}

/// The last pair of `extra` is inserted into what the others gave.
proof fn lemma_put_all_step(base: Seq<(Seq<char>, Seq<char>)>, extra: Seq<(Seq<char>, Seq<char>)>)
    requires
        distinct_keys(base),
        extra.len() > 0,
    ensures
        as_map(put_all(base, extra)) == as_map(put_all(base, extra.drop_last())).insert(
            extra.last().0,
            extra.last().1,
        ),
{
    lemma_put_all_distinct(base, extra.drop_last());
    lemma_put_is_insert(put_all(base, extra.drop_last()), extra.last().0, extra.last().1);
}

/// A name is set after `put_all` exactly when it was set before or `extra`
/// carries it.
proof fn lemma_put_all_names(
    base: Seq<(Seq<char>, Seq<char>)>,
    extra: Seq<(Seq<char>, Seq<char>)>,
    key: Seq<char>,
)
    requires
        distinct_keys(base),
    ensures
        as_map(put_all(base, extra)).contains_key(key) <==> has_key(base, key) || has_key(
            extra,
            key,
        ),
    decreases extra.len(),
{
    if extra.len() > 0 {
        let rest = extra.drop_last();
        lemma_put_all_step(base, extra);
        lemma_put_all_names(base, rest, key);
        if has_key(rest, key) {
            let i = position(rest, key);
            assert(extra[i].0 == key);
        }
        if has_key(extra, key) {
            let i = position(extra, key);
            if i < rest.len() {
                assert(rest[i].0 == key);
            }
        }
        if key == extra.last().0 {
            assert(extra[extra.len() - 1].0 == key);
        }
    }
}

/// Under the name of a pair that is the last of its name stands its value.
proof fn lemma_put_all_value(
    base: Seq<(Seq<char>, Seq<char>)>,
    extra: Seq<(Seq<char>, Seq<char>)>,
    j: int,
)
    requires
        distinct_keys(base),
        0 <= j < extra.len(),
        is_last_of_name(extra, j),
    ensures
        as_map(put_all(base, extra))[extra[j].0] == extra[j].1,
    decreases extra.len(),
{
    let rest = extra.drop_last();
    lemma_put_all_step(base, extra);
    if j < rest.len() {
        assert(extra[extra.len() - 1].0 != extra[j].0);
        assert(rest[j] == extra[j]);
        assert forall|k: int| j < k < rest.len() implies (#[trigger] rest[k]).0 != rest[j].0 by {
            assert(extra[k].0 != extra[j].0);
        }
        lemma_put_all_value(base, rest, j);
    }
}

/// A name that `extra` does not carry keeps its value.
proof fn lemma_put_all_keeps(
    base: Seq<(Seq<char>, Seq<char>)>,
    extra: Seq<(Seq<char>, Seq<char>)>,
    key: Seq<char>,
)
    requires
        distinct_keys(base),
        !has_key(extra, key),
    ensures
        as_map(put_all(base, extra))[key] == as_map(base)[key],
    decreases extra.len(),
{
    if extra.len() > 0 {
        let rest = extra.drop_last();
        lemma_put_all_step(base, extra);
        assert(extra[extra.len() - 1].0 != key);
        if has_key(rest, key) {
            let i = position(rest, key);
            assert(extra[i].0 == key);
        }
        lemma_put_all_keeps(base, rest, key);
    }
}

/// What a header set holds after `put_all`: the names it had and the names of
/// `extra`; under a name of `extra` the value of the last pair of that name;
/// under any other name the value it had.
pub proof fn lemma_put_all_last_wins(
    base: Seq<(Seq<char>, Seq<char>)>,
    extra: Seq<(Seq<char>, Seq<char>)>,
)
    requires
        distinct_keys(base),
    ensures
        forall|k: Seq<char>|
            as_map(put_all(base, extra)).contains_key(k) <==> has_key(base, k) || has_key(extra, k),
        forall|j: int|
            0 <= j < extra.len() && is_last_of_name(extra, j) ==> as_map(put_all(base, extra))[(
            #[trigger] extra[j]).0] == extra[j].1,
        forall|k: Seq<char>|
            has_key(base, k) && !has_key(extra, k) ==> #[trigger] as_map(put_all(base, extra))[k]
                == as_map(base)[k],
{
    assert forall|k: Seq<char>|
        as_map(put_all(base, extra)).contains_key(k) <==> has_key(base, k) || has_key(
            extra,
            k,
        ) by {
        lemma_put_all_names(base, extra, k);
    }
    assert forall|j: int| 0 <= j < extra.len() && is_last_of_name(extra, j) implies as_map(
        put_all(base, extra),
    )[(#[trigger] extra[j]).0] == extra[j].1 by {
        lemma_put_all_value(base, extra, j);
    }
    assert forall|k: Seq<char>| has_key(base, k) && !has_key(extra, k) implies #[trigger] as_map(
        put_all(base, extra),
    )[k] == as_map(base)[k] by {
        lemma_put_all_keeps(base, extra, k);
    }
}

/// A set of headers. No name occurs twice; inserting under a known name
/// replaces its value.
pub struct Headers {
    entries: Vec<(String, String)>,
}

impl View for Headers {
    type V = Map<Seq<char>, Seq<char>>;

    open spec fn view(&self) -> Map<Seq<char>, Seq<char>> {
        as_map(self.pairs())
    }
}

impl Headers {
    #[verifier::type_invariant]
    spec fn names_distinct(self) -> bool {
        distinct_keys(pairs_of(self.entries@))
    }

    /// The headers in the order in which their names were first inserted.
    pub closed spec fn pairs(&self) -> Seq<(Seq<char>, Seq<char>)> {
        pairs_of(self.entries@)
    }

    /// An empty header set.
    pub fn new() -> (r: Headers)
        ensures
            r.pairs() == Seq::<(Seq<char>, Seq<char>)>::empty(),
            r@ == Map::<Seq<char>, Seq<char>>::empty(),
    {
        let r = Headers { entries: Vec::new() };
        assert(r.pairs() =~= Seq::empty());
        assert(r@ =~= Map::empty());
        r
    }

    /// The number of headers.
    pub fn len(&self) -> (n: usize)
        ensures
            n == self.pairs().len(),
            n == self@.len(),
    {
        proof {
            use_type_invariant(self);
            lemma_as_map_len(self.pairs());
        }
        self.entries.len()
    }

    /// Sets the header `key` to `value`, replacing the value it had.
    pub fn insert(&mut self, key: String, value: String)
        ensures
            final(self).pairs() == put(old(self).pairs(), key@, value@),
            final(self)@ == old(self)@.insert(key@, value@),
    {
        proof {
            use_type_invariant(&*self);
            lemma_put_distinct(self.pairs(), key@, value@);
            lemma_put_is_insert(self.pairs(), key@, value@);
        }
        let mut entries: Vec<(String, String)> = Vec::new();
        std::mem::swap(&mut entries, &mut self.entries);
        let ghost before = pairs_of(entries@);
        match find(&entries, &key) {
            Some(i) => {
                proof {
                    let p = position(before, key@);
                    assert(before[p].0 == key@);
                    assert(p == i);
                }
                entries.set(i, (key, value));
            },
            None => {
                entries.push((key, value));
            },
        }
        assert(pairs_of(entries@) =~= put(before, key@, value@));
        self.entries = entries;
    }

    /// The value of the header `key`, if it is set.
    pub fn get(&self, key: &str) -> (r: Option<&String>)
        ensures
            match r {
                Some(value) => self@.contains_key(key@) && value@ == self@[key@],
                None => !self@.contains_key(key@),
            },
    {
        proof {
            use_type_invariant(self);
        }
        let name = key.to_owned();
        match find(&self.entries, &name) {
            Some(i) => {
                proof {
                    let p = position(self.pairs(), key@);
                    assert(self.pairs()[p].0 == key@);
                    assert(p == i);
                }
                Some(&self.entries[i].1)
            },
            None => None,
        }
    }

    /// Whether the header `key` is set.
    pub fn contains_key(&self, key: &str) -> (r: bool)
        ensures
            r == self@.contains_key(key@),
    {
        let name = key.to_owned();
        find(&self.entries, &name).is_some()
    }

    /// The headers as owned pairs, in the order of `pairs`.
    pub fn to_vec(&self) -> (r: Vec<(String, String)>)
        ensures
            pairs_of(r@) == self.pairs(),
            distinct_keys(self.pairs()),
    {
        proof {
            use_type_invariant(self);
        }
        let n = self.entries.len();
        let mut r: Vec<(String, String)> = Vec::new();
        let mut i: usize = 0;
        while i < n
            invariant
                i <= n,
                n == self.entries.len(),
                r@.len() == i,
                pairs_of(r@) == pairs_of(self.entries@).take(i as int),
            decreases n - i,
        {
            let ghost copied = r@;
            let name = self.entries[i].0.clone();
            let value = self.entries[i].1.clone();
            r.push((name, value));
            proof {
                let target = pairs_of(self.entries@).take(i + 1);
                assert forall|j: int| 0 <= j < target.len() implies pairs_of(r@)[j] == target[j] by {
                    if j < i {
                        assert(pairs_of(copied)[j] == pairs_of(self.entries@).take(i as int)[j]);
                    }
                }
                assert(pairs_of(r@) =~= target);
            }
            i += 1;
        }
        assert(pairs_of(self.entries@).take(n as int) =~= pairs_of(self.entries@));
        r
    }
}

/// The first index at which `entries` carries the name `key`.
fn find(entries: &Vec<(String, String)>, key: &String) -> (r: Option<usize>)
    ensures
        match r {
            Some(i) => i < entries.len() && pairs_of(entries@)[i as int].0 == key@,
            None => !has_key(pairs_of(entries@), key@),
        },
{
    let n = entries.len();
    let mut i: usize = 0;
    while i < n
        invariant
            i <= n,
            n == entries.len(),
            forall|j: int| 0 <= j < i ==> (#[trigger] pairs_of(entries@)[j]).0 != key@,
        decreases n - i,
    {
        if entries[i].0 == *key {
            return Some(i);
        }
        i += 1;
    }
    None
}

} // verus!
