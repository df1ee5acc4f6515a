//! The free-form context of an asset: values by key, every key once.

use vstd::prelude::*;

verus! {

/// No key occurs twice among the pairs.
pub open spec fn keys_occur_once(pairs: Seq<(Seq<char>, Seq<char>)>) -> bool {
    forall|i: int, j: int| 0 <= i < j < pairs.len() ==> (#[trigger] pairs[i]).0 != (#[trigger] pairs[j]).0
}

/// Whether some pair has the key `key`.
pub open spec fn has_key(pairs: Seq<(Seq<char>, Seq<char>)>, key: Seq<char>) -> bool {
    exists|i: int| 0 <= i < pairs.len() && (#[trigger] pairs[i]).0 == key
}

/// The place of a pair with the key `key`, where there is one.
pub open spec fn key_position(pairs: Seq<(Seq<char>, Seq<char>)>, key: Seq<char>) -> int {
    choose|i: int| 0 <= i < pairs.len() && (#[trigger] pairs[i]).0 == key
}

/// The pairs after `value` is put under `key`: in the place of the value
/// that the key had, or at the end where the key is new.
pub open spec fn with_entry(pairs: Seq<(Seq<char>, Seq<char>)>, key: Seq<char>, value: Seq<char>) -> Seq<
    (Seq<char>, Seq<char>),
> {
    if has_key(pairs, key) {
        pairs.update(key_position(pairs, key), (key, value))
    } else {
        pairs.push((key, value))
    }
}

/// The pairs after each of `more` is put in, the first one first: of two
/// values for one key the later one stays.
pub open spec fn with_entries(pairs: Seq<(Seq<char>, Seq<char>)>, more: Seq<(Seq<char>, Seq<char>)>) -> Seq<
    (Seq<char>, Seq<char>),
>
    decreases more.len(),
{
    if more.len() == 0 {
        pairs
    } else {
        with_entry(with_entries(pairs, more.drop_last()), more.last().0, more.last().1)
    }
}

/// Putting a value under a key keeps every key single, and the key then has that value.
pub proof fn with_entry_keeps_keys_single(pairs: Seq<(Seq<char>, Seq<char>)>, key: Seq<char>, value: Seq<char>)
    requires
        keys_occur_once(pairs),
    ensures
        keys_occur_once(with_entry(pairs, key, value)),
        has_key(with_entry(pairs, key, value), key),
        with_entry(pairs, key, value)[key_position(with_entry(pairs, key, value), key)] == (key, value),
{
    let next = with_entry(pairs, key, value);
    let at = if has_key(pairs, key) {
        key_position(pairs, key)
    } else {
        pairs.len() as int
    };
    if has_key(pairs, key) {
        assert(0 <= at < pairs.len() && pairs[at].0 == key);
        assert(next == pairs.update(at, (key, value)));
    } else {
        assert(next == pairs.push((key, value)));
    }
    assert forall|i: int, j: int| 0 <= i < j < next.len() implies (#[trigger] next[i]).0 != (
    #[trigger] next[j]).0 by {
        if i < pairs.len() {
            assert(next[i].0 == pairs[i].0);
        }
        if j < pairs.len() {
            assert(next[j].0 == pairs[j].0);
            assert(pairs[i].0 != pairs[j].0);
        } else {
            assert(pairs[i].0 != key);
        }
    }
    assert(next[at] == (key, value));
    assert(next[at].0 == key);
    let found = key_position(next, key);
    assert(0 <= found < next.len() && next[found].0 == key);
    if found < at {
        assert(next[found].0 != next[at].0);
    } else if at < found {
        assert(next[at].0 != next[found].0);
    }
}

/// Puts `value` under `key` in a list of pairs with single keys.
fn put(pairs: &mut Vec<(String, String)>, key: String, value: String)
    requires
        keys_occur_once(old(pairs).deep_view()),
    ensures
        final(pairs).deep_view() == with_entry(old(pairs).deep_view(), key@, value@),
        keys_occur_once(final(pairs).deep_view()),
{
    let ghost before = pairs.deep_view();
    proof {
        with_entry_keeps_keys_single(before, key@, value@);
    }
    let mut i: usize = 0;
    while i < pairs.len()
        invariant
            i <= pairs.len(),
            before == old(pairs).deep_view(),
            pairs.deep_view() == before,
            keys_occur_once(before),
            forall|j: int| 0 <= j < i ==> (#[trigger] before[j]).0 != key@,
        decreases pairs.len() - i,
    {
        assert(before[i as int] == (pairs[i as int].0@, pairs[i as int].1@));
        if pairs[i].0 == key {
            proof {
                assert(before[i as int].0 == key@);
                let at = key_position(before, key@);
                assert(0 <= at < before.len() && before[at].0 == key@);
                if at < i {
                    assert(before[at].0 != before[i as int].0);
                } else if i < at {
                    assert(before[i as int].0 != before[at].0);
                }
                assert(has_key(before, key@) && at == i);
            }
            pairs[i] = (key, value);
            assert(pairs.deep_view() =~= before.update(i as int, (key@, value@)));
            return;
        }
        i += 1;
    }
    assert(!has_key(before, key@));
    pairs.push((key, value));
    assert(pairs.deep_view() =~= before.push((key@, value@)));
}

/// The context of an asset. No key occurs twice.
#[derive(Debug, PartialEq, Eq)]
pub struct AssetContext {
    pairs: Vec<(String, String)>,
}

impl View for AssetContext {
    type V = Seq<(Seq<char>, Seq<char>)>;

    closed spec fn view(&self) -> Seq<(Seq<char>, Seq<char>)> {
        self.pairs.deep_view()
    }
}

impl DeepView for AssetContext {
    type V = Seq<(Seq<char>, Seq<char>)>;

    open spec fn deep_view(&self) -> Seq<(Seq<char>, Seq<char>)> {
        self@
    }
}

impl AssetContext {
    #[verifier::type_invariant]
    spec fn keys_are_single(self) -> bool {
        keys_occur_once(self@)
    }

    /// A context without pairs.
    pub fn new() -> (r: AssetContext)
        ensures
            r@ == Seq::<(Seq<char>, Seq<char>)>::empty(),
    {
        let pairs: Vec<(String, String)> = Vec::new();
        assert(pairs.deep_view() =~= Seq::<(Seq<char>, Seq<char>)>::empty());
        AssetContext { pairs }
    }

    /// Puts `value` under `key`, in the place of the value that the key had if it had one.
    pub fn insert(&mut self, key: String, value: String)
        ensures
            final(self)@ == with_entry(old(self)@, key@, value@),
    {
        proof {
            use_type_invariant(&*self);
        }
        let mut pairs: Vec<(String, String)> = Vec::new();
        assert(pairs.deep_view() =~= Seq::<(Seq<char>, Seq<char>)>::empty());
        core::mem::swap(&mut self.pairs, &mut pairs);
        put(&mut pairs, key, value);
        self.pairs = pairs;
    }

    /// The context that holds each of `pairs`, the first one first: of two
    /// values for one key the later one stays.
    pub fn from_pairs(pairs: &Vec<(String, String)>) -> (r: AssetContext)
        ensures
            r@ == with_entries(Seq::empty(), pairs.deep_view()),
    {
        let ghost given = pairs.deep_view();
        let mut out: Vec<(String, String)> = Vec::new();
        assert(out.deep_view() =~= Seq::<(Seq<char>, Seq<char>)>::empty());
        assert(given.take(0) =~= Seq::<(Seq<char>, Seq<char>)>::empty());
        let mut i: usize = 0;
        while i < pairs.len()
            invariant
                i <= pairs.len(),
                given == pairs.deep_view(),
                keys_occur_once(out.deep_view()),
                out.deep_view() == with_entries(Seq::empty(), given.take(i as int)),
            decreases pairs.len() - i,
        {
            proof {
                assert(given.take(i + 1).drop_last() =~= given.take(i as int));
                assert(given.take(i + 1).last() == (pairs[i as int].0@, pairs[i as int].1@));
            }
            put(&mut out, pairs[i].0.clone(), pairs[i].1.clone());
            i += 1;
        }
        assert(given.take(i as int) =~= given);
        AssetContext { pairs: out }
    }

    /// The pairs, in the order in which their keys came in. No key occurs twice.
    pub fn pairs(&self) -> (r: &Vec<(String, String)>)
        ensures
            r.deep_view() == self@,
            keys_occur_once(self@),
    {
        proof {
            use_type_invariant(self);
        }
        &self.pairs
    }

    /// The number of pairs.
    pub fn len(&self) -> (r: usize)
        ensures
            r == self@.len(),
    {
        self.pairs.len()
    }

    /// The value under `key`, if the key has one.
    pub fn get(&self, key: &String) -> (r: Option<&String>)
        ensures
            r is Some == has_key(self@, key@),
            r matches Some(value) ==> value@ == self@[key_position(self@, key@)].1,
    {
        proof {
            use_type_invariant(self);
        }
        let mut i: usize = 0;
        while i < self.pairs.len()
            invariant
                i <= self.pairs.len(),
                keys_occur_once(self@),
                forall|j: int| 0 <= j < i ==> (#[trigger] self@[j]).0 != key@,
            decreases self.pairs.len() - i,
        {
            assert(self@[i as int] == (self.pairs[i as int].0@, self.pairs[i as int].1@));
            if self.pairs[i].0 == *key {
                proof {
                    assert(self@[i as int].0 == key@);
                    let at = key_position(self@, key@);
                    assert(0 <= at < self@.len() && self@[at].0 == key@);
                    if at < i {
                        assert(self@[at].0 != self@[i as int].0);
                    } else if i < at {
                        assert(self@[i as int].0 != self@[at].0);
                    }
                }
                return Some(&self.pairs[i].1);
            }
            i += 1;
        }
        assert(!has_key(self@, key@));
        None
    }

    /// Copies the context.
    pub fn duplicate(&self) -> (r: AssetContext)
        ensures
            r@ == self@,
    {
        proof {
            use_type_invariant(self);
        }
        let mut out: Vec<(String, String)> = Vec::new();
        let mut i: usize = 0;
        while i < self.pairs.len()
            invariant
                i <= self.pairs.len(),
                out.len() == i,
                forall|j: int| 0 <= j < i ==> out[j].0@ == self.pairs[j].0@ && out[j].1@ == self.pairs[j].1@,
            decreases self.pairs.len() - i,
        {
            out.push((self.pairs[i].0.clone(), self.pairs[i].1.clone()));
            i += 1;
        }
        assert(out.deep_view() =~= self@);
        AssetContext { pairs: out }
    }
}

impl Clone for AssetContext {
    fn clone(&self) -> (r: AssetContext)
        ensures
            r@ == self@,
    {
        self.duplicate()
    }
}

} // verus!
