//! An ordered key-value store keyed by account identifier.
//!
//! The store keeps its entries in a sequence. A new account is appended at
//! the end, a known account is updated in place, and removing an account
//! moves the last entry into the gap. The sequence is the store's view; what
//! is stored for one account is read off it with [`lookup`].

use vstd::prelude::*;

verus! {

/// No account occurs twice among the entries.
pub open spec fn keys_distinct<V>(s: Seq<(Seq<char>, V)>) -> bool {
    forall|i: int, j: int| 0 <= i < j < s.len() ==> s[i].0 != s[j].0
}

/// Whether `account` has an entry.
pub open spec fn has_key<V>(s: Seq<(Seq<char>, V)>, account: Seq<char>) -> bool {
    exists|i: int| 0 <= i < s.len() && #[trigger] s[i].0 == account
}

/// The position of the entry of `account`, where it has one.
pub open spec fn key_index<V>(s: Seq<(Seq<char>, V)>, account: Seq<char>) -> int {
    choose|i: int| 0 <= i < s.len() && #[trigger] s[i].0 == account
}

/// The value stored for `account`, if any.
pub open spec fn lookup<V>(s: Seq<(Seq<char>, V)>, account: Seq<char>) -> Option<V> {
    if has_key(s, account) {
        Some(s[key_index(s, account)].1)
    } else {
        None
    }
}

/// The entries after `value` has been stored for `account`.
pub open spec fn put<V>(s: Seq<(Seq<char>, V)>, account: Seq<char>, value: V) -> Seq<
    (Seq<char>, V),
> {
    if has_key(s, account) {
        s.update(key_index(s, account), (account, value))
    } else {
        s.push((account, value))
    }
}

/// The entries after the entry of `account` has been removed.
pub open spec fn delete<V>(s: Seq<(Seq<char>, V)>, account: Seq<char>) -> Seq<(Seq<char>, V)> {
    if has_key(s, account) {
        s.update(key_index(s, account), s.last()).drop_last()
    } else {
        s
    }
}

/// The entries as a map from account to value.
pub open spec fn as_map<V>(s: Seq<(Seq<char>, V)>) -> Map<Seq<char>, V> {
    Map::new(
        |account: Seq<char>| has_key(s, account),
        |account: Seq<char>| s[key_index(s, account)].1,
    )
}

/// The window of a listing that starts at `offset` and holds at most `limit`
/// entries, cut to the entries that exist.
pub open spec fn page_of<V>(s: Seq<(Seq<char>, V)>, offset: int, limit: int) -> Seq<
    (Seq<char>, V),
> {
    let from = if offset < s.len() { offset } else { s.len() as int };
    let to = if from + limit < s.len() { from + limit } else { s.len() as int };
    s.subrange(from, to)
}

/// Among distinct keys the entry at `i` is the one that `key_index` finds.
pub proof fn lemma_key_index<V>(s: Seq<(Seq<char>, V)>, i: int)
    requires
        keys_distinct(s),
        0 <= i < s.len(),
    ensures
        has_key(s, s[i].0),
        key_index(s, s[i].0) == i,
        lookup(s, s[i].0) == Some(s[i].1),
{
    let j = key_index(s, s[i].0);
    assert(0 <= j < s.len() && s[j].0 == s[i].0);
}

/// Storing a value keeps the keys distinct, sets the value of that account
/// and leaves every other account as it was.
pub proof fn lemma_put<V>(s: Seq<(Seq<char>, V)>, account: Seq<char>, value: V)
    requires
        keys_distinct(s),
    ensures
        keys_distinct(put(s, account, value)),
        lookup(put(s, account, value), account) == Some(value),
        forall|other: Seq<char>|
            other != account ==> #[trigger] lookup(put(s, account, value), other) == lookup(
                s,
                other,
            ),
        as_map(put(s, account, value)) == as_map(s).insert(account, value),
{
    let t = put(s, account, value);
    let at = if has_key(s, account) { key_index(s, account) } else { s.len() as int };
    assert(0 <= at < t.len() && t[at] == (account, value));
    assert(forall|i: int| 0 <= i < s.len() && i != at ==> t[i] == s[i]);
    assert(keys_distinct(t)) by {
        assert forall|i: int, j: int| 0 <= i < j < t.len() implies t[i].0 != t[j].0 by {
            if has_key(s, account) {
                lemma_key_index(s, at);
            } else {
                if i < s.len() {
                    assert(s[i].0 != account);
                }
            }
        }
    }
    lemma_key_index(t, at);
    assert forall|other: Seq<char>| other != account implies #[trigger] lookup(t, other)
        == lookup(s, other) by {
        if has_key(s, other) {
            let i = key_index(s, other);
            lemma_key_index(s, i);
            assert(t[i] == s[i]);
            lemma_key_index(t, i);
        } else if has_key(t, other) {
            let i = key_index(t, other);
            assert(t[i].0 == other);
            assert(i != at);
            assert(s[i].0 == other);
        }
    }
    assert(as_map(t) =~= as_map(s).insert(account, value)) by {
        assert forall|a: Seq<char>| as_map(t).dom().contains(a) <==> as_map(s).insert(
            account,
            value,
        ).dom().contains(a) by {
            if a != account {
                assert(lookup(t, a) == lookup(s, a));
            }
        }
        assert forall|a: Seq<char>| as_map(t).dom().contains(a) implies as_map(t)[a] == as_map(
            s,
        ).insert(account, value)[a] by {
            if a != account {
                assert(lookup(t, a) == lookup(s, a));
            }
        }
    }
}

/// Removing an account keeps the keys distinct, leaves that account without
/// an entry and every other account as it was.
pub proof fn lemma_delete<V>(s: Seq<(Seq<char>, V)>, account: Seq<char>)
    requires
        keys_distinct(s),
    ensures
        keys_distinct(delete(s, account)),
        lookup(delete(s, account), account) == None::<V>,
        forall|other: Seq<char>|
            other != account ==> #[trigger] lookup(delete(s, account), other) == lookup(s, other),
        as_map(delete(s, account)) == as_map(s).remove(account),
{
    let t = delete(s, account);
    if has_key(s, account) {
        let at = key_index(s, account);
        let last = s.len() - 1;
        lemma_key_index(s, at);
        assert(forall|i: int| 0 <= i < t.len() && i != at ==> t[i] == s[i]);
        assert(at < t.len() ==> t[at] == s[last]);
        assert(keys_distinct(t)) by {
            assert forall|i: int, j: int| 0 <= i < j < t.len() implies t[i].0 != t[j].0 by {
                assert(s[i].0 != s[last].0);
                assert(s[j].0 != s[last].0);
            }
        }
        assert(!has_key(t, account)) by {
            if has_key(t, account) {
                let i = key_index(t, account);
                assert(t[i].0 == account);
                if i == at {
                    assert(s[last].0 == account);
                } else {
                    assert(s[i].0 == account);
                }
            }
        }
        assert forall|other: Seq<char>| other != account implies #[trigger] lookup(t, other)
            == lookup(s, other) by {
            if has_key(s, other) {
                let i = key_index(s, other);
                lemma_key_index(s, i);
                if i == last {
                    assert(t[at] == s[last]);
                    lemma_key_index(t, at);
                } else {
                    assert(t[i] == s[i]);
                    lemma_key_index(t, i);
                }
            } else if has_key(t, other) {
                let i = key_index(t, other);
                assert(t[i].0 == other);
                if i == at {
                    assert(s[last].0 == other);
                } else {
                    assert(s[i].0 == other);
                }
            }
        }
    }
    assert(as_map(t) =~= as_map(s).remove(account)) by {
        assert forall|a: Seq<char>| as_map(t).dom().contains(a) <==> as_map(s).remove(
            account,
        ).dom().contains(a) by {
            if a != account {
                assert(lookup(t, a) == lookup(s, a));
            } else {
                assert(lookup(t, a) == None::<V>);
            }
        }
        assert forall|a: Seq<char>| as_map(t).dom().contains(a) implies as_map(t)[a] == as_map(
            s,
        ).remove(account)[a] by {
            if a != account {
                assert(lookup(t, a) == lookup(s, a));
            }
        }
    }
}

/// What [`as_map`] holds is what [`lookup`] finds.
pub proof fn lemma_as_map<V>(s: Seq<(Seq<char>, V)>, account: Seq<char>)
    ensures
        as_map(s).dom().contains(account) == has_key(s, account),
        lookup(s, account) == (if as_map(s).dom().contains(account) {
            Some(as_map(s)[account])
        } else {
            None
        }),
{
}

/// The sum of `weight` over the values of all entries.
pub open spec fn total<V>(s: Seq<(Seq<char>, V)>, weight: spec_fn(V) -> int) -> int
    decreases s.len(),
{
    if s.len() == 0 {
        0
    } else {
        total(s.drop_last(), weight) + weight(s.last().1)
    }
}

/// The weight of what is stored for `account`, and nothing where it has no
/// entry.
pub open spec fn share<V>(s: Seq<(Seq<char>, V)>, weight: spec_fn(V) -> int, account: Seq<char>)
    -> int {
    match lookup(s, account) {
        Some(value) => weight(value),
        None => 0,
    }
}

/// Replacing the entry at `i` changes the total by the difference of the
/// two weights.
pub proof fn lemma_total_update<V>(
    s: Seq<(Seq<char>, V)>,
    weight: spec_fn(V) -> int,
    i: int,
    entry: (Seq<char>, V),
)
    requires
        0 <= i < s.len(),
    ensures
        total(s.update(i, entry), weight) == total(s, weight) - weight(s[i].1) + weight(entry.1),
    decreases s.len(),
{
    let t = s.update(i, entry);
    if i == s.len() - 1 {
        assert(t.drop_last() =~= s.drop_last());
    } else {
        assert(t.drop_last() =~= s.drop_last().update(i, entry));
        lemma_total_update(s.drop_last(), weight, i, entry);
    }
}

/// Storing a value changes the total by its weight, less the weight of what
/// it replaces.
pub proof fn lemma_total_put<V>(
    s: Seq<(Seq<char>, V)>,
    weight: spec_fn(V) -> int,
    account: Seq<char>,
    value: V,
)
    requires
        keys_distinct(s),
    ensures
        total(put(s, account, value), weight) == total(s, weight) - share(s, weight, account)
            + weight(value),
{
    if has_key(s, account) {
        lemma_total_update(s, weight, key_index(s, account), (account, value));
    } else {
        assert(s.push((account, value)).drop_last() =~= s);
    }
}

/// Removing an account takes the weight of its value off the total.
pub proof fn lemma_total_delete<V>(
    s: Seq<(Seq<char>, V)>,
    weight: spec_fn(V) -> int,
    account: Seq<char>,
)
    requires
        keys_distinct(s),
    ensures
        total(delete(s, account), weight) == total(s, weight) - share(s, weight, account),
{
    if has_key(s, account) {
        lemma_total_update(s, weight, key_index(s, account), s.last());
    }
}

/// The entries of a vector with each account taken by its view.
pub open spec fn pairs<V>(entries: Seq<(String, V)>) -> Seq<(Seq<char>, V)> {
    entries.map_values(|e: (String, V)| (e.0@, e.1))
}

/// An ordered store of one value per account.
#[derive(Debug)]
pub struct AccountMap<V> {
    entries: Vec<(String, V)>,
}

impl<V> View for AccountMap<V> {
    type V = Seq<(Seq<char>, V)>;

    closed spec fn view(&self) -> Seq<(Seq<char>, V)> {
        pairs(self.entries@)
    }
}

impl<V> AccountMap<V> {
    /// What holds of every store: no account occurs twice.
    #[verifier::type_invariant]
    pub open spec fn wf(&self) -> bool {
        keys_distinct(self@)
    }

    /// The map from account to value that the store holds.
    pub open spec fn map(&self) -> Map<Seq<char>, V> {
        as_map(self@)
    }
}

impl<V: Copy> AccountMap<V> {
    /// An empty store.
    pub fn new() -> (m: Self)
        ensures
            m@ == Seq::<(Seq<char>, V)>::empty(),
    {
        AccountMap { entries: Vec::new() }
    }

    /// Builds a store from `entries`, in their order. `None` says that an
    /// account occurs twice.
    pub fn from_entries(entries: Vec<(String, V)>) -> (m: Option<Self>)
        ensures
            m is Some <==> keys_distinct(pairs(entries@)),
            m matches Some(store) ==> store@ == pairs(entries@),
    {
        let mut i: usize = 0;
        while i < entries.len()
            invariant
                i <= entries.len(),
                keys_distinct(pairs(entries@).take(i as int)),
            decreases entries.len() - i,
        {
            let mut j: usize = 0;
            while j < i
                invariant
                    j <= i < entries.len(),
                    forall|k: int|
                        0 <= k < j ==> pairs(entries@)[k].0 != pairs(entries@)[i as int].0,
                decreases i - j,
            {
                if entries[j].0 == entries[i].0 {
                    assert(pairs(entries@)[j as int].0 == pairs(entries@)[i as int].0);
                    return None;
                }
                j = j + 1;
            }
            assert(keys_distinct(pairs(entries@).take(i + 1))) by {
                let s = pairs(entries@);
                let t = s.take(i + 1);
                let before = s.take(i as int);
                assert forall|a: int, b: int| 0 <= a < b < t.len() implies t[a].0 != t[b].0 by {
                    if b < i {
                        assert(before[a].0 != before[b].0);
                    } else {
                        assert(s[a].0 != s[i as int].0);
                    }
                }
            }
            i = i + 1;
        }
        assert(pairs(entries@).take(entries@.len() as int) == pairs(entries@));
        Some(AccountMap { entries })
    }

    /// The number of accounts that have an entry.
    pub fn len(&self) -> (n: usize)
        ensures
            n == self@.len(),
    {
        self.entries.len()
    }

    fn position(&self, account: &String) -> (at: Option<usize>)
        ensures
            at is Some <==> has_key(self@, account@),
            at matches Some(i) ==> i < self@.len() && self@[i as int].0 == account@ && i
                == key_index(self@, account@),
            keys_distinct(self@),
    {
        proof {
            use_type_invariant(self);
        }
        let mut i: usize = 0;
        while i < self.entries.len()
            invariant
                i <= self.entries.len(),
                keys_distinct(self@),
                forall|j: int| 0 <= j < i ==> self@[j].0 != account@,
            decreases self.entries.len() - i,
        {
            if self.entries[i].0 == *account {
                proof {
                    lemma_key_index(self@, i as int);
                }
                return Some(i);
            }
            i = i + 1;
        }
        None
    }

    /// The value stored for `account`, if any.
    pub fn get(&self, account: &String) -> (value: Option<V>)
        ensures
            value == lookup(self@, account@),
    {
        match self.position(account) {
            Some(i) => Some(self.entries[i].1),
            None => None,
        }
    }

    /// Stores `value` for `account` and returns what was stored before.
    pub fn insert(&mut self, account: String, value: V) -> (previous: Option<V>)
        ensures
            previous == lookup(old(self)@, account@),
            final(self)@ == put(old(self)@, account@, value),
            lookup(final(self)@, account@) == Some(value),
            forall|other: Seq<char>|
                other != account@ ==> #[trigger] lookup(final(self)@, other) == lookup(
                    old(self)@,
                    other,
                ),
            final(self).map() == old(self).map().insert(account@, value),
    {
        let at = self.position(&account);
        let mut entries: Vec<(String, V)> = Vec::new();
        core::mem::swap(&mut self.entries, &mut entries);
        let previous = match at {
            Some(i) => {
                let previous = entries[i].1;
                entries.set(i, (account, value));
                Some(previous)
            },
            None => {
                entries.push((account, value));
                None
            },
        };
        proof {
            lemma_put(old(self)@, account@, value);
            assert(pairs(entries@) =~= put(old(self)@, account@, value));
        }
        core::mem::swap(&mut self.entries, &mut entries);
        previous
    }

    /// Removes the entry of `account` and returns what was stored.
    pub fn remove(&mut self, account: &String) -> (previous: Option<V>)
        ensures
            previous == lookup(old(self)@, account@),
            final(self)@ == delete(old(self)@, account@),
            lookup(final(self)@, account@) == None::<V>,
            forall|other: Seq<char>|
                other != account@ ==> #[trigger] lookup(final(self)@, other) == lookup(
                    old(self)@,
                    other,
                ),
            final(self).map() == old(self).map().remove(account@),
    {
        match self.position(account) {
            Some(i) => {
                let mut entries: Vec<(String, V)> = Vec::new();
                core::mem::swap(&mut self.entries, &mut entries);
                let removed = entries.swap_remove(i);
                proof {
                    lemma_delete(old(self)@, account@);
                    assert(pairs(entries@) =~= delete(old(self)@, account@));
                }
                core::mem::swap(&mut self.entries, &mut entries);
                Some(removed.1)
            },
            None => {
                proof {
                    lemma_delete(self@, account@);
                }
                None
            },
        }
    }

    /// All entries, in their order.
    pub fn entries(&self) -> (listed: Vec<(String, V)>)
        ensures
            pairs(listed@) == self@,
            listed@.len() == self@.len(),
    {
        let n = self.len();
        let listed = self.page(0, n);
        assert(self@.subrange(0, n as int) =~= self@);
        listed
    }

    /// Lists at most `limit` entries, starting with the entry at `offset`.
    pub fn page(&self, offset: usize, limit: usize) -> (listed: Vec<(String, V)>)
        ensures
            pairs(listed@) == page_of(self@, offset as int, limit as int),
            listed@.len() == page_of(self@, offset as int, limit as int).len(),
    {
        let len = self.entries.len();
        let from: usize = if offset < len { offset } else { len };
        let to: usize = if limit < len - from { from + limit } else { len };
        let mut listed: Vec<(String, V)> = Vec::new();
        let mut i: usize = from;
        while i < to
            invariant
                from <= i <= to <= self.entries.len(),
                self@.len() == self.entries@.len(),
                listed@.len() == i - from,
                pairs(listed@) == self@.subrange(from as int, i as int),
            decreases to - i,
        {
            let ghost before = listed@;
            let account = self.entries[i].0.clone();
            listed.push((account, self.entries[i].1));
            proof {
                let next = self@.subrange(from as int, i + 1);
                assert(self@.len() == self.entries@.len());
                assert(pairs(before).len() == before.len());
                assert(self@.subrange(from as int, i as int).len() == i - from);
                assert(pairs(listed@).len() == next.len());
                assert forall|k: int| 0 <= k < next.len() implies pairs(listed@)[k] == next[k] by {
                    if k < before.len() {
                        assert(listed@[k] == before[k]);
                        assert(pairs(before)[k] == self@.subrange(from as int, i as int)[k]);
                    } else {
                        let entry = self.entries@[i as int];
                        assert(self@[i as int] == (entry.0@, entry.1));
                    }
                }
                assert(pairs(listed@) =~= next);
            }
            i = i + 1;
        }
        listed
    }
}

} // verus!
