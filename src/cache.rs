use vstd::prelude::*;

verus! {

/// One stored value and the time (in seconds) from which it is expired.
pub struct CacheEntry {
    pub key: String,
    pub value: String,
    pub expires_at: u64,
}

/// An in-process key-value store with one expiry duration for every write.
/// A write replaces any earlier value under its key.
pub struct MemoryCache {
    pub ttl: u64,
    pub entries: Vec<CacheEntry>,
}

/// The first entry stored under `key`, as value and expiry time.
pub open spec fn find_entry(s: Seq<CacheEntry>, key: Seq<char>) -> Option<(Seq<char>, u64)>
    decreases s.len(),
{
    if s.len() == 0 {
        None
    } else if s[0].key@ == key {
        Some((s[0].value@, s[0].expires_at))
    } else {
        find_entry(s.drop_first(), key)
    }
}

/// The expiry of a write at `now`: `now + ttl`, capped at the largest time.
pub open spec fn expiry(now: u64, ttl: u64) -> u64 {
    if now as int + ttl as int > u64::MAX as int { u64::MAX } else { (now + ttl) as u64 }
}

/// What a read at `now` sees: the stored value if it has not expired.
pub open spec fn visible(stored: Option<(Seq<char>, u64)>, now: u64) -> Option<Seq<char>> {
    match stored {
        Some((v, exp)) => if now < exp { Some(v) } else { None },
        None => None,
    }
}

proof fn lemma_find_prefix(s: Seq<CacheEntry>, i: int, key: Seq<char>)
    requires
        0 <= i <= s.len(),
        forall|j: int| 0 <= j < i ==> (#[trigger] s[j]).key@ != key,
    ensures
        find_entry(s, key) == find_entry(s.subrange(i, s.len() as int), key),
    decreases i,
{
    if i > 0 {
        assert(s[0].key@ != key);
        assert forall|j: int| 0 <= j < i - 1 implies (#[trigger] s.drop_first()[j]).key@ != key by {
            assert(s.drop_first()[j] == s[j + 1]);
        }
        assert(s.drop_first().subrange(i - 1, s.drop_first().len() as int) =~= s.subrange(i, s.len() as int));
        lemma_find_prefix(s.drop_first(), i - 1, key);
        assert(find_entry(s, key) == find_entry(s.drop_first(), key));
    } else {
        assert(s.subrange(0, s.len() as int) =~= s);
    }
}

proof fn lemma_find_after_update(s: Seq<CacheEntry>, t: Seq<CacheEntry>, i: int, key: Seq<char>)
    requires
        0 <= i < s.len(),
        s.len() == t.len(),
        forall|j: int| 0 <= j < i ==> (#[trigger] s[j]).key@ != key,
        forall|j: int| 0 <= j < s.len() && j != i ==> #[trigger] t[j] == s[j],
        t[i].key@ == key,
    ensures
        find_entry(t, key) == Some((t[i].value@, t[i].expires_at)),
{
    lemma_find_prefix(t, i, key);
    let rest = t.subrange(i, t.len() as int);
    assert(rest[0] == t[i]);
}

proof fn lemma_find_other_after_update(s: Seq<CacheEntry>, t: Seq<CacheEntry>, i: int, key: Seq<char>, other: Seq<char>)
    requires
        0 <= i < s.len(),
        s.len() == t.len(),
        forall|j: int| 0 <= j < s.len() && j != i ==> #[trigger] t[j] == s[j],
        s[i].key@ == key,
        t[i].key@ == key,
        other != key,
    ensures
        find_entry(t, other) == find_entry(s, other),
    decreases s.len(),
{
    if i > 0 {
        assert forall|j: int| 0 <= j < s.drop_first().len() && j != i - 1 implies
            #[trigger] t.drop_first()[j] == s.drop_first()[j] by {
            assert(t[j + 1] == s[j + 1]);
        }
        lemma_find_other_after_update(s.drop_first(), t.drop_first(), i - 1, key, other);
        assert(t[0] == s[0]);
    } else {
        assert(t.drop_first() =~= s.drop_first());
    }
}

proof fn lemma_find_after_push(s: Seq<CacheEntry>, e: CacheEntry, key: Seq<char>)
    requires
        find_entry(s, key) is None,
        e.key@ == key,
    ensures
        find_entry(s.push(e), key) == Some((e.value@, e.expires_at)),
    decreases s.len(),
{
    if s.len() > 0 {
        assert(s.push(e).drop_first() =~= s.drop_first().push(e));
        lemma_find_after_push(s.drop_first(), e, key);
    } else {
        assert(s.push(e)[0] == e);
    }
}

proof fn lemma_find_other_after_push(s: Seq<CacheEntry>, e: CacheEntry, other: Seq<char>)
    requires
        e.key@ != other,
    ensures
        find_entry(s.push(e), other) == find_entry(s, other),
    decreases s.len(),
{
    if s.len() > 0 {
        assert(s.push(e).drop_first() =~= s.drop_first().push(e));
        lemma_find_other_after_push(s.drop_first(), e, other);
    } else {
        assert(s.push(e)[0] == e);
        assert(s.push(e).drop_first() =~= s);
    }
}

impl MemoryCache {
    pub open spec fn stored(&self, key: Seq<char>) -> Option<(Seq<char>, u64)> {
        find_entry(self.entries@, key)
    }

    /// An empty store whose writes expire `ttl` seconds after they are made.
    pub fn new(ttl: u64) -> (r: Self)
        ensures
            r.ttl == ttl,
            forall|k: Seq<char>| #[trigger] r.stored(k) is None,
    {
        MemoryCache { ttl, entries: Vec::new() }
    }

    /// Reads `key` at time `now`: the stored value if present and not expired.
    pub fn get(&self, key: &String, now: u64) -> (r: Option<String>)
        ensures
            match r {
                Some(v) => visible(self.stored(key@), now) == Some(v@),
                None => visible(self.stored(key@), now) is None,
            },
    {
        let mut i: usize = 0;
        while i < self.entries.len()
            invariant
                i <= self.entries@.len(),
                forall|j: int| 0 <= j < i ==> (#[trigger] self.entries@[j]).key@ != key@,
            decreases self.entries@.len() - i,
        {
            if self.entries[i].key == *key {
                proof {
                    lemma_find_prefix(self.entries@, i as int, key@);
                }
                let e = &self.entries[i];
                if now < e.expires_at {
                    return Some(e.value.clone());
                } else {
                    return None;
                }
            }
            i = i + 1;
        }
        proof {
            lemma_find_prefix(self.entries@, i as int, key@);
        }
        None
    }

    /// Writes `value` under `key` at time `now`, replacing any earlier value;
    /// it expires `ttl` seconds later. Other keys are unchanged.
    pub fn set(&mut self, key: &String, value: &String, now: u64)
        ensures
            final(self).ttl == old(self).ttl,
            final(self).stored(key@) == Some((value@, expiry(now, old(self).ttl))),
            forall|k: Seq<char>| k != key@ ==> #[trigger] final(self).stored(k) == old(self).stored(k),
    {
        let expires_at: u64 = if now > u64::MAX - self.ttl { u64::MAX } else { now + self.ttl };
        let entry = CacheEntry { key: key.clone(), value: value.clone(), expires_at };
        let mut i: usize = 0;
        while i < self.entries.len()
            invariant
                i <= self.entries@.len(),
                self.entries == old(self).entries,
                self.ttl == old(self).ttl,
                entry.key@ == key@,
                entry.value@ == value@,
                entry.expires_at == expiry(now, old(self).ttl),
                forall|j: int| 0 <= j < i ==> (#[trigger] self.entries@[j]).key@ != key@,
            decreases self.entries@.len() - i,
        {
            if self.entries[i].key == *key {
                let ghost s = self.entries@;
                self.entries.set(i, entry);
                proof {
                    lemma_find_after_update(s, self.entries@, i as int, key@);
                    assert forall|k: Seq<char>| k != key@ implies #[trigger] find_entry(self.entries@, k) == find_entry(s, k) by {
                        lemma_find_other_after_update(s, self.entries@, i as int, key@, k);
                    }
                }
                return;
            }
            i = i + 1;
        }
        proof {
            lemma_find_prefix(self.entries@, i as int, key@);
            assert(self.entries@.subrange(i as int, self.entries@.len() as int).len() == 0);
        }
        let ghost s = self.entries@;
        self.entries.push(entry);
        proof {
            lemma_find_after_push(s, entry, key@);
            assert forall|k: Seq<char>| k != key@ implies #[trigger] find_entry(self.entries@, k) == find_entry(s, k) by {
                lemma_find_other_after_push(s, entry, k);
            }
        }
    }
}

/// A write followed by a read of the same key gives back the written value
/// until `ttl` seconds have passed, and nothing from then on.
pub proof fn lemma_set_then_get(before: MemoryCache, after: MemoryCache, key: Seq<char>, value: Seq<char>, now: u64, later: u64)
    requires
        after.stored(key) == Some((value, expiry(now, before.ttl))),
        now as int + before.ttl as int <= u64::MAX as int,
        now <= later,
    ensures
        later < now + before.ttl ==> visible(after.stored(key), later) == Some(value),
        later >= now + before.ttl ==> visible(after.stored(key), later) is None,
{
}

} // verus!
