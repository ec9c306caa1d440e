use vstd::prelude::*;

use crate::codec::{with_wire_id, DnsMessage, MessageView, QuestionView};
use lru::LruCache;

verus! {

/// Fixed number of entries the response cache holds.
pub const CACHE_CAPACITY: usize = 1024;


/// The key of an entry: a question's name, record type and class.
pub type EntryKey = (String, u16, u16);

/// A cached answer: the message, when it was stored (milliseconds on the
/// clock), and how long it stays valid (milliseconds).
#[derive(Debug)]
pub struct CacheEntry {
    pub message: DnsMessage,
    pub inserted_at: u64,
    pub ttl_ms: u64,
}

pub struct EntryView {
    pub message: MessageView,
    pub inserted_at: u64,
    pub ttl_ms: u64,
}

impl View for CacheEntry {
    type V = EntryView;

    open spec fn view(&self) -> EntryView {
        EntryView { message: self.message@, inserted_at: self.inserted_at, ttl_ms: self.ttl_ms }
    }
}

/// The LRU store of the `lru` crate, whose hasher type Verus cannot name.
#[verifier::external_body]
pub struct LruStore {
    inner: LruCache<EntryKey, CacheEntry>,
}

pub open spec fn key_view(k: EntryKey) -> QuestionView {
    (k.0@, k.1, k.2)
}

/// The entries of an LRU store, least recently used first.
pub uninterp spec fn lru_items(c: LruStore) -> Seq<(QuestionView, EntryView)>;

/// The capacity an LRU store was created with.
pub uninterp spec fn lru_capacity(c: LruStore) -> nat;

pub open spec fn keys_unique(s: Seq<(QuestionView, EntryView)>) -> bool {
    forall|i: int, j: int| 0 <= i < j < s.len() ==> s[i].0 != s[j].0
}

pub open spec fn has_key(s: Seq<(QuestionView, EntryView)>, k: QuestionView) -> bool {
    exists|i: int| 0 <= i < s.len() && s[i].0 == k
}

/// What inserting `(k, v)` does: an existing entry of `k` is replaced and
/// becomes the most recent; otherwise, in a full store, the least recent entry
/// leaves to make room.
pub open spec fn lru_put_spec(
    s: Seq<(QuestionView, EntryView)>,
    cap: nat,
    k: QuestionView,
    v: EntryView,
) -> Seq<(QuestionView, EntryView)> {
    if has_key(s, k) {
        let i = choose|i: int| 0 <= i < s.len() && s[i].0 == k;
        s.remove(i).push((k, v))
    } else if s.len() >= cap {
        s.drop_first().push((k, v))
    } else {
        s.push((k, v))
    }
}

/// The store is well formed: keys are unique and the length is within capacity.
pub open spec fn lru_wf(s: Seq<(QuestionView, EntryView)>, cap: nat) -> bool {
    keys_unique(s) && s.len() <= cap && cap > 0
}

/// Relies on `LruCache::new`: an empty store of capacity `cap`.
#[verifier::external_body]
fn lru_new(cap: usize) -> (r: LruStore)
    requires
        cap > 0,
    ensures
        lru_items(r) == Seq::<(QuestionView, EntryView)>::empty(),
        lru_capacity(r) == cap,
{
    LruStore { inner: LruCache::new(std::num::NonZeroUsize::new(cap).unwrap()) }
}

/// Relies on `LruCache::len`: the number of entries.
#[verifier::external_body]
fn lru_len(c: &LruStore) -> (r: usize)
    ensures
        r == lru_items(*c).len(),
{
    c.inner.len()
}

/// Relies on `LruCache::put`: inserts or replaces, evicting the least recently
/// used entry when a new key meets a full store.
#[verifier::external_body]
fn lru_put(c: &mut LruStore, k: EntryKey, v: CacheEntry)
    ensures
        lru_capacity(*final(c)) == lru_capacity(*old(c)),
        lru_items(*final(c)) == lru_put_spec(
            lru_items(*old(c)),
            lru_capacity(*old(c)),
            key_view(k),
            v@,
        ),
{
    c.inner.put(k, v);
}

/// Relies on `LruCache::get`: the entry of `k`, which becomes the most recent.
#[verifier::external_body]
fn lru_get<'a>(c: &'a mut LruStore, k: &EntryKey) -> (r: Option<&'a CacheEntry>)
    ensures
        lru_capacity(*final(c)) == lru_capacity(*old(c)),
        !has_key(lru_items(*old(c)), key_view(*k)) ==> r is None && lru_items(*final(c)) == lru_items(*old(c)),
        forall|i: int|
            0 <= i < lru_items(*old(c)).len() && lru_items(*old(c))[i].0 == key_view(*k) ==> {
                &&& r matches Some(e) && e@ == lru_items(*old(c))[i].1
                &&& lru_items(*final(c)) == lru_items(*old(c)).remove(i).push(lru_items(*old(c))[i])
            },
{
    c.inner.get(k)
}

/// Relies on `LruCache::pop`: removes the entry of `k`.
#[verifier::external_body]
fn lru_pop(c: &mut LruStore, k: &EntryKey) -> (r: Option<CacheEntry>)
    ensures
        lru_capacity(*final(c)) == lru_capacity(*old(c)),
        !has_key(lru_items(*old(c)), key_view(*k)) ==> r is None && lru_items(*final(c)) == lru_items(*old(c)),
        forall|i: int|
            0 <= i < lru_items(*old(c)).len() && lru_items(*old(c))[i].0 == key_view(*k) ==> {
                &&& r matches Some(e) && e@ == lru_items(*old(c))[i].1
                &&& lru_items(*final(c)) == lru_items(*old(c)).remove(i)
            },
{
    c.inner.pop(k)
}

} // verus!

verus! {

/// The smallest of the answer TTLs; zero when there is none.
pub open spec fn min_ttl(s: Seq<u32>) -> u32
    decreases s.len(),
{
    if s.len() == 0 {
        0
    } else if s.len() == 1 {
        s[0]
    } else {
        let m = min_ttl(s.drop_last());
        if s.last() < m {
            s.last()
        } else {
            m
        }
    }
}

/// Milliseconds from `at` to `now`; zero when the clock went back.
pub open spec fn elapsed(at: u64, now: u64) -> u64 {
    if now >= at {
        (now - at) as u64
    } else {
        0
    }
}

/// An entry is served while less than its TTL has passed since it was stored.
pub open spec fn is_fresh(e: EntryView, now: u64) -> bool {
    elapsed(e.inserted_at, now) < e.ttl_ms
}

/// The entry that storing `m` at `now` creates.
pub open spec fn entry_for(m: MessageView, now: u64) -> EntryView {
    EntryView { message: m, inserted_at: now, ttl_ms: (min_ttl(m.answer_ttls) as int * 1000) as u64 }
}

/// Whether a message is ever stored: it needs a question and an answer.
pub open spec fn is_cacheable(m: MessageView) -> bool {
    m.questions.len() > 0 && m.answer_ttls.len() > 0
}

/// An entry's message holds a full header, and its first question is the key.
pub open spec fn entry_wf(k: QuestionView, e: EntryView) -> bool {
    &&& e.message.wf()
    &&& e.message.questions.len() > 0
    &&& e.message.questions[0] == k
}

/// Every stored message holds a full header and is keyed by its first question.
pub open spec fn messages_wf(s: Seq<(QuestionView, EntryView)>) -> bool {
    forall|i: int| 0 <= i < s.len() ==> entry_wf((#[trigger] s[i]).0, s[i].1)
}

/// The first index whose entry has key `k`, when there is one.
pub open spec fn index_of(s: Seq<(QuestionView, EntryView)>, k: QuestionView) -> int {
    choose|i: int| 0 <= i < s.len() && s[i].0 == k
}

/// What looking `request`'s first question up at `now` returns.
pub open spec fn lookup_result(
    s: Seq<(QuestionView, EntryView)>,
    request: MessageView,
    now: u64,
) -> Option<MessageView> {
    if request.questions.len() == 0 || !has_key(s, request.questions[0]) {
        None
    } else {
        let e = s[index_of(s, request.questions[0])].1;
        if is_fresh(e, now) {
            Some(e.message.with_id(request.id()))
        } else {
            None
        }
    }
}

/// The entries after that lookup: a fresh entry becomes the most recent, an
/// expired one is gone.
pub open spec fn lookup_state(
    s: Seq<(QuestionView, EntryView)>,
    request: MessageView,
    now: u64,
) -> Seq<(QuestionView, EntryView)> {
    if request.questions.len() == 0 || !has_key(s, request.questions[0]) {
        s
    } else {
        let i = index_of(s, request.questions[0]);
        if is_fresh(s[i].1, now) {
            s.remove(i).push(s[i])
        } else {
            s.remove(i)
        }
    }
}

/// The view of an optional message.
pub open spec fn opt_view(r: Option<DnsMessage>) -> Option<MessageView> {
    match r {
        Some(m) => Some(m@),
        None => None,
    }
}

proof fn lemma_index_unique(s: Seq<(QuestionView, EntryView)>, k: QuestionView, i: int)
    requires
        keys_unique(s),
        0 <= i < s.len(),
        s[i].0 == k,
    ensures
        has_key(s, k),
        index_of(s, k) == i,
{
    let j = index_of(s, k);
    assert(s[j].0 == k);
    if j != i {
        if j < i {
            assert(s[j].0 != s[i].0);
        } else {
            assert(s[i].0 != s[j].0);
        }
    }
}

proof fn lemma_put_keeps_wf(
    s: Seq<(QuestionView, EntryView)>,
    cap: nat,
    k: QuestionView,
    v: EntryView,
)
    requires
        lru_wf(s, cap),
        messages_wf(s),
        entry_wf(k, v),
    ensures
        lru_wf(lru_put_spec(s, cap, k, v), cap),
        messages_wf(lru_put_spec(s, cap, k, v)),
{
    let r = lru_put_spec(s, cap, k, v);
    if has_key(s, k) {
        let i = index_of(s, k);
        lemma_move_keeps_wf(s, cap, i);
        assert(r =~= s.remove(i).push((k, v)));
        assert forall|a: int, b: int| 0 <= a < b < r.len() implies r[a].0 != r[b].0 by {
            if b == r.len() - 1 {
                let ia = if a < i { a } else { a + 1 };
                assert(r[a] == s[ia]);
                assert(s[ia].0 != s[i].0);
            } else {
                assert(s.remove(i)[a].0 != s.remove(i)[b].0);
            }
        }
        assert(messages_wf(r)) by {
            assert forall|a: int| 0 <= a < r.len() implies entry_wf((#[trigger] r[a]).0, r[a].1) by {
                if a < r.len() - 1 {
                    let ia = if a < i { a } else { a + 1 };
                    assert(r[a] == s[ia]);
                }
            }
        }
    } else {
        let t = if s.len() >= cap { s.drop_first() } else { s };
        assert(r =~= t.push((k, v)));
        assert forall|a: int, b: int| 0 <= a < b < r.len() implies r[a].0 != r[b].0 by {
            if b == r.len() - 1 {
                let ia = if s.len() >= cap { a + 1 } else { a };
                assert(r[a] == s[ia]);
            } else {
                let ia = if s.len() >= cap { a + 1 } else { a };
                let ib = if s.len() >= cap { b + 1 } else { b };
                assert(r[a] == s[ia] && r[b] == s[ib]);
            }
        }
        assert forall|a: int| 0 <= a < r.len() implies entry_wf((#[trigger] r[a]).0, r[a].1) by {
            if a < r.len() - 1 {
                let ia = if s.len() >= cap { a + 1 } else { a };
                assert(r[a] == s[ia]);
            }
        }
    }
}

proof fn lemma_move_keeps_wf(s: Seq<(QuestionView, EntryView)>, cap: nat, i: int)
    requires
        lru_wf(s, cap),
        messages_wf(s),
        0 <= i < s.len(),
    ensures
        lru_wf(s.remove(i), cap),
        messages_wf(s.remove(i)),
        lru_wf(s.remove(i).push(s[i]), cap),
        messages_wf(s.remove(i).push(s[i])),
{
    let t = s.remove(i);
    let r = t.push(s[i]);
    assert forall|a: int| 0 <= a < t.len() implies #[trigger] t[a] == s[if a < i { a } else { a + 1 }] by {}
    assert forall|a: int, b: int| 0 <= a < b < t.len() implies t[a].0 != t[b].0 by {
        assert(t[a] == s[if a < i { a } else { a + 1 }]);
        assert(t[b] == s[if b < i { b } else { b + 1 }]);
    }
    assert forall|a: int| 0 <= a < t.len() implies entry_wf((#[trigger] t[a]).0, t[a].1) by {
        assert(t[a] == s[if a < i { a } else { a + 1 }]);
    }
    assert forall|a: int, b: int| 0 <= a < b < r.len() implies r[a].0 != r[b].0 by {
        if b == r.len() - 1 {
            assert(t[a] == s[if a < i { a } else { a + 1 }]);
        } else {
            assert(t[a].0 != t[b].0);
        }
    }
    assert forall|a: int| 0 <= a < r.len() implies entry_wf((#[trigger] r[a]).0, r[a].1) by {
        if a < r.len() - 1 {
            assert(entry_wf(t[a].0, t[a].1));
        }
    }
}

/// Relies on `SystemTime::now`: milliseconds since the Unix epoch. Nothing is
/// promised of the value: the clock may jump either way.
#[verifier::external_body]
pub(crate) fn now_millis() -> u64 {
    match std::time::SystemTime::now().duration_since(std::time::UNIX_EPOCH) {
        Ok(d) => d.as_millis() as u64,
        Err(_) => 0,
    }
}

/// A bounded, least-recently-used map from a question to the answer stored
/// for it, with an expiry taken from the answer's shortest TTL.
pub struct Cache {
    store: LruStore,
}

impl Cache {
    /// The entries, least recently used first.
    pub closed spec fn items(&self) -> Seq<(QuestionView, EntryView)> {
        lru_items(self.store)
    }

    pub closed spec fn wf(&self) -> bool {
        &&& self.items().len() <= CACHE_CAPACITY
        &&& lru_wf(lru_items(self.store), lru_capacity(self.store))
        &&& messages_wf(lru_items(self.store))
        &&& lru_capacity(self.store) == CACHE_CAPACITY
    }

    /// A well-formed cache has unique keys, at most `CACHE_CAPACITY` entries,
    /// and each message stored under its own first question.
    pub proof fn lemma_wf(&self)
        requires
            self.wf(),
        ensures
            lru_wf(self.items(), CACHE_CAPACITY as nat),
            messages_wf(self.items()),
    {
    }

    /// An empty cache of `CACHE_CAPACITY` entries.
    pub fn new() -> (r: Cache)
        ensures
            r.wf(),
            r.items() == Seq::<(QuestionView, EntryView)>::empty(),
    {
        Cache { store: lru_new(CACHE_CAPACITY) }
    }

    /// Stores `message` as of now: see `put_at`.
    pub fn put(&mut self, message: DnsMessage)
        requires
            old(self).wf(),
            message.wf(),
        ensures
            final(self).wf(),
            final(self).items().len() <= CACHE_CAPACITY,
            !is_cacheable(message@) ==> final(self).items() == old(self).items(),
            is_cacheable(message@) ==> exists|now: u64|
                final(self).items() == lru_put_spec(
                    old(self).items(),
                    CACHE_CAPACITY as nat,
                    message@.questions[0],
                    entry_for(message@, now),
                ),
    {
        let now = now_millis();
        self.put_at(message, now);
    }

    /// Stores `message` under its first question, valid for its shortest
    /// answer TTL from `now`; a message without question or without answer is
    /// not stored.
    pub fn put_at(&mut self, message: DnsMessage, now: u64)
        requires
            old(self).wf(),
            message.wf(),
        ensures
            final(self).wf(),
            final(self).items().len() <= CACHE_CAPACITY,
            !is_cacheable(message@) ==> final(self).items() == old(self).items(),
            is_cacheable(message@) ==> final(self).items() == lru_put_spec(
                old(self).items(),
                CACHE_CAPACITY as nat,
                message@.questions[0],
                entry_for(message@, now),
            ),
    {
        if message.questions.len() == 0 {
            return;
        }
        if message.answer_ttls.len() == 0 {
            return;
        }
        let q = &message.questions[0];
        let key: EntryKey = (q.name.clone(), q.record_type, q.class);
        let ttl = min_answer_ttl(&message.answer_ttls);
        let ghost mv = message@;
        let entry = CacheEntry { message, inserted_at: now, ttl_ms: ttl as u64 * 1000 };
        assert(entry@ == entry_for(mv, now));
        proof {
            lemma_put_keeps_wf(lru_items(self.store), lru_capacity(self.store), key_view(key), entry@);
        }
        lru_put(&mut self.store, key, entry);
    }

    /// Looks `message`'s first question up as of now: see `get_at`.
    pub fn get(&mut self, message: &DnsMessage) -> (r: Option<DnsMessage>)
        requires
            old(self).wf(),
            message.wf(),
        ensures
            final(self).wf(),
            r matches Some(m) ==> m.wf(),
            exists|now: u64|
                opt_view(r) == lookup_result(old(self).items(), message@, now)
                    && final(self).items() == lookup_state(old(self).items(), message@, now),
    {
        let now = now_millis();
        self.get_at(message, now)
    }

    /// Looks `message`'s first question up at time `now`. A fresh entry is
    /// returned as a copy carrying `message`'s transaction id, and becomes the
    /// most recently used; an expired one is removed and nothing is returned.
    /// An empty cache, or a message without question, gives nothing.
    pub fn get_at(&mut self, message: &DnsMessage, now: u64) -> (r: Option<DnsMessage>)
        requires
            old(self).wf(),
            message.wf(),
        ensures
            final(self).wf(),
            r matches Some(m) ==> m.wf(),
            opt_view(r) == lookup_result(old(self).items(), message@, now),
            final(self).items() == lookup_state(old(self).items(), message@, now),
    {
        if lru_len(&self.store) == 0 || message.questions.len() == 0 {
            return None;
        }
        let id = message.id();
        let q = &message.questions[0];
        let key: EntryKey = (q.name.clone(), q.record_type, q.class);
        let ghost s = lru_items(self.store);
        let ghost k = key_view(key);
        assert(k == message@.questions[0]);
        let ghost i = index_of(s, k);
        proof {
            if has_key(s, k) {
                lemma_index_unique(s, k, i);
                lemma_move_keeps_wf(s, lru_capacity(self.store), i);
                assert forall|j: int| 0 <= j < s.len() && s[j].0 == k implies j == i by {
                    lemma_index_unique(s, k, j);
                }
            }
        }
        let hit: Option<DnsMessage> = match lru_get(&mut self.store, &key) {
            None => {
                return None;
            },
            Some(e) => {
                proof {
                    assert(has_key(s, k));
                    assert(e@ == s[i].1);
                }
                if elapsed_millis(e.inserted_at, now) < e.ttl_ms {
                    let mut m = e.message.duplicate();
                    m.set_id(id);
                    Some(m)
                } else {
                    None
                }
            },
        };
        let ghost s1 = lru_items(self.store);
        assert(s1 == s.remove(i).push(s[i]));
        match hit {
            Some(m) => Some(m),
            None => {
                proof {
                    lemma_index_unique(s1, k, s1.len() - 1);
                    assert(s1.remove(s1.len() - 1) =~= s.remove(i));
                }
                lru_pop(&mut self.store, &key);
                None
            },
        }
    }
}

impl Default for Cache {
    fn default() -> (r: Cache)
        ensures
            r.wf(),
            r.items() == Seq::<(QuestionView, EntryView)>::empty(),
    {
        Cache::new()
    }
}

/// Milliseconds from `at` to `now`, saturating at zero.
fn elapsed_millis(at: u64, now: u64) -> (r: u64)
    ensures
        r == elapsed(at, now),
{
    if now >= at {
        now - at
    } else {
        0
    }
}

/// The smallest of `ttls`, or zero for none.
pub fn min_answer_ttl(ttls: &Vec<u32>) -> (r: u32)
    ensures
        r == min_ttl(ttls@),
{
    if ttls.len() == 0 {
        return 0;
    }
    let mut m: u32 = ttls[0];
    let mut i: usize = 1;
    while i < ttls.len()
        invariant
            1 <= i <= ttls.len(),
            m == min_ttl(ttls@.subrange(0, i as int)),
        decreases ttls.len() - i,
    {
        proof {
            let t = ttls@.subrange(0, i as int + 1);
            assert(t.drop_last() =~= ttls@.subrange(0, i as int));
        }
        if ttls[i] < m {
            m = ttls[i];
        }
        i += 1;
    }
    assert(ttls@.subrange(0, ttls.len() as int) =~= ttls@);
    m
}

} // verus!

verus! {

proof fn lemma_with_id(m: MessageView, id: u16)
    requires
        m.wf(),
    ensures
        m.with_id(id).wf(),
        m.with_id(id).id() == id,
        m.with_id(id).questions == m.questions,
        m.with_id(id).answer_ttls == m.answer_ttls,
        m.with_id(id).wire.subrange(2, m.wire.len() as int) == m.wire.subrange(2, m.wire.len() as int),
{
    let w = with_wire_id(m.wire, id);
    assert(w[0] == (id / 256) as u8);
    assert(w[1] == (id % 256) as u8);
    assert(w.subrange(2, m.wire.len() as int) =~= m.wire.subrange(2, m.wire.len() as int));
}

/// After a cacheable message is stored, its entry is the most recent one.
proof fn lemma_put_then_found(
    s: Seq<(QuestionView, EntryView)>,
    m: MessageView,
    at: u64,
)
    requires
        lru_wf(s, CACHE_CAPACITY as nat),
        messages_wf(s),
        m.wf(),
        is_cacheable(m),
    ensures
        ({
            let s2 = lru_put_spec(s, CACHE_CAPACITY as nat, m.questions[0], entry_for(m, at));
            &&& lru_wf(s2, CACHE_CAPACITY as nat)
            &&& messages_wf(s2)
            &&& has_key(s2, m.questions[0])
            &&& s2[index_of(s2, m.questions[0])] == (m.questions[0], entry_for(m, at))
        }),
{
    let s2 = lru_put_spec(s, CACHE_CAPACITY as nat, m.questions[0], entry_for(m, at));
    lemma_put_keeps_wf(s, CACHE_CAPACITY as nat, m.questions[0], entry_for(m, at));
    assert(s2.last() == (m.questions[0], entry_for(m, at)));
    lemma_index_unique(s2, m.questions[0], s2.len() - 1);
}

/// The shortest answer TTL is one of the TTLs, and none is shorter.
pub proof fn law_min_ttl(ttls: Seq<u32>)
    requires
        ttls.len() > 0,
    ensures
        ttls.contains(min_ttl(ttls)),
        forall|i: int| 0 <= i < ttls.len() ==> min_ttl(ttls) <= #[trigger] ttls[i],
    decreases ttls.len(),
{
    if ttls.len() == 1 {
        assert(ttls[0] == min_ttl(ttls));
    } else {
        let p = ttls.drop_last();
        law_min_ttl(p);
        assert forall|i: int| 0 <= i < ttls.len() implies min_ttl(ttls) <= #[trigger] ttls[i] by {
            if i < ttls.len() - 1 {
                assert(ttls[i] == p[i]);
            }
        }
        if ttls.last() < min_ttl(p) {
            assert(ttls[ttls.len() - 1] == min_ttl(ttls));
        } else {
            let j = choose|j: int| 0 <= j < p.len() && p[j] == min_ttl(p);
            assert(ttls[j] == min_ttl(ttls));
        }
    }
}

/// Round trip: a message stored with a question and an answer is returned by
/// a lookup of the same question made before its shortest TTL has passed,
/// carrying the lookup's transaction id and, besides, exactly what was stored.
pub proof fn law_round_trip(
    s: Seq<(QuestionView, EntryView)>,
    m: MessageView,
    request: MessageView,
    stored_at: u64,
    now: u64,
)
    requires
        lru_wf(s, CACHE_CAPACITY as nat),
        messages_wf(s),
        m.wf(),
        request.wf(),
        is_cacheable(m),
        request.questions.len() > 0,
        request.questions[0] == m.questions[0],
        elapsed(stored_at, now) < min_ttl(m.answer_ttls) as int * 1000,
    ensures
        ({
            let s2 = lru_put_spec(s, CACHE_CAPACITY as nat, m.questions[0], entry_for(m, stored_at));
            lookup_result(s2, request, now) == Some(m.with_id(request.id()))
        }),
        m.with_id(request.id()).id() == request.id(),
        m.with_id(request.id()).questions == m.questions,
        m.with_id(request.id()).answer_ttls == m.answer_ttls,
{
    lemma_put_then_found(s, m, stored_at);
    lemma_with_id(m, request.id());
}

/// Expiry on read: an entry stored with a zero TTL is never returned, and the
/// lookup removes it, so that later lookups find nothing either.
pub proof fn law_zero_ttl_expires(
    s: Seq<(QuestionView, EntryView)>,
    m: MessageView,
    request: MessageView,
    stored_at: u64,
    now: u64,
    later: u64,
)
    requires
        lru_wf(s, CACHE_CAPACITY as nat),
        messages_wf(s),
        m.wf(),
        is_cacheable(m),
        m.answer_ttls.contains(0u32),
        request.questions.len() > 0,
        request.questions[0] == m.questions[0],
    ensures
        ({
            let s2 = lru_put_spec(s, CACHE_CAPACITY as nat, m.questions[0], entry_for(m, stored_at));
            let s3 = lookup_state(s2, request, now);
            &&& lookup_result(s2, request, now) is None
            &&& !has_key(s3, m.questions[0])
            &&& lookup_result(s3, request, later) is None
        }),
{
    law_min_ttl(m.answer_ttls);
    let j = choose|j: int| 0 <= j < m.answer_ttls.len() && m.answer_ttls[j] == 0u32;
    assert(min_ttl(m.answer_ttls) <= m.answer_ttls[j]);
    lemma_put_then_found(s, m, stored_at);
    let s2 = lru_put_spec(s, CACHE_CAPACITY as nat, m.questions[0], entry_for(m, stored_at));
    let k = m.questions[0];
    let i = index_of(s2, k);
    let s3 = s2.remove(i);
    assert(lookup_state(s2, request, now) == s3);
    if has_key(s3, k) {
        let a = choose|a: int| 0 <= a < s3.len() && s3[a].0 == k;
        let ia = if a < i { a } else { a + 1 };
        assert(s3[a] == s2[ia]);
        assert(s2[ia].0 != s2[i].0);
    }
}

/// Transaction ids do not split the cache: two lookups of the stored question
/// under different ids, both before expiry, both succeed, each with its own id.
pub proof fn law_id_independence(
    s: Seq<(QuestionView, EntryView)>,
    m: MessageView,
    first: MessageView,
    second: MessageView,
    stored_at: u64,
    now1: u64,
    now2: u64,
)
    requires
        lru_wf(s, CACHE_CAPACITY as nat),
        messages_wf(s),
        m.wf(),
        first.wf(),
        second.wf(),
        is_cacheable(m),
        first.questions.len() > 0,
        second.questions.len() > 0,
        first.questions[0] == m.questions[0],
        second.questions[0] == m.questions[0],
        elapsed(stored_at, now1) < min_ttl(m.answer_ttls) as int * 1000,
        elapsed(stored_at, now2) < min_ttl(m.answer_ttls) as int * 1000,
    ensures
        ({
            let s2 = lru_put_spec(s, CACHE_CAPACITY as nat, m.questions[0], entry_for(m, stored_at));
            let s3 = lookup_state(s2, first, now1);
            &&& lookup_result(s2, first, now1) == Some(m.with_id(first.id()))
            &&& lookup_result(s3, second, now2) == Some(m.with_id(second.id()))
        }),
        m.with_id(first.id()).id() == first.id(),
        m.with_id(second.id()).id() == second.id(),
{
    lemma_put_then_found(s, m, stored_at);
    lemma_with_id(m, first.id());
    lemma_with_id(m, second.id());
    let s2 = lru_put_spec(s, CACHE_CAPACITY as nat, m.questions[0], entry_for(m, stored_at));
    let k = m.questions[0];
    let i = index_of(s2, k);
    lemma_move_keeps_wf(s2, CACHE_CAPACITY as nat, i);
    let s3 = s2.remove(i).push(s2[i]);
    assert(lookup_state(s2, first, now1) == s3);
    lemma_index_unique(s3, k, s3.len() - 1);
}

} // verus!

verus! {

/// Replies do not cross: whatever a well-formed cache holds, a reply it serves
/// to a request carries that request's transaction id and answers that
/// request's first question.
pub proof fn law_reply_matches_request(
    s: Seq<(QuestionView, EntryView)>,
    request: MessageView,
    now: u64,
)
    requires
        lru_wf(s, CACHE_CAPACITY as nat),
        messages_wf(s),
        request.wf(),
    ensures
        lookup_result(s, request, now) matches Some(m) ==> {
            &&& m.wf()
            &&& m.id() == request.id()
            &&& m.questions.len() > 0
            &&& m.questions[0] == request.questions[0]
        },
{
    if request.questions.len() > 0 && has_key(s, request.questions[0]) {
        let i = index_of(s, request.questions[0]);
        assert(entry_wf(s[i].0, s[i].1));
        lemma_with_id(s[i].1.message, request.id());
    }
}

} // verus!
