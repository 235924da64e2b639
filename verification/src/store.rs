//! The key-value command surface: get, set, conditional set, delete,
//! lease, remaining lease and existence, with the store's semantics stated
//! over a map from keys to payloads and lease deadlines. Values are opaque
//! byte payloads; a missing or expired key is a distinct domain outcome,
//! never a transport error. The conditional set is atomic — one call, no
//! check-then-set — and is the exactly-once primitive the distributed lock
//! is built on.
use vstd::prelude::*;

verus! {

/// A lookup that found nothing: the key is absent or its lease has run
/// out. A domain outcome, distinct from any transport failure.
#[derive(Debug, PartialEq, Eq, Structural)]
pub enum KvError {
    NotFound,
}

/// What the store holds under one key: the payload bytes and the absolute
/// deadline of its lease, if one was set.
#[verifier::ext_equal]
pub struct EntryVal {
    pub value: Seq<u8>,
    pub deadline: Option<u64>,
}

/// One stored record.
struct Entry {
    key: String,
    value: Vec<u8>,
    deadline: Option<u64>,
}

impl Entry {
    /// The record's logical content.
    spec fn spec_val(self) -> EntryVal {
        EntryVal { value: self.value@, deadline: self.deadline }
    }
}

/// Whether a lease deadline still admits reads at the given time: no
/// deadline never runs out, and a deadline admits strictly earlier times.
pub open spec fn deadline_live(d: Option<u64>, now: u64) -> bool {
    match d {
        Option::None => true,
        Option::Some(dd) => now < dd,
    }
}

/// Whether a key answers at the given time: present, and its lease has
/// not run out.
pub open spec fn live_in(m: Map<Seq<char>, EntryVal>, k: Seq<char>, now: u64) -> bool {
    m.contains_key(k) && deadline_live(m[k].deadline, now)
}

/// The deadline a requested lease length sets, counted from now.
pub open spec fn deadline_of(ttl: Option<u64>, now: u64) -> Option<u64> {
    match ttl {
        Option::None => Option::None,
        Option::Some(t) => Option::Some((now + t) as u64),
    }
}

/// What a read returns: the payload of a live key, nothing otherwise.
pub open spec fn spec_get(m: Map<Seq<char>, EntryVal>, k: Seq<char>, now: u64) -> Option<
    Seq<u8>,
> {
    if live_in(m, k, now) {
        Option::Some(m[k].value)
    } else {
        Option::None
    }
}

/// The store after an unconditional upsert.
pub open spec fn spec_set(
    m: Map<Seq<char>, EntryVal>,
    k: Seq<char>,
    v: Seq<u8>,
    ttl: Option<u64>,
    now: u64,
) -> Map<Seq<char>, EntryVal> {
    m.insert(k, EntryVal { value: v, deadline: deadline_of(ttl, now) })
}

/// The store after a conditional write, and whether this call created the
/// key: it does exactly when the key was not live.
pub open spec fn spec_set_if_absent(
    m: Map<Seq<char>, EntryVal>,
    k: Seq<char>,
    v: Seq<u8>,
    now: u64,
) -> (Map<Seq<char>, EntryVal>, bool) {
    if live_in(m, k, now) {
        (m, false)
    } else {
        (m.insert(k, EntryVal { value: v, deadline: Option::None }), true)
    }
}

/// The store after a delete, which is idempotent.
pub open spec fn spec_delete(m: Map<Seq<char>, EntryVal>, k: Seq<char>) -> Map<
    Seq<char>,
    EntryVal,
> {
    m.remove(k)
}

/// The store after a lease is (re)set on a live key, and whether the key
/// was live; an absent key is left as it was.
pub open spec fn spec_expire(
    m: Map<Seq<char>, EntryVal>,
    k: Seq<char>,
    ttl: u64,
    now: u64,
) -> (Map<Seq<char>, EntryVal>, bool) {
    if live_in(m, k, now) {
        (m.insert(k, EntryVal { value: m[k].value, deadline: Option::Some((now + ttl) as u64) }), true)
    } else {
        (m, false)
    }
}

/// Connection parameters for the key-value backend, set before first use.
pub struct KvConfig {
    pub host: String,
    pub port: u16,
    pub username: Option<String>,
    pub password: Option<String>,
}

/// The address and credentials handed to the backend driver.
pub struct ConnectionTarget {
    pub host: String,
    pub port: u16,
    pub username: Option<String>,
    pub password: Option<String>,
}

impl KvConfig {
    /// Builds the driver's connection target: the address from the host
    /// and port, the credentials carried over unchanged.
    pub fn into_connection_info(self) -> (r: ConnectionTarget)
        ensures
            r.host == self.host,
            r.port == self.port,
            r.username == self.username,
            r.password == self.password,
    {
        ConnectionTarget {
            host: self.host,
            port: self.port,
            username: self.username,
            password: self.password,
        }
    }
}

/// The init health check's decision: whether the backend's ping answered
/// the expected status.
pub fn ping_ok(status: &str) -> (r: bool)
    ensures
        r == (status@ == "PONG"@),
{
    proof {
        reveal_strlit("PONG");
    }
    let n = status.unicode_len();
    if n != 4 {
        return false;
    }
    let r = status.get_char(0) == 'P' && status.get_char(1) == 'O' && status.get_char(2) == 'N'
        && status.get_char(3) == 'G';
    proof {
        if r {
            assert(status@ =~= "PONG"@);
        }
    }
    r
}

/// Whether two byte payloads hold the same bytes.
pub fn bytes_eq(a: &Vec<u8>, b: &Vec<u8>) -> (r: bool)
    ensures
        r == (a@ == b@),
{
    if a.len() != b.len() {
        return false;
    }
    let mut i: usize = 0;
    while i < a.len()
        invariant
            0 <= i <= a@.len(),
            a@.len() == b@.len(),
            forall|j: int| 0 <= j < i ==> a@[j] == b@[j],
        decreases a@.len() - i,
    {
        if a[i] != b[i] {
            return false;
        }
        i = i + 1;
    }
    proof {
        assert(a@ =~= b@);
    }
    true
}

/// The map a row of records represents, each key shadowing earlier ones;
/// the store keeps keys unique, so nothing is ever shadowed.
spec fn spec_entries_map(s: Seq<Entry>) -> Map<Seq<char>, EntryVal>
    decreases s.len(),
{
    if s.len() == 0 {
        Map::empty()
    } else {
        spec_entries_map(s.drop_last()).insert(s.last().key@, s.last().spec_val())
    }
}

/// Whether the keys of a row of records are pairwise distinct.
spec fn spec_unique_keys(s: Seq<Entry>) -> bool {
    forall|i: int, j: int| 0 <= i < j < s.len() ==> s[i].key@ != s[j].key@
}

/// A key is in the represented map exactly when some record carries it.
proof fn lemma_map_membership(s: Seq<Entry>, k: Seq<char>)
    ensures
        spec_entries_map(s).contains_key(k) <==> exists|j: int|
            0 <= j < s.len() && s[j].key@ == k,
    decreases s.len(),
{
    if s.len() > 0 {
        lemma_map_membership(s.drop_last(), k);
        if s.last().key@ == k {
            assert(s[s.len() - 1].key@ == k);
        } else {
            if spec_entries_map(s).contains_key(k) {
                let j = choose|j: int| 0 <= j < s.len() - 1 && s.drop_last()[j].key@ == k;
                assert(s[j].key@ == k);
            }
            if exists|j: int| 0 <= j < s.len() && s[j].key@ == k {
                let j = choose|j: int| 0 <= j < s.len() && s[j].key@ == k;
                assert(j < s.len() - 1);
                assert(s.drop_last()[j].key@ == k);
            }
        }
    }
}

/// With unique keys, the record at any index is what the map answers for
/// its key.
proof fn lemma_map_lookup(s: Seq<Entry>, i: int)
    requires
        spec_unique_keys(s),
        0 <= i < s.len(),
    ensures
        spec_entries_map(s).contains_key(s[i].key@),
        spec_entries_map(s)[s[i].key@] == s[i].spec_val(),
    decreases s.len(),
{
    if i < s.len() - 1 {
        assert(s.drop_last()[i] == s[i]);
        lemma_map_lookup(s.drop_last(), i);
        assert(s.last().key@ != s[i].key@);
    }
}

/// Replacing the record at an index, key kept, turns into a map insert.
proof fn lemma_map_update(s: Seq<Entry>, i: int, e: Entry)
    requires
        spec_unique_keys(s),
        0 <= i < s.len(),
        e.key@ == s[i].key@,
    ensures
        spec_entries_map(s.update(i, e)) == spec_entries_map(s).insert(e.key@, e.spec_val()),
        spec_unique_keys(s.update(i, e)),
    decreases s.len(),
{
    let s2 = s.update(i, e);
    assert forall|a: int, b: int| 0 <= a < b < s2.len() implies s2[a].key@ != s2[b].key@ by {
        assert(s2[a].key@ == s[a].key@);
        assert(s2[b].key@ == s[b].key@);
    }
    if i == s.len() - 1 {
        assert(s2.drop_last() =~= s.drop_last());
        assert(s2.last() == e);
        assert(spec_entries_map(s2) =~= spec_entries_map(s).insert(e.key@, e.spec_val()));
    } else {
        assert(s2.drop_last() =~= s.drop_last().update(i, e));
        assert(s2.last() == s.last());
        assert(s.drop_last()[i] == s[i]);
        lemma_map_update(s.drop_last(), i, e);
        assert(s.last().key@ != e.key@);
        assert(spec_entries_map(s2) =~= spec_entries_map(s).insert(e.key@, e.spec_val()));
    }
}

/// Removing the record at an index turns into a map remove of its key.
proof fn lemma_map_remove(s: Seq<Entry>, i: int)
    requires
        spec_unique_keys(s),
        0 <= i < s.len(),
    ensures
        spec_entries_map(s.remove(i)) == spec_entries_map(s).remove(s[i].key@),
        spec_unique_keys(s.remove(i)),
    decreases s.len(),
{
    let k = s[i].key@;
    let s2 = s.remove(i);
    assert forall|a: int, b: int| 0 <= a < b < s2.len() implies s2[a].key@ != s2[b].key@ by {
        let a0 = if a < i {
            a
        } else {
            a + 1
        };
        let b0 = if b < i {
            b
        } else {
            b + 1
        };
        assert(s2[a] == s[a0]);
        assert(s2[b] == s[b0]);
    }
    if i == s.len() - 1 {
        assert(s2 =~= s.drop_last());
        lemma_map_membership(s.drop_last(), k);
        assert(forall|j: int|
            0 <= j < s.len() - 1 ==> s.drop_last()[j].key@ == s[j].key@ && s[j].key@ != k);
        assert(!spec_entries_map(s.drop_last()).contains_key(k));
        assert(spec_entries_map(s).remove(k) =~= spec_entries_map(s.drop_last()));
    } else {
        assert(s2.drop_last() =~= s.drop_last().remove(i));
        assert(s2.last() == s.last());
        assert(s.drop_last()[i] == s[i]);
        lemma_map_remove(s.drop_last(), i);
        assert(s.last().key@ != k);
        assert(spec_entries_map(s2) =~= spec_entries_map(s).remove(k));
    }
}

/// Appending a record with a fresh key turns into a map insert.
proof fn lemma_map_push(s: Seq<Entry>, e: Entry)
    ensures
        spec_entries_map(s.push(e)) == spec_entries_map(s).insert(e.key@, e.spec_val()),
{
    assert(s.push(e).drop_last() =~= s);
    assert(s.push(e).last() == e);
}

/// The store: the model of the external key-value collaborator's command
/// surface, holding opaque byte payloads under string keys, each with an
/// optional lease deadline. Time is the caller's logical clock, passed to
/// every lease-sensitive command.
pub struct KvStore {
    entries: Vec<Entry>,
}

impl KvStore {
    /// The map the store represents.
    pub closed spec fn contents(self) -> Map<Seq<char>, EntryVal> {
        spec_entries_map(self.entries@)
    }

    /// The store keeps one record per key.
    pub closed spec fn wf(self) -> bool {
        spec_unique_keys(self.entries@)
    }

    /// Whether a key answers at the given time.
    pub open spec fn spec_live(self, k: Seq<char>, now: u64) -> bool {
        live_in(self.contents(), k, now)
    }

    /// An empty store.
    pub fn new() -> (r: KvStore)
        ensures
            r.wf(),
            r.contents() == Map::<Seq<char>, EntryVal>::empty(),
    {
        KvStore { entries: Vec::new() }
    }

    /// The index of the record carrying a key, if any.
    fn find(&self, k: &String) -> (r: Option<usize>)
        ensures
            r matches Some(i) ==> i < self.entries@.len() && self.entries@[i as int].key@ == k@,
            r is None ==> forall|j: int|
                0 <= j < self.entries@.len() ==> self.entries@[j].key@ != k@,
    {
        let mut i: usize = 0;
        while i < self.entries.len()
            invariant
                0 <= i <= self.entries@.len(),
                forall|j: int| 0 <= j < i ==> self.entries@[j].key@ != k@,
            decreases self.entries@.len() - i,
        {
            if self.entries[i].key == *k {
                return Some(i);
            }
            i = i + 1;
        }
        None
    }

    /// Reads a key. `NotFound` exactly when the key is absent or its
    /// lease has run out.
    pub fn get(&self, k: &String, now: u64) -> (r: Result<&Vec<u8>, KvError>)
        requires
            self.wf(),
        ensures
            r matches Ok(v) ==> spec_get(self.contents(), k@, now) == Some(v@),
            r is Err <==> !self.spec_live(k@, now),
            r matches Err(e) ==> e == KvError::NotFound,
    {
        match self.find(k) {
            Some(i) => {
                proof {
                    lemma_map_lookup(self.entries@, i as int);
                }
                let e = &self.entries[i];
                let live = match e.deadline {
                    Option::None => true,
                    Option::Some(d) => now < d,
                };
                if live {
                    Ok(&e.value)
                } else {
                    Err(KvError::NotFound)
                }
            },
            None => {
                proof {
                    lemma_map_membership(self.entries@, k@);
                }
                Err(KvError::NotFound)
            },
        }
    }

    /// Unconditional upsert; a lease length of `None` means no expiry.
    pub fn set(&mut self, k: String, v: Vec<u8>, ttl: Option<u64>, now: u64)
        requires
            old(self).wf(),
            ttl matches Some(t) ==> now + t <= u64::MAX,
        ensures
            final(self).wf(),
            final(self).contents() == spec_set(old(self).contents(), k@, v@, ttl, now),
    {
        let deadline = match ttl {
            Option::None => Option::None,
            Option::Some(t) => Option::Some(now + t),
        };
        let e = Entry { key: k, value: v, deadline };
        let ghost espec = e;
        let ghost s0 = self.entries@;
        match self.find(&e.key) {
            Some(i) => {
                proof {
                    lemma_map_update(s0, i as int, espec);
                }
                self.entries.set(i, e);
            },
            None => {
                proof {
                    lemma_map_push(s0, espec);
                }
                self.entries.push(e);
            },
        }
    }

    /// The atomic conditional write: creates the key, without a lease,
    /// exactly when it is not live; a live key is left untouched. This is
    /// the exactly-once primitive.
    pub fn set_if_absent(&mut self, k: String, v: Vec<u8>, now: u64) -> (r: bool)
        requires
            old(self).wf(),
        ensures
            final(self).wf(),
            r == spec_set_if_absent(old(self).contents(), k@, v@, now).1,
            final(self).contents() == spec_set_if_absent(old(self).contents(), k@, v@, now).0,
    {
        let ghost s0 = self.entries@;
        match self.find(&k) {
            Some(i) => {
                proof {
                    lemma_map_lookup(s0, i as int);
                }
                let live = match self.entries[i].deadline {
                    Option::None => true,
                    Option::Some(d) => now < d,
                };
                if live {
                    false
                } else {
                    let e = Entry { key: k, value: v, deadline: Option::None };
                    proof {
                        lemma_map_update(s0, i as int, e);
                    }
                    self.entries.set(i, e);
                    true
                }
            },
            None => {
                proof {
                    lemma_map_membership(s0, k@);
                }
                let e = Entry { key: k, value: v, deadline: Option::None };
                proof {
                    lemma_map_push(s0, e);
                }
                self.entries.push(e);
                true
            },
        }
    }

    /// Deletes a key; idempotent, deleting an absent key is not an error.
    /// Answers whether a record was removed.
    pub fn delete(&mut self, k: &String) -> (r: bool)
        requires
            old(self).wf(),
        ensures
            final(self).wf(),
            final(self).contents() == spec_delete(old(self).contents(), k@),
            r == old(self).contents().contains_key(k@),
    {
        let ghost s0 = self.entries@;
        match self.find(k) {
            Some(i) => {
                proof {
                    lemma_map_lookup(s0, i as int);
                    lemma_map_remove(s0, i as int);
                }
                self.entries.remove(i);
                true
            },
            None => {
                proof {
                    lemma_map_membership(s0, k@);
                    assert(spec_delete(spec_entries_map(s0), k@) =~= spec_entries_map(s0));
                }
                false
            },
        }
    }

    /// (Re)sets the lease on a live key, counted from now; answers
    /// `NotFound`, changing nothing, when the key is absent or stale.
    pub fn expire(&mut self, k: &String, ttl: u64, now: u64) -> (r: Result<(), KvError>)
        requires
            old(self).wf(),
            now + ttl <= u64::MAX,
        ensures
            final(self).wf(),
            r is Ok <==> spec_expire(old(self).contents(), k@, ttl, now).1,
            final(self).contents() == spec_expire(old(self).contents(), k@, ttl, now).0,
            r matches Err(e) ==> e == KvError::NotFound,
    {
        let ghost s0 = self.entries@;
        match self.find(k) {
            Some(i) => {
                proof {
                    lemma_map_lookup(s0, i as int);
                }
                let live = match self.entries[i].deadline {
                    Option::None => true,
                    Option::Some(d) => now < d,
                };
                if live {
                    let e = Entry {
                        key: self.entries[i].key.clone(),
                        value: self.entries[i].value.clone(),
                        deadline: Option::Some(now + ttl),
                    };
                    proof {
                        lemma_map_update(s0, i as int, e);
                    }
                    self.entries.set(i, e);
                    Ok(())
                } else {
                    Err(KvError::NotFound)
                }
            },
            None => {
                proof {
                    lemma_map_membership(s0, k@);
                }
                Err(KvError::NotFound)
            },
        }
    }

    /// The remaining lease of a live key: `None` for a key without
    /// expiry, otherwise the seconds left; `NotFound` for a stale or
    /// absent key.
    pub fn ttl(&self, k: &String, now: u64) -> (r: Result<Option<u64>, KvError>)
        requires
            self.wf(),
        ensures
            r is Err <==> !self.spec_live(k@, now),
            r matches Err(e) ==> e == KvError::NotFound,
            r matches Ok(d) ==> self.spec_live(k@, now) && d == (match self.contents()[k@]
                .deadline {
                Option::None => Option::<u64>::None,
                Option::Some(dd) => Option::Some((dd - now) as u64),
            }),
    {
        match self.find(k) {
            Some(i) => {
                proof {
                    lemma_map_lookup(self.entries@, i as int);
                }
                match self.entries[i].deadline {
                    Option::None => Ok(Option::None),
                    Option::Some(d) => {
                        if now < d {
                            Ok(Option::Some(d - now))
                        } else {
                            Err(KvError::NotFound)
                        }
                    },
                }
            },
            None => {
                proof {
                    lemma_map_membership(self.entries@, k@);
                }
                Err(KvError::NotFound)
            },
        }
    }

    /// Reads the payload under a key regardless of lease state: the
    /// compare half of a compare-and-delete.
    pub fn peek(&self, k: &String) -> (r: Option<&Vec<u8>>)
        requires
            self.wf(),
        ensures
            r matches Some(v) ==> self.contents().contains_key(k@) && v@ == self.contents().index(
                k@,
            ).value,
            r is None <==> !self.contents().contains_key(k@),
    {
        match self.find(k) {
            Some(i) => {
                proof {
                    lemma_map_lookup(self.entries@, i as int);
                }
                Some(&self.entries[i].value)
            },
            None => {
                proof {
                    lemma_map_membership(self.entries@, k@);
                }
                None
            },
        }
    }

    /// Whether a key is live.
    pub fn key_exists(&self, k: &String, now: u64) -> (r: bool)
        requires
            self.wf(),
        ensures
            r == self.spec_live(k@, now),
    {
        match self.find(k) {
            Some(i) => {
                proof {
                    lemma_map_lookup(self.entries@, i as int);
                }
                match self.entries[i].deadline {
                    Option::None => true,
                    Option::Some(d) => now < d,
                }
            },
            None => {
                proof {
                    lemma_map_membership(self.entries@, k@);
                }
                false
            },
        }
    }
}

/// A first conditional write on a free key wins, a second on the same key
/// loses and changes nothing, and a read then answers the first payload.
pub proof fn lemma_set_if_absent_first_wins(
    m: Map<Seq<char>, EntryVal>,
    k: Seq<char>,
    v1: Seq<u8>,
    v2: Seq<u8>,
    n1: u64,
    n2: u64,
)
    requires
        !live_in(m, k, n1),
    ensures
        spec_set_if_absent(m, k, v1, n1).1 == true,
        spec_set_if_absent(spec_set_if_absent(m, k, v1, n1).0, k, v2, n2).1 == false,
        spec_set_if_absent(spec_set_if_absent(m, k, v1, n1).0, k, v2, n2).0 == spec_set_if_absent(
            m,
            k,
            v1,
            n1,
        ).0,
        spec_get(spec_set_if_absent(spec_set_if_absent(m, k, v1, n1).0, k, v2, n2).0, k, n2)
            == Some(v1),
{
}

/// A lease bounds staleness: from its deadline on, the key no longer
/// answers — whatever its holder does. Reads find nothing, a renewal is
/// refused, and a fresh conditional write on the key succeeds: the key is
/// evicted with no action by its setter.
pub proof fn lemma_lease_expiry(
    m: Map<Seq<char>, EntryVal>,
    k: Seq<char>,
    v: Seq<u8>,
    ttl: u64,
    t: u64,
)
    requires
        m.contains_key(k),
        m[k].deadline matches Some(d) && t >= d,
    ensures
        !live_in(m, k, t),
        spec_get(m, k, t) is None,
        spec_expire(m, k, ttl, t).1 == false,
        spec_expire(m, k, ttl, t).0 == m,
        spec_set_if_absent(m, k, v, t).1 == true,
{
}

} // verus!
