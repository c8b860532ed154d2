use vstd::prelude::*;

verus! {

/// Ledgers in one week, at one ledger every five seconds: the margin
/// subtracted from the maximum lease window when a lease is renewed.
pub const WEEK_OF_LEDGERS: u64 = 60 * 60 * 24 / 5 * 7;

/// The key under which a credential's public key is persisted.
#[derive(Clone)]
pub enum DataKey {
    CredentialId(Vec<u8>),
}

impl DataKey {
    /// The credential id bytes this key names.
    pub open spec fn id(self) -> Seq<u8> {
        match self {
            DataKey::CredentialId(b) => b@,
        }
    }
}

/// The credential mapping a sequence of (id, public key) entries stands for;
/// later entries would win, but a well-formed store keeps ids unique.
pub open spec fn entries_map(es: Seq<(Vec<u8>, Vec<u8>)>) -> Map<Seq<u8>, Seq<u8>>
    decreases es.len(),
{
    if es.len() == 0 {
        Map::empty()
    } else {
        entries_map(es.drop_last()).insert(es.last().0@, es.last().1@)
    }
}

/// A key is in the mapping exactly when some entry holds it.
proof fn lemma_entries_map_contains(es: Seq<(Vec<u8>, Vec<u8>)>, id: Seq<u8>)
    ensures
        entries_map(es).contains_key(id) <==> exists|i: int|
            0 <= i < es.len() && es[i].0@ == id,
    decreases es.len(),
{
    if es.len() > 0 {
        lemma_entries_map_contains(es.drop_last(), id);
        if es.last().0@ == id {
            assert(es[es.len() - 1].0@ == id);
        } else if exists|i: int| 0 <= i < es.len() && es[i].0@ == id {
            let i = choose|i: int| 0 <= i < es.len() && es[i].0@ == id;
            assert(es.drop_last()[i] == es[i]);
        }
    }
}

/// With unique ids, each entry's id maps to that entry's public key.
proof fn lemma_entries_map_value(es: Seq<(Vec<u8>, Vec<u8>)>, i: int)
    requires
        0 <= i < es.len(),
        forall|a: int, b: int| 0 <= a < b < es.len() ==> es[a].0@ != es[b].0@,
    ensures
        entries_map(es).contains_key(es[i].0@),
        entries_map(es)[es[i].0@] == es[i].1@,
    decreases es.len(),
{
    if i < es.len() - 1 {
        lemma_entries_map_value(es.drop_last(), i);
        assert(es.drop_last()[i] == es[i]);
        assert(es[i].0@ != es[es.len() - 1].0@);
    }
}

/// The credential store: a write-once mapping from credential id to 65-byte
/// uncompressed secp256r1 public key, together with the lease it lives
/// under. The lease is an absolute expiry ledger number, bounded by the
/// maximum window the host allows.
pub struct CredentialStore {
    entries: Vec<(Vec<u8>, Vec<u8>)>,
    expiry: u64,
    max_expiry: u64,
}

/// The expiry a lease renewal leaves behind: bumped to the maximum window
/// when it has fallen below that window less the one-week margin, and left
/// alone otherwise. Never smaller than `cur` while `cur <= max`.
pub open spec fn renewed_expiry(cur: u64, max: u64) -> u64
    recommends
        cur <= max,
        max >= WEEK_OF_LEDGERS,
{
    if cur < max - WEEK_OF_LEDGERS {
        max
    } else {
        cur
    }
}

impl CredentialStore {
    /// The credential mapping this store holds.
    pub closed spec fn creds(self) -> Map<Seq<u8>, Seq<u8>> {
        entries_map(self.entries@)
    }

    /// The current lease expiry.
    pub closed spec fn expiry(self) -> u64 {
        self.expiry
    }

    /// The largest expiry the host allows a lease to reach.
    pub closed spec fn max_expiry(self) -> u64 {
        self.max_expiry
    }

    /// Well-formedness: ids are unique, every stored public key is 65 bytes,
    /// and the lease lies within the allowed window (which itself is at
    /// least the one-week margin).
    pub closed spec fn wf(self) -> bool {
        &&& forall|a: int, b: int|
            0 <= a < b < self.entries@.len() ==> self.entries@[a].0@ != self.entries@[b].0@
        &&& forall|i: int| 0 <= i < self.entries@.len() ==> self.entries@[i].1@.len() == 65
        &&& self.expiry <= self.max_expiry
        &&& self.max_expiry >= WEEK_OF_LEDGERS
    }

    /// An empty store under the given lease.
    pub fn new(initial_expiry: u64, max_expiry: u64) -> (r: Self)
        requires
            initial_expiry <= max_expiry,
            max_expiry >= WEEK_OF_LEDGERS,
        ensures
            r.wf(),
            r.creds() == Map::<Seq<u8>, Seq<u8>>::empty(),
            r.expiry() == initial_expiry,
            r.max_expiry() == max_expiry,
    {
        CredentialStore { entries: Vec::new(), expiry: initial_expiry, max_expiry }
    }

    /// Persist a credential. Provisioning is write-once: the id must be new.
    pub fn register(&mut self, key: DataKey, public_key: Vec<u8>)
        requires
            old(self).wf(),
            public_key@.len() == 65,
            !old(self).creds().contains_key(key.id()),
        ensures
            final(self).wf(),
            final(self).creds() == old(self).creds().insert(key.id(), public_key@),
            final(self).expiry() == old(self).expiry(),
            final(self).max_expiry() == old(self).max_expiry(),
    {
        let DataKey::CredentialId(id) = key;
        proof {
            lemma_entries_map_contains(self.entries@, id@);
        }
        let ghost pre = self.entries@;
        self.entries.push((id, public_key));
        proof {
            assert(self.entries@.drop_last() =~= pre);
            assert(forall|q: int| 0 <= q < pre.len() ==> self.entries@[q] == pre[q]);
        }
    }

    /// Look a public key up by credential id.
    pub fn get(&self, key: &DataKey) -> (r: Option<Vec<u8>>)
        requires
            self.wf(),
        ensures
            match r {
                Some(pk) => self.creds().contains_key(key.id()) && pk@ == self.creds()[key.id()]
                    && pk@.len() == 65,
                None => !self.creds().contains_key(key.id()),
            },
    {
        let id: &Vec<u8> = match key {
            DataKey::CredentialId(b) => b,
        };
        proof {
            assert(key.id() == id@);
        }
        let mut i: usize = 0;
        while i < self.entries.len()
            invariant
                i <= self.entries@.len(),
                self.wf(),
                key.id() == id@,
                forall|q: int| 0 <= q < i ==> self.entries@[q].0@ != id@,
            decreases self.entries@.len() - i,
        {
            let entry = &self.entries[i];
            if bytes_eq(&entry.0, id) {
                let pk = clone_bytes(&entry.1);
                proof {
                    assert(*entry == self.entries@[i as int]);
                    lemma_entries_map_value(self.entries@, i as int);
                }
                return Some(pk);
            }
            i = i + 1;
        }
        proof {
            lemma_entries_map_contains(self.entries@, id@);
        }
        None
    }

    /// The current lease expiry, for hosts that audit renewals.
    pub fn current_expiry(&self) -> (r: u64)
        ensures
            r == self.expiry(),
    {
        self.expiry
    }

    /// Renew the lease: extend the expiry to the maximum window whenever it
    /// has fallen below that window less the one-week margin. Monotonic and
    /// idempotent; the credential mapping is untouched.
    pub fn renew_lease(&mut self)
        requires
            old(self).wf(),
        ensures
            final(self).wf(),
            final(self).creds() == old(self).creds(),
            final(self).max_expiry() == old(self).max_expiry(),
            final(self).expiry() == renewed_expiry(old(self).expiry(), old(self).max_expiry()),
            old(self).expiry() <= final(self).expiry(),
    {
        let threshold = self.max_expiry - WEEK_OF_LEDGERS;
        if self.expiry < threshold {
            self.expiry = self.max_expiry;
        }
    }
}

/// Whether two byte vectors hold the same bytes.
pub(crate) fn bytes_eq(a: &Vec<u8>, b: &Vec<u8>) -> (r: bool)
    ensures
        r == (a@ == b@),
{
    if a.len() != b.len() {
        return false;
    }
    let mut i: usize = 0;
    while i < a.len()
        invariant
            i <= a@.len() == b@.len(),
            forall|q: int| 0 <= q < i ==> a@[q] == b@[q],
        decreases a@.len() - i,
    {
        if a[i] != b[i] {
            return false;
        }
        i = i + 1;
    }
    proof {
        assert(a@ =~= b@);
    }
    true
}

/// A fresh vector holding the same bytes.
pub(crate) fn clone_bytes(v: &Vec<u8>) -> (r: Vec<u8>)
    ensures
        r@ == v@,
{
    let mut r: Vec<u8> = Vec::new();
    let mut i: usize = 0;
    while i < v.len()
        invariant
            i <= v@.len(),
            r@ == v@.subrange(0, i as int),
        decreases v@.len() - i,
    {
        r.push(v[i]);
        proof {
            assert(r@ =~= v@.subrange(0, i as int + 1));
        }
        i = i + 1;
    }
    proof {
        assert(v@.subrange(0, v@.len() as int) =~= v@);
    }
    r
}

} // verus!
