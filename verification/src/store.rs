use crate::error::Error;
use crate::import::DB;
use vstd::prelude::*;

verus! {

/// What a sequence of writes leaves in an empty store, once the first `n` of
/// them are made in order: a later write to a key replaces an earlier one.
pub open spec fn written(writes: Seq<(Vec<u8>, Vec<u8>)>, n: int) -> Map<Seq<u8>, Seq<u8>>
    decreases n,
{
    if n <= 0 {
        Map::empty()
    } else {
        written(writes, n - 1).insert(writes[n - 1].0@, writes[n - 1].1@)
    }
}

/// Whether two byte strings are the same.
pub fn same_bytes(a: &[u8], b: &[u8]) -> (same: bool)
    ensures
        same == (a@ == b@),
{
    if a.len() != b.len() {
        return false;
    }
    let mut i: usize = 0;
    while i < a.len()
        invariant
            i <= a.len(),
            a.len() == b.len(),
            forall|j: int| 0 <= j < i ==> a@[j] == b@[j],
        decreases a.len() - i,
    {
        if a[i] != b[i] {
            return false;
        }
        i += 1;
    }
    assert(a@ =~= b@);
    true
}

/// A store in memory that keeps every write it accepted, and accepts no
/// more than `capacity` of them.
#[derive(Clone, Debug)]
pub struct MemoryDb {
    pub writes: Vec<(Vec<u8>, Vec<u8>)>,
    pub capacity: usize,
}

impl MemoryDb {
    /// An empty store that accepts `capacity` writes.
    pub fn new(capacity: usize) -> (db: Self)
        ensures
            db.contents() == Map::<Seq<u8>, Seq<u8>>::empty(),
            db.writes@.len() == 0,
            db.capacity == capacity,
    {
        MemoryDb { writes: Vec::new(), capacity }
    }

    /// What the store holds under `key`.
    pub fn get(&self, key: &[u8]) -> (value: Option<&Vec<u8>>)
        ensures
            match value {
                Some(v) => self.contents().dom().contains(key@) && self.contents()[key@] == v@,
                None => !self.contents().dom().contains(key@),
            },
    {
        let mut n: usize = self.writes.len();
        while n > 0
            invariant
                n <= self.writes.len(),
                self.contents().dom().contains(key@) <==> written(
                    self.writes@,
                    n as int,
                ).dom().contains(key@),
                self.contents().dom().contains(key@) ==> self.contents()[key@] == written(
                    self.writes@,
                    n as int,
                )[key@],
            decreases n,
        {
            if same_bytes(self.writes[n - 1].0.as_slice(), key) {
                return Some(&self.writes[n - 1].1);
            }
            n -= 1;
        }
        None
    }
}

impl DB for MemoryDb {
    open spec fn contents(&self) -> Map<Seq<u8>, Seq<u8>> {
        written(self.writes@, self.writes@.len() as int)
    }

    /// The store takes a write while it has taken fewer than `capacity`,
    /// and refuses it with [`Error::SinkWriteFailed`] after that.
    open spec fn answer(&self, before: Seq<(Seq<u8>, Seq<u8>)>, key: Seq<u8>, value: Seq<u8>) -> Result<
        (),
        Error,
    > {
        if self.writes@.len() + before.len() < self.capacity {
            Ok(())
        } else {
            Err(Error::SinkWriteFailed)
        }
    }

    fn put(&mut self, key: &[u8], value: &[u8]) -> (r: Result<(), Error>)
        ensures
            r is Err ==> *final(self) == *old(self),
            r is Ok ==> final(self).capacity == old(self).capacity && final(self).writes@.len()
                == old(self).writes@.len() + 1,
    {
        if self.writes.len() >= self.capacity {
            return Err(Error::SinkWriteFailed);
        }
        let ghost before = self.writes@;
        self.writes.push((vstd::slice::slice_to_vec(key), vstd::slice::slice_to_vec(value)));
        proof {
            lemma_written_prefix(self.writes@, before, before.len() as int);
        }
        Ok(())
    }
}

/// The first `n` writes leave the same whatever follows them.
pub proof fn lemma_written_prefix(a: Seq<(Vec<u8>, Vec<u8>)>, b: Seq<(Vec<u8>, Vec<u8>)>, n: int)
    requires
        n <= a.len(),
        n <= b.len(),
        forall|i: int| 0 <= i < n ==> a[i] == b[i],
    ensures
        written(a, n) == written(b, n),
    decreases n,
{
    if n > 0 {
        lemma_written_prefix(a, b, n - 1);
    }
}

} // verus!
