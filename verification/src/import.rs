use crate::error::Error;
use crate::framing::{
    be32, lemma_next_record, lemma_records_fit, log_records, log_stop, next_record, payload_of,
    records_from,
    stop_from, to_be32, LogRecord, NextRecord,
};
use crate::types::Header;
use vstd::prelude::*;

verus! {

/// A key/value store that imported records are written to.
///
/// A store says what it holds, and what it answers to a write: whether it
/// takes it, and with which failure it refuses. What it answers may depend
/// on the writes it took before.
pub trait DB {
    /// What the store holds: the value under each key.
    spec fn contents(&self) -> Map<Seq<u8>, Seq<u8>>;

    /// What the store answers to the write of `value` under `key`, once it
    /// has taken the writes `before`, in order.
    spec fn answer(&self, before: Seq<(Seq<u8>, Seq<u8>)>, key: Seq<u8>, value: Seq<u8>) -> Result<
        (),
        Error,
    >;

    /// Stores `value` under `key`, in place of what stood there. A store
    /// that takes the write holds it afterwards and is otherwise as it was;
    /// a store that refuses holds what it held.
    fn put(&mut self, key: &[u8], value: &[u8]) -> (r: Result<(), Error>)
        ensures
            r == old(self).answer(Seq::empty(), key@, value@),
            r is Ok ==> final(self).contents() == old(self).contents().insert(key@, value@),
            r is Ok ==> forall|before: Seq<(Seq<u8>, Seq<u8>)>, k: Seq<u8>, v: Seq<u8>| #[trigger]
                final(self).answer(before, k, v) == old(self).answer(
                    seq![(key@, value@)] + before,
                    k,
                    v,
                ),
            r is Err ==> final(self).contents() == old(self).contents(),
            r is Err ==> forall|before: Seq<(Seq<u8>, Seq<u8>)>, k: Seq<u8>, v: Seq<u8>| #[trigger]
                final(self).answer(before, k, v) == old(self).answer(before, k, v),
    ;
}

/// The key under which a record is stored: its block number in four bytes,
/// most significant first.
pub open spec fn entry_key(record: LogRecord) -> Seq<u8> {
    be32(record.header.number)
}

/// The value stored for a record: its payload, without the length field.
pub open spec fn entry_value(input: Seq<u8>, record: LogRecord) -> Seq<u8> {
    payload_of(input, record)
}

/// The writes that the records of a log ask for, in order.
pub open spec fn entries(input: Seq<u8>) -> Seq<(Seq<u8>, Seq<u8>)> {
    Seq::new(
        log_records(input).len(),
        |i: int| (entry_key(log_records(input)[i]), entry_value(input, log_records(input)[i])),
    )
}

/// The store after the first `n` of `records` were written to it in order.
pub open spec fn store_after(
    store: Map<Seq<u8>, Seq<u8>>,
    input: Seq<u8>,
    records: Seq<LogRecord>,
    n: int,
) -> Map<Seq<u8>, Seq<u8>>
    decreases n,
{
    if n <= 0 {
        store
    } else {
        store_after(store, input, records, n - 1).insert(
            entry_key(records[n - 1]),
            entry_value(input, records[n - 1]),
        )
    }
}

/// The store after every record of the log `input` was written to it.
pub open spec fn imported(store: Map<Seq<u8>, Seq<u8>>, input: Seq<u8>) -> Map<Seq<u8>, Seq<u8>> {
    store_after(store, input, log_records(input), log_records(input).len() as int)
}

/// What the store answers to the write with index `i` of `writes`, once it
/// has taken those before it.
pub open spec fn answer_at<D: DB>(db: D, writes: Seq<(Seq<u8>, Seq<u8>)>, i: int) -> Result<
    (),
    Error,
> {
    db.answer(writes.take(i), writes[i].0, writes[i].1)
}

/// How many of the first `n` of `writes` the store takes, one after the
/// other, before it refuses one.
pub open spec fn taken<D: DB>(db: D, writes: Seq<(Seq<u8>, Seq<u8>)>, n: int) -> int
    decreases n,
{
    if n <= 0 {
        0
    } else {
        let before = taken(db, writes, n - 1);
        if before == n - 1 && answer_at(db, writes, n - 1) is Ok {
            n
        } else {
            before
        }
    }
}

/// What the import of the log `input` into the store gives: the failure of
/// the first write that the store refuses; where it takes them all, the
/// number of records of a log that ends cleanly, and
/// [`Error::DecodeError`] for a log that does not.
pub open spec fn import_result<D: DB>(db: D, input: Seq<u8>) -> Result<u32, Error> {
    let writes = entries(input);
    let k = taken(db, writes, writes.len() as int);
    if k < writes.len() {
        match answer_at(db, writes, k) {
            Err(e) => Err(e),
            Ok(_) => Err(Error::DecodeError),
        }
    } else if log_stop(input) is End {
        Ok(writes.len() as u32)
    } else {
        Err(Error::DecodeError)
    }
}

/// The writes that a store takes of the first `n` are those before the
/// first that it refuses: it takes each of them and refuses the next, and
/// with more writes to come it takes no more.
pub proof fn lemma_taken<D: DB>(db: D, writes: Seq<(Seq<u8>, Seq<u8>)>, n: int)
    ensures
        0 <= taken(db, writes, n),
        n >= 0 ==> taken(db, writes, n) <= n,
        forall|i: int| 0 <= i < taken(db, writes, n) ==> #[trigger] answer_at(db, writes, i) is Ok,
        0 <= taken(db, writes, n) < n ==> answer_at(db, writes, taken(db, writes, n)) is Err,
        forall|m: int| 0 <= m <= n ==> #[trigger] taken(db, writes, m) <= taken(db, writes, n),
        forall|m: int|
            0 <= m <= n && #[trigger] taken(db, writes, m) < m ==> taken(db, writes, n) == taken(
                db,
                writes,
                m,
            ),
    decreases n,
{
    if n > 0 {
        lemma_taken(db, writes, n - 1);
    }
}

/// A store that takes every write takes all the writes of a log.
pub proof fn lemma_all_taken<D: DB>(db: D, writes: Seq<(Seq<u8>, Seq<u8>)>, n: int)
    requires
        forall|before: Seq<(Seq<u8>, Seq<u8>)>, k: Seq<u8>, v: Seq<u8>| #[trigger]
            db.answer(before, k, v) is Ok,
        n >= 0,
    ensures
        taken(db, writes, n) == n,
    decreases n,
{
    if n > 0 {
        lemma_all_taken(db, writes, n - 1);
    }
}

/// The key and the value under which a record goes into the store: the
/// header's number in four bytes, most significant first, and the record
/// without its length field.
pub fn import_entry<'a>(header: &Header, record: &'a [u8]) -> (entry: ([u8; 4], &'a [u8]))
    requires
        record.len() >= 4,
    ensures
        entry.0@ == be32(header.number),
        entry.1@ == record@.subrange(4, record.len() as int),
{
    (to_be32(header.number), vstd::slice::slice_subrange(record, 4, record.len()))
}

/// What follows a write: where the store took it, the count goes up by one
/// and the reading goes on behind the record; where the store refused it,
/// the import ends with the store's failure.
pub fn after_write(written: Result<(), Error>, count: u32, end: usize) -> (next: Result<
    (u32, usize),
    Error,
>)
    requires
        count < u32::MAX,
    ensures
        next == match written {
            Ok(_) => Ok(((count + 1) as u32, end)),
            Err(e) => Err(e),
        },
{
    match written {
        Ok(()) => Ok((count + 1, end)),
        Err(e) => Err(e),
    }
}

/// How an import ends where no whole record with a header stands: with the
/// count where the log ends, and with [`Error::DecodeError`] where a record
/// is cut short or has no header.
pub fn at_stop(found: &NextRecord, count: u32) -> (r: Result<u32, Error>)
    requires
        !(found is Record),
    ensures
        r == if found is End {
            Ok::<u32, Error>(count)
        } else {
            Err::<u32, Error>(Error::DecodeError)
        },
{
    match found {
        NextRecord::End => Ok(count),
        _ => Err(Error::DecodeError),
    }
}

/// Import header logs into database.
///
/// Writes every record of the log `input` to `to_db`, in order, each under
/// its block number. The first write that the store refuses ends the import
/// with the store's failure, and a record that is cut short or has no
/// header ends it with [`Error::DecodeError`]; what was written before
/// stays. The count of records has 32 bits, so the log may hold no more
/// records than that.
pub fn import_headers<D: DB>(input: &[u8], to_db: &mut D) -> (r: Result<u32, Error>)
    requires
        log_records(input@).len() <= u32::MAX,
    ensures
        r == import_result(*old(to_db), input@),
        final(to_db).contents() == store_after(
            old(to_db).contents(),
            input@,
            log_records(input@),
            taken(*old(to_db), entries(input@), entries(input@).len() as int),
        ),
        forall|before: Seq<(Seq<u8>, Seq<u8>)>, k: Seq<u8>, v: Seq<u8>| #[trigger]
            final(to_db).answer(before, k, v) == old(to_db).answer(
                entries(input@).take(
                    taken(*old(to_db), entries(input@), entries(input@).len() as int),
                ) + before,
                k,
                v,
            ),
{
    let ghost records = log_records(input@);
    let ghost writes = entries(input@);
    let ghost n = writes.len() as int;
    let mut count: u32 = 0;
    let mut pos: usize = 0;
    proof {
        assert forall|before: Seq<(Seq<u8>, Seq<u8>)>, k: Seq<u8>, v: Seq<u8>| #[trigger]
            to_db.answer(before, k, v) == old(to_db).answer(writes.take(0) + before, k, v) by {
            assert(writes.take(0) + before =~= before);
        }
    }
    loop
        invariant
            pos <= input.len(),
            records == log_records(input@),
            writes == entries(input@),
            n == writes.len(),
            records.len() <= u32::MAX,
            count <= records.len(),
            records_from(input@, pos as int) == records.skip(count as int),
            stop_from(input@, pos as int) == log_stop(input@),
            taken(*old(to_db), writes, count as int) == count,
            to_db.contents() == store_after(old(to_db).contents(), input@, records, count as int),
            forall|before: Seq<(Seq<u8>, Seq<u8>)>, k: Seq<u8>, v: Seq<u8>| #[trigger]
                to_db.answer(before, k, v) == old(to_db).answer(
                    writes.take(count as int) + before,
                    k,
                    v,
                ),
        decreases input.len() - pos,
    {
        let found = next_record(input, pos);
        match found {
            NextRecord::Record { header, end } => {
                let entry = import_entry(&header, vstd::slice::slice_subrange(input, pos, end));
                let ghost store = *to_db;
                proof {
                    lemma_next_record(input@, pos as int, count as int);
                    assert(entry.1@ =~= input@.subrange(pos + 4, end as int));
                    assert(writes[count as int] == (entry.0@, entry.1@));
                    assert(writes.take(count as int) + Seq::<(Seq<u8>, Seq<u8>)>::empty()
                        =~= writes.take(count as int));
                }
                let written = to_db.put(&entry.0, entry.1);
                proof {
                    assert(written == answer_at(*old(to_db), writes, count as int));
                    lemma_taken(*old(to_db), writes, n);
                    if written is Ok {
                        assert forall|before: Seq<(Seq<u8>, Seq<u8>)>, k: Seq<u8>, v: Seq<u8>| #[trigger]
                            to_db.answer(before, k, v) == old(to_db).answer(
                                writes.take(count + 1) + before,
                                k,
                                v,
                            ) by {
                            assert(to_db.answer(before, k, v) == store.answer(
                                seq![(entry.0@, entry.1@)] + before,
                                k,
                                v,
                            ));
                            assert(writes.take(count as int) + (seq![(entry.0@, entry.1@)] + before)
                                =~= writes.take(count + 1) + before);
                        }
                    } else {
                        assert(taken(*old(to_db), writes, count + 1) == count);
                        assert(taken(*old(to_db), writes, n) == count);
                    }
                }
                match after_write(written, count, end) {
                    Ok(next) => {
                        count = next.0;
                        pos = next.1;
                    },
                    Err(e) => {
                        return Err(e);
                    },
                }
            },
            _ => {
                proof {
                    assert(records.skip(count as int).len() == 0);
                    assert(count == n);
                }
                return at_stop(&found, count);
            },
        }
    }
}

/// Imports a log as [`import_headers`] does, if it is short enough for its
/// records to be counted whatever it holds: a record has four bytes at
/// least, so a log of no more than four times the largest count is. A
/// longer log is not read, and the store stays as it is.
pub fn try_import_headers<D: DB>(input: &[u8], to_db: &mut D) -> (r: Option<Result<u32, Error>>)
    ensures
        r is Some <==> input.len() <= 4 * u32::MAX,
        r is None ==> *final(to_db) == *old(to_db),
        r matches Some(imported) ==> {
            &&& imported == import_result(*old(to_db), input@)
            &&& final(to_db).contents() == store_after(
                old(to_db).contents(),
                input@,
                log_records(input@),
                taken(*old(to_db), entries(input@), entries(input@).len() as int),
            )
        },
{
    if input.len() / 4 > 0xffff_ffff || (input.len() / 4 == 0xffff_ffff && input.len() % 4 != 0) {
        return None;
    }
    proof {
        lemma_records_fit(input@, 0);
    }
    Some(import_headers(input, to_db))
}

/// The value that the last of the first `n` records with the key `key`
/// stores, if one of them has that key.
pub open spec fn last_write(input: Seq<u8>, records: Seq<LogRecord>, n: int, key: Seq<u8>) -> Option<
    Seq<u8>,
>
    decreases n,
{
    if n <= 0 {
        None
    } else if entry_key(records[n - 1]) == key {
        Some(entry_value(input, records[n - 1]))
    } else {
        last_write(input, records, n - 1, key)
    }
}

/// After `n` records were written, a key holds what the last record with
/// that key stored, and what it held before where no record has that key.
pub proof fn lemma_store_after_key(
    store: Map<Seq<u8>, Seq<u8>>,
    input: Seq<u8>,
    records: Seq<LogRecord>,
    n: int,
    key: Seq<u8>,
)
    ensures
        store_after(store, input, records, n).dom().contains(key) <==> store.dom().contains(key)
            || last_write(input, records, n, key) is Some,
        last_write(input, records, n, key) matches Some(value) ==> store_after(
            store,
            input,
            records,
            n,
        )[key] == value,
        last_write(input, records, n, key) is None ==> store_after(store, input, records, n)[key]
            == store[key],
    decreases n,
{
    if n > 0 {
        lemma_store_after_key(store, input, records, n - 1, key);
    }
}

/// Importing a log a second time changes nothing: the store holds after the
/// second import what it held after the first.
pub proof fn lemma_import_twice(store: Map<Seq<u8>, Seq<u8>>, input: Seq<u8>)
    ensures
        imported(imported(store, input), input) == imported(store, input),
{
    let records = log_records(input);
    let n = records.len() as int;
    let once = imported(store, input);
    let twice = imported(once, input);
    assert forall|key: Seq<u8>| #[trigger]
        twice.dom().contains(key) == once.dom().contains(key) by {
        lemma_store_after_key(store, input, records, n, key);
        lemma_store_after_key(once, input, records, n, key);
    }
    assert forall|key: Seq<u8>| #[trigger] once.dom().contains(key) implies twice[key]
        == once[key] by {
        lemma_store_after_key(store, input, records, n, key);
        lemma_store_after_key(once, input, records, n, key);
    }
    assert(twice.dom() =~= once.dom());
    assert(twice =~= once);
}

/// A store that takes every write of a log gets them all: the import gives
/// the number of records where the log ends cleanly, and
/// [`Error::DecodeError`] where it ends in a record that is cut short or
/// has no header.
pub proof fn lemma_import_all_taken<D: DB>(db: D, input: Seq<u8>)
    requires
        forall|i: int| 0 <= i < entries(input).len() ==> #[trigger] answer_at(db, entries(input), i) is Ok,
    ensures
        taken(db, entries(input), entries(input).len() as int) == entries(input).len(),
        log_stop(input) is End ==> import_result(db, input) == Ok::<u32, Error>(
            entries(input).len() as u32,
        ),
        !(log_stop(input) is End) ==> import_result(db, input) == Err::<u32, Error>(
            Error::DecodeError,
        ),
{
    lemma_taken(db, entries(input), entries(input).len() as int);
}

/// A store that refuses the write with index `k`, having taken those
/// before, gets the first `k` writes and no more, and the import ends with
/// the failure that the store gave.
pub proof fn lemma_import_refused<D: DB>(db: D, input: Seq<u8>, k: int)
    requires
        0 <= k < entries(input).len(),
        forall|i: int| 0 <= i < k ==> #[trigger] answer_at(db, entries(input), i) is Ok,
        answer_at(db, entries(input), k) is Err,
    ensures
        taken(db, entries(input), entries(input).len() as int) == k,
        import_result(db, input) == Err::<u32, Error>(answer_at(db, entries(input), k)->Err_0),
{
    let writes = entries(input);
    lemma_taken(db, writes, writes.len() as int);
    let t = taken(db, writes, writes.len() as int);
    if t < k {
        assert(answer_at(db, writes, t) is Ok);
    }
}

/// A log that went into a store imports into it again, if the store takes
/// every write, and leaves it as it is: `later` is how `first` stands after
/// the import of the log.
pub proof fn lemma_import_again<D: DB>(first: D, later: D, input: Seq<u8>)
    requires
        forall|before: Seq<(Seq<u8>, Seq<u8>)>, k: Seq<u8>, v: Seq<u8>| #[trigger]
            first.answer(before, k, v) is Ok,
        log_stop(input) is End,
        later.contents() == imported(first.contents(), input),
        forall|before: Seq<(Seq<u8>, Seq<u8>)>, k: Seq<u8>, v: Seq<u8>| #[trigger]
            later.answer(before, k, v) == first.answer(entries(input) + before, k, v),
    ensures
        import_result(first, input) == Ok::<u32, Error>(entries(input).len() as u32),
        import_result(later, input) == Ok::<u32, Error>(entries(input).len() as u32),
        imported(later.contents(), input) == later.contents(),
{
    lemma_import_all_taken(first, input);
    lemma_import_all_taken(later, input);
    lemma_import_twice(first.contents(), input);
}

} // verus!
