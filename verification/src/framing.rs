use crate::error::Error;
use crate::types::{Header, HeaderView};
use parity_scale_codec::Decode;
use vstd::prelude::*;

verus! {

/// The four bytes of `n`, most significant first.
pub open spec fn be32(n: u32) -> Seq<u8> {
    seq![
        (n / 0x100_0000) as u8,
        ((n / 0x1_0000) % 0x100) as u8,
        ((n / 0x100) % 0x100) as u8,
        (n % 0x100) as u8,
    ]
}

/// The number that four bytes spell, most significant first.
pub open spec fn be32_value(b: Seq<u8>) -> nat
    recommends
        b.len() == 4,
{
    (b[0] as nat) * 0x100_0000 + (b[1] as nat) * 0x1_0000 + (b[2] as nat) * 0x100 + (b[3] as nat)
}

/// Every number is read back from its four bytes.
pub proof fn lemma_be32_value_of_bytes(n: u32)
    ensures
        be32(n).len() == 4,
        be32_value(be32(n)) == n,
{
}

/// Every four bytes are the bytes of the number they spell.
pub proof fn lemma_be32_bytes_of_value(b: Seq<u8>)
    requires
        b.len() == 4,
    ensures
        be32_value(b) <= u32::MAX,
        be32(be32_value(b) as u32) == b,
{
    let b0 = b[0] as int;
    let b1 = b[1] as int;
    let b2 = b[2] as int;
    let b3 = b[3] as int;
    let v = b0 * 0x100_0000 + b1 * 0x1_0000 + b2 * 0x100 + b3;
    assert(v == be32_value(b));
    assert(v / 0x100_0000 == b0);
    assert((v / 0x1_0000) % 0x100 == b1);
    assert((v / 0x100) % 0x100 == b2);
    assert(v % 0x100 == b3);
    assert(be32(v as u32) =~= b);
}

/// Writes `n` as four bytes, most significant first.
pub fn to_be32(n: u32) -> (bytes: [u8; 4])
    ensures
        bytes@ == be32(n),
{
    let bytes: [u8; 4] = [
        (n / 0x100_0000) as u8,
        ((n / 0x1_0000) % 0x100) as u8,
        ((n / 0x100) % 0x100) as u8,
        (n % 0x100) as u8,
    ];
    assert(bytes@ =~= be32(n));
    bytes
}

/// Reads the number that the four bytes at `pos` spell.
pub fn from_be32(input: &[u8], pos: usize) -> (n: u32)
    requires
        pos + 4 <= input.len(),
    ensures
        n == be32_value(input@.subrange(pos as int, pos + 4)),
{
    let b0: u32 = input[pos] as u32;
    let b1: u32 = input[pos + 1] as u32;
    let b2: u32 = input[pos + 2] as u32;
    let b3: u32 = input[pos + 3] as u32;
    b0 * 0x100_0000 + b1 * 0x1_0000 + b2 * 0x100 + b3
}

/// The log record that holds `payload`: the payload's length in four bytes,
/// most significant first, then the payload.
pub open spec fn framed(payload: Seq<u8>) -> Seq<u8>
    recommends
        payload.len() <= u32::MAX,
{
    be32(payload.len() as u32) + payload
}

/// Frames `payload` as one log record. A payload too long for the length
/// field has no record.
pub fn encode_record(payload: &[u8]) -> (record: Option<Vec<u8>>)
    ensures
        payload.len() <= u32::MAX <==> record is Some,
        record matches Some(bytes) ==> bytes@ == framed(payload@),
{
    if payload.len() > 0xffff_ffff {
        return None;
    }
    let length = to_be32(payload.len() as u32);
    let mut bytes: Vec<u8> = Vec::new();
    bytes.push(length[0]);
    bytes.push(length[1]);
    bytes.push(length[2]);
    bytes.push(length[3]);
    bytes.extend_from_slice(payload);
    assert(bytes@ =~= framed(payload@));
    Some(bytes)
}

/// What `sp_runtime::generic::Header::<u32, BlakeTwo256>::decode` makes of
/// the front of `payload`: the number of the header it reads, and how many
/// bytes it leaves unread; `None` where that decoding fails.
pub uninterp spec fn decoded_header(payload: Seq<u8>) -> Option<(u32, nat)>;

/// Decodes the relay-chain header that a payload begins with.
///
/// Calls `Decode::decode` of `sp_runtime::generic::Header<u32, BlakeTwo256>`
/// on the payload, and hands out the header's number and the length of what
/// the decoding left unread. Nothing is proved of the decoding: the contract
/// gives its outcome the name [`decoded_header`], which rests on the
/// decoding being a function of the bytes alone, and says that what is left
/// of a slice is no longer than the slice.
#[verifier::external_body]
fn decode_header(payload: &[u8]) -> (decoded: Option<(u32, usize)>)
    ensures
        match decoded {
            Some((number, left)) => decoded_header(payload@) == Some((number, left as nat)) && left
                <= payload.len(),
            None => decoded_header(payload@) is None,
        },
{
    let mut input = payload;
    match sp_runtime::generic::Header::<u32, sp_runtime::traits::BlakeTwo256>::decode(&mut input) {
        Ok(header) => Some((header.number, input.len())),
        Err(_) => None,
    }
}

/// The header that stands at the front of `payload`, once the decoding
/// gave `decoded`: its number, and the bytes that the decoding read.
pub open spec fn header_with(payload: Seq<u8>, decoded: Option<(u32, nat)>) -> Option<HeaderView> {
    match decoded {
        Some((number, left)) => if left <= payload.len() {
            Some(HeaderView { number, encoded: payload.subrange(0, payload.len() - left) })
        } else {
            None
        },
        None => None,
    }
}

/// The header that a payload begins with, if it begins with one.
pub open spec fn header_of(payload: Seq<u8>) -> Option<HeaderView> {
    header_with(payload, decoded_header(payload))
}

/// The header at the front of `payload`, once the decoding gave its number
/// and the length of what it left unread: the header keeps the bytes that
/// were read.
pub fn header_from(payload: &[u8], decoded: Option<(u32, usize)>) -> (header: Option<Header>)
    ensures
        match header {
            Some(h) => header_with(
                payload@,
                match decoded {
                    Some((number, left)) => Some((number, left as nat)),
                    None => None,
                },
            ) == Some(h@),
            None => decoded matches Some((_, left)) ==> left > payload.len(),
        },
{
    match decoded {
        Some((number, left)) => {
            if left <= payload.len() {
                let read = vstd::slice::slice_subrange(payload, 0, payload.len() - left);
                Some(Header { number, encoded: vstd::slice::slice_to_vec(read) })
            } else {
                None
            }
        },
        None => None,
    }
}

/// Reads the header that a payload begins with.
pub fn read_header(payload: &[u8]) -> (header: Option<Header>)
    ensures
        match header {
            Some(h) => header_of(payload@) == Some(h@),
            None => header_of(payload@) is None,
        },
{
    header_from(payload, decode_header(payload))
}

/// How the bytes at a position of a log are framed.
pub ghost enum FrameAt {
    /// Fewer than four bytes are left: the log ends here.
    End,
    /// A length field stands here, and fewer bytes follow it than it says.
    Truncated,
    /// A whole record stands here, which ends at `end`.
    Payload { end: int },
}

/// How the bytes at position `pos` of the log `input` are framed.
pub open spec fn frame_at(input: Seq<u8>, pos: int) -> FrameAt {
    if pos < 0 || input.len() < pos + 4 {
        FrameAt::End
    } else {
        let length = be32_value(input.subrange(pos, pos + 4));
        if input.len() < pos + 4 + length {
            FrameAt::Truncated
        } else {
            FrameAt::Payload { end: pos + 4 + length }
        }
    }
}

/// What [`read_frame`] found at a position of a log.
#[derive(Clone, Copy, Debug, PartialEq, Eq)]
pub enum Frame {
    /// Fewer than four bytes are left: the log ends here.
    End,
    /// A length field stands here, and fewer bytes follow it than it says.
    Truncated,
    /// A whole record stands here, which ends at `end`.
    Payload { end: usize },
}

impl View for Frame {
    type V = FrameAt;

    open spec fn view(&self) -> FrameAt {
        match *self {
            Frame::End => FrameAt::End,
            Frame::Truncated => FrameAt::Truncated,
            Frame::Payload { end } => FrameAt::Payload { end: end as int },
        }
    }
}

/// Reads the length field at position `pos` of the log `input` and finds
/// where the record ends.
pub fn read_frame(input: &[u8], pos: usize) -> (frame: Frame)
    ensures
        frame@ == frame_at(input@, pos as int),
{
    if input.len() < 4 || pos > input.len() - 4 {
        return Frame::End;
    }
    let length: u32 = from_be32(input, pos);
    let left: usize = input.len() - pos - 4;
    if length as usize > left {
        return Frame::Truncated;
    }
    Frame::Payload { end: pos + 4 + length as usize }
}

/// What stands at a position of a log.
pub ghost enum RecordAt {
    /// Fewer than four bytes are left: the log ends here.
    End,
    /// A length field stands here, and fewer bytes follow it than it says.
    Truncated,
    /// A whole record stands here, and its payload does not begin with a
    /// header.
    BadHeader,
    /// A whole record stands here: its header, and the position just behind
    /// the record.
    Record { header: HeaderView, end: int },
}

/// The record that ends at `end`, once the decoding of its payload gave
/// `header`.
pub open spec fn record_with(header: Option<HeaderView>, end: int) -> RecordAt {
    match header {
        None => RecordAt::BadHeader,
        Some(header) => RecordAt::Record { header, end },
    }
}

/// What stands at position `pos` of the log `input`.
pub open spec fn record_at(input: Seq<u8>, pos: int) -> RecordAt {
    match frame_at(input, pos) {
        FrameAt::End => RecordAt::End,
        FrameAt::Truncated => RecordAt::Truncated,
        FrameAt::Payload { end } => record_with(header_of(input.subrange(pos + 4, end)), end),
    }
}

/// What [`next_record`] found at a position of a log.
#[derive(Clone, Debug, PartialEq, Eq)]
pub enum NextRecord {
    /// Fewer than four bytes are left: the log ends here.
    End,
    /// A length field stands here, and fewer bytes follow it than it says.
    Truncated,
    /// A whole record stands here, and its payload does not begin with a
    /// header.
    BadHeader,
    /// A whole record stands here: its header, and the position just behind
    /// the record.
    Record { header: Header, end: usize },
}

impl View for NextRecord {
    type V = RecordAt;

    open spec fn view(&self) -> RecordAt {
        match *self {
            NextRecord::End => RecordAt::End,
            NextRecord::Truncated => RecordAt::Truncated,
            NextRecord::BadHeader => RecordAt::BadHeader,
            NextRecord::Record { header, end } => RecordAt::Record { header: header@, end: end as int },
        }
    }
}

/// The record that ends at `end`, once the decoding of its payload gave
/// `header`: a payload without a header makes a bad record.
pub fn record_of(header: Option<Header>, end: usize) -> (found: NextRecord)
    ensures
        found == match header {
            None => NextRecord::BadHeader,
            Some(header) => (NextRecord::Record { header, end }),
        },
        found@ == record_with(
            match header {
                None => None,
                Some(header) => Some(header@),
            },
            end as int,
        ),
{
    match header {
        None => NextRecord::BadHeader,
        Some(header) => NextRecord::Record { header, end },
    }
}

/// Reads the record that begins at position `pos` of the log `input`.
pub fn next_record(input: &[u8], pos: usize) -> (found: NextRecord)
    ensures
        found@ == record_at(input@, pos as int),
{
    match read_frame(input, pos) {
        Frame::End => NextRecord::End,
        Frame::Truncated => NextRecord::Truncated,
        Frame::Payload { end } => record_of(
            read_header(vstd::slice::slice_subrange(input, pos + 4, end)),
            end,
        ),
    }
}

/// One whole record of a log: the header its payload begins with, and the
/// positions at which the record begins and ends.
pub ghost struct LogRecord {
    pub header: HeaderView,
    pub start: int,
    pub end: int,
}

/// The records that a reader meets from position `pos` on, up to the first
/// position at which no whole record with a header stands.
pub open spec fn records_from(input: Seq<u8>, pos: int) -> Seq<LogRecord>
    decreases input.len() - pos,
{
    match record_at(input, pos) {
        RecordAt::Record { header, end } => seq![LogRecord { header, start: pos, end }]
            + records_from(input, end),
        _ => Seq::empty(),
    }
}

/// What a reader that starts at position `pos` finds where its records end:
/// the end of the log, a record cut short, or one without a header.
pub open spec fn stop_from(input: Seq<u8>, pos: int) -> RecordAt
    decreases input.len() - pos,
{
    match record_at(input, pos) {
        RecordAt::Record { header, end } => stop_from(input, end),
        other => other,
    }
}

/// The records of a log, in order.
pub open spec fn log_records(input: Seq<u8>) -> Seq<LogRecord> {
    records_from(input, 0)
}

/// What stands behind the last record of a log.
pub open spec fn log_stop(input: Seq<u8>) -> RecordAt {
    stop_from(input, 0)
}

/// A reader that has met the first `count` records of a log and stands at
/// a further one meets that one next, and the rest of the log behind it.
pub proof fn lemma_next_record(input: Seq<u8>, pos: int, count: int)
    requires
        0 <= count <= log_records(input).len(),
        records_from(input, pos) == log_records(input).skip(count),
        record_at(input, pos) is Record,
    ensures
        count < log_records(input).len(),
        log_records(input)[count] == (LogRecord {
            header: record_at(input, pos)->header,
            start: pos,
            end: record_at(input, pos)->end,
        }),
        records_from(input, record_at(input, pos)->end) == log_records(input).skip(count + 1),
        stop_from(input, record_at(input, pos)->end) == stop_from(input, pos),
{
    let records = log_records(input);
    let end = record_at(input, pos)->end;
    let record = LogRecord { header: record_at(input, pos)->header, start: pos, end };
    let rest = records_from(input, end);
    assert(records.skip(count) == seq![record] + rest);
    assert((seq![record] + rest).len() > 0);
    assert((seq![record] + rest)[0] == record);
    assert(records.skip(count)[0] == records[count]);
    assert(rest =~= records.skip(count).skip(1));
    assert(records.skip(count).skip(1) =~= records.skip(count + 1));
}

/// The visitor `f` was handed the header and the bytes of `record`, length
/// field included, and `outcome` is what it may have answered.
pub open spec fn visit_gave<F: FnMut(&Header, &[u8]) -> Result<bool, Error>>(
    f: F,
    input: Seq<u8>,
    record: LogRecord,
    outcome: Result<bool, Error>,
) -> bool {
    exists|header: Header, bytes: &[u8]|
        header@ == record.header && bytes@ == input.subrange(record.start, record.end)
            && #[trigger] call_ensures(f, (&header, bytes), outcome)
}

/// The reading failed with `e` after `k` records had been visited without
/// a call to stop: either `f` answered the next record with `e`, or no
/// further record stands there though the log goes on, and `e` is
/// [`Error::DecodeError`].
pub open spec fn visit_stopped<F: FnMut(&Header, &[u8]) -> Result<bool, Error>>(
    f: F,
    input: Seq<u8>,
    records: Seq<LogRecord>,
    k: int,
    e: Error,
) -> bool {
    &&& 0 <= k <= records.len()
    &&& forall|i: int| 0 <= i < k ==> visit_gave(f, input, #[trigger] records[i], Ok(false))
    &&& {
        ||| k < records.len() && visit_gave(f, input, records[k], Err(e))
        ||| k == records.len() && e == Error::DecodeError && !(stop_from(input, 0) is End)
    }
}

/// The reading of the log `input` with the visitor `f` ended with `r`. A
/// count `n` says that the first `n` records were visited: all but the last
/// without a call to stop, and the last either with a call to stop, or as
/// the last record of a log that ends cleanly. A failure is that of the
/// visitor at some record, or [`Error::DecodeError`] behind the last record
/// of a log that does not end cleanly.
pub open spec fn read_gave<F: FnMut(&Header, &[u8]) -> Result<bool, Error>>(
    f: F,
    input: Seq<u8>,
    r: Result<u32, Error>,
) -> bool {
    match r {
        Ok(n) => {
            &&& n <= log_records(input).len()
            &&& forall|i: int|
                0 <= i < n - 1 ==> visit_gave(f, input, #[trigger] log_records(input)[i], Ok(false))
            &&& {
                ||| n > 0 && visit_gave(f, input, log_records(input)[n - 1], Ok(true))
                ||| n == log_records(input).len() && log_stop(input) is End && (n > 0 ==> visit_gave(
                    f,
                    input,
                    log_records(input)[n - 1],
                    Ok(false),
                ))
            }
        },
        Err(e) => exists|k: int| #[trigger] visit_stopped(f, input, log_records(input), k, e),
    }
}

/// Read headers from grabbed file
///
/// Walks the records of the log `input` in order and hands each one's header
/// and bytes to `f`. Reading ends without error where fewer than four bytes
/// are left, and as soon as `f` answers `true`; the result is the number of
/// records handed to `f`. A record that is cut short or has no header ends
/// the reading with [`Error::DecodeError`], a failure of `f` with that
/// failure. The count of records has 32 bits, so the log may hold no more
/// records than that.
pub fn read_items<F: FnMut(&Header, &[u8]) -> Result<bool, Error>>(input: &[u8], f: F) -> (r:
    Result<u32, Error>)
    requires
        log_records(input@).len() <= u32::MAX,
        forall|header: &Header, bytes: &[u8]| call_requires(f, (header, bytes)),
    ensures
        read_gave(f, input@, r),
{
    let ghost records = log_records(input@);
    let mut visit = f;
    let mut count: u32 = 0;
    let mut pos: usize = 0;
    loop
        invariant
            pos <= input.len(),
            records == log_records(input@),
            records.len() <= u32::MAX,
            visit == f,
            count <= records.len(),
            records_from(input@, pos as int) == records.skip(count as int),
            stop_from(input@, pos as int) == log_stop(input@),
            forall|i: int| 0 <= i < count ==> visit_gave(f, input@, #[trigger] records[i], Ok(false)),
            forall|header: &Header, bytes: &[u8]| call_requires(f, (header, bytes)),
        decreases input.len() - pos,
    {
        match next_record(input, pos) {
            NextRecord::End => {
                assert(records.skip(count as int).len() == 0);
                return Ok(count);
            },
            NextRecord::Truncated => {
                assert(records.skip(count as int).len() == 0);
                assert(visit_stopped(f, input@, records, count as int, Error::DecodeError));
                return Err(Error::DecodeError);
            },
            NextRecord::BadHeader => {
                assert(records.skip(count as int).len() == 0);
                assert(visit_stopped(f, input@, records, count as int, Error::DecodeError));
                return Err(Error::DecodeError);
            },
            NextRecord::Record { header, end } => {
                let bytes = vstd::slice::slice_subrange(input, pos, end);
                proof {
                    lemma_next_record(input@, pos as int, count as int);
                }
                match visit(&header, bytes) {
                    Ok(stop) => {
                        assert(visit_gave(f, input@, records[count as int], Ok(stop)));
                        count = count + 1;
                        if stop {
                            return Ok(count);
                        }
                        pos = end;
                    },
                    Err(e) => {
                        assert(visit_gave(f, input@, records[count as int], Err(e)));
                        assert(visit_stopped(f, input@, records, count as int, e));
                        return Err(e);
                    },
                }
            },
        }
    }
}

/// A visitor that never calls to stop and never fails is handed every
/// record of the log: the reading gives their number where the log ends
/// cleanly, and [`Error::DecodeError`] where it ends in a record that is
/// cut short or has no header.
pub proof fn lemma_read_to_the_end<F: FnMut(&Header, &[u8]) -> Result<bool, Error>>(
    f: F,
    input: Seq<u8>,
    r: Result<u32, Error>,
)
    requires
        read_gave(f, input, r),
        forall|header: &Header, bytes: &[u8], outcome: Result<bool, Error>| #[trigger]
            call_ensures(f, (header, bytes), outcome) ==> outcome == Ok::<bool, Error>(false),
    ensures
        log_stop(input) is End ==> (r matches Ok(n) && n == log_records(input).len()),
        !(log_stop(input) is End) ==> r == Err::<u32, Error>(Error::DecodeError),
{
    match r {
        Ok(n) => {},
        Err(e) => {
            let k = choose|k: int| #[trigger] visit_stopped(f, input, log_records(input), k, e);
            assert(visit_stopped(f, input, log_records(input), k, e));
        },
    }
}

/// Reads a log as [`read_items`] does, if it is short enough for its
/// records to be counted whatever it holds: a record has four bytes at
/// least, so a log of no more than four times the largest count is. A
/// longer log is not read.
pub fn try_read_items<F: FnMut(&Header, &[u8]) -> Result<bool, Error>>(input: &[u8], f: F) -> (r:
    Option<Result<u32, Error>>)
    requires
        forall|header: &Header, bytes: &[u8]| call_requires(f, (header, bytes)),
    ensures
        r is Some <==> input.len() <= 4 * u32::MAX,
        r matches Some(read) ==> read_gave(f, input@, read),
{
    if input.len() / 4 > 0xffff_ffff || (input.len() / 4 == 0xffff_ffff && input.len() % 4 != 0) {
        return None;
    }
    proof {
        lemma_records_fit(input@, 0);
    }
    Some(read_items(input, f))
}

/// The log that holds `payloads` as its records, in order.
pub open spec fn log_of(payloads: Seq<Seq<u8>>) -> Seq<u8>
    decreases payloads.len(),
{
    if payloads.len() == 0 {
        Seq::empty()
    } else {
        framed(payloads.first()) + log_of(payloads.drop_first())
    }
}

/// The payload that a record of a log holds: the record without its length
/// field.
pub open spec fn payload_of(input: Seq<u8>, record: LogRecord) -> Seq<u8> {
    input.subrange(record.start + 4, record.end)
}

/// A framed payload is read back as it was written, wherever in a log its
/// record stands: the reader finds the record's end and the payload between
/// length field and end, and the header that the payload begins with.
pub proof fn lemma_record_round_trip(before: Seq<u8>, payload: Seq<u8>, after: Seq<u8>)
    requires
        payload.len() <= u32::MAX,
    ensures
        ({
            let input = before + framed(payload) + after;
            let pos = before.len() as int;
            let end = pos + 4 + payload.len();
            &&& input.subrange(pos + 4, end) == payload
            &&& record_at(input, pos) == match header_of(payload) {
                Some(header) => RecordAt::Record { header, end },
                None => RecordAt::BadHeader,
            }
        }),
{
    let input = before + framed(payload) + after;
    let pos = before.len() as int;
    let end = pos + 4 + payload.len();
    lemma_be32_value_of_bytes(payload.len() as u32);
    assert(input.subrange(pos, pos + 4) =~= be32(payload.len() as u32));
    assert(input.subrange(pos + 4, end) =~= payload);
}

/// The length of a log is that of its records: four bytes and the payload
/// for each.
pub proof fn lemma_log_len(payloads: Seq<Seq<u8>>)
    ensures
        log_of(payloads).len() >= 4 * payloads.len(),
        payloads.len() > 0 ==> log_of(payloads).len() == 4 + payloads.first().len() + log_of(
            payloads.drop_first(),
        ).len(),
    decreases payloads.len(),
{
    if payloads.len() > 0 {
        lemma_log_len(payloads.drop_first());
    }
}

/// A log holds no more records than a quarter of its bytes.
pub proof fn lemma_records_fit(input: Seq<u8>, pos: int)
    requires
        0 <= pos <= input.len(),
    ensures
        4 * records_from(input, pos).len() <= input.len() - pos,
    decreases input.len() - pos,
{
    match record_at(input, pos) {
        RecordAt::Record { header, end } => {
            lemma_records_fit(input, end);
        },
        _ => {},
    }
}

proof fn lemma_log_round_trip_from(before: Seq<u8>, payloads: Seq<Seq<u8>>, after: Seq<u8>)
    requires
        forall|i: int|
            0 <= i < payloads.len() ==> (#[trigger] payloads[i]).len() <= u32::MAX && header_of(
                payloads[i],
            ) is Some,
    ensures
        ({
            let input = before + log_of(payloads) + after;
            let pos = before.len() as int;
            let behind = pos + log_of(payloads).len();
            let records = records_from(input, pos);
            &&& records.len() == payloads.len() + records_from(input, behind).len()
            &&& stop_from(input, pos) == stop_from(input, behind)
            &&& forall|i: int|
                0 <= i < payloads.len() ==> payload_of(input, #[trigger] records[i]) == payloads[i]
                    && Some(records[i].header) == header_of(payloads[i])
        }),
    decreases payloads.len(),
{
    let input = before + log_of(payloads) + after;
    let pos = before.len() as int;
    if payloads.len() == 0 {
        assert(log_of(payloads).len() == 0);
    } else {
        let first = payloads.first();
        let rest = payloads.drop_first();
        let next = before + framed(first);
        let end = pos + 4 + first.len();
        assert(first == payloads[0]);
        assert forall|i: int| 0 <= i < rest.len() implies (#[trigger] rest[i]).len() <= u32::MAX
            && header_of(rest[i]) is Some by {
            assert(rest[i] == payloads[i + 1]);
        }
        lemma_log_len(payloads);
        assert(input == before + framed(first) + (log_of(rest) + after)) by {
            assert(input =~= before + framed(first) + (log_of(rest) + after));
        }
        assert(input == next + log_of(rest) + after) by {
            assert(input =~= next + log_of(rest) + after);
        }
        assert(next.len() == end);
        lemma_record_round_trip(before, first, log_of(rest) + after);
        lemma_log_round_trip_from(next, rest, after);
        let head = LogRecord { header: header_of(first)->0, start: pos, end };
        let tail = records_from(input, end);
        let records = records_from(input, pos);
        assert(record_at(input, pos) == RecordAt::Record { header: head.header, end });
        assert(records == seq![head] + tail);
        assert(stop_from(input, pos) == stop_from(input, end));
        assert(payload_of(input, head) == first);
        assert(end + log_of(rest).len() == pos + log_of(payloads).len());
        assert forall|i: int| 0 <= i < payloads.len() implies payload_of(input, #[trigger] records[i])
            == payloads[i] && Some(records[i].header) == header_of(payloads[i]) by {
            if i > 0 {
                assert(records[i] == tail[i - 1]);
                assert(payloads[i] == rest[i - 1]);
            } else {
                assert(records[0] == head);
            }
        }
    }
}

/// What is written to a log is read back from it. A log made of the records
/// of `payloads`, each of which begins with a header, holds as many records
/// as there are payloads and nothing behind them, and each record holds its
/// payload, byte for byte, and the header that the payload begins with.
pub proof fn lemma_log_round_trip(payloads: Seq<Seq<u8>>)
    requires
        forall|i: int|
            0 <= i < payloads.len() ==> (#[trigger] payloads[i]).len() <= u32::MAX && header_of(
                payloads[i],
            ) is Some,
    ensures
        log_records(log_of(payloads)).len() == payloads.len(),
        log_stop(log_of(payloads)) is End,
        forall|i: int|
            0 <= i < payloads.len() ==> payload_of(
                log_of(payloads),
                #[trigger] log_records(log_of(payloads))[i],
            ) == payloads[i] && Some(log_records(log_of(payloads))[i].header) == header_of(
                payloads[i],
            ),
{
    lemma_log_round_trip_from(Seq::empty(), payloads, Seq::empty());
    assert(Seq::<u8>::empty() + log_of(payloads) + Seq::<u8>::empty() =~= log_of(payloads));
}

/// A log that breaks off within a record is read up to that record and no
/// further. Behind the records of `payloads` stands a length field that
/// says `length`, and fewer bytes than that, `cut`: the log holds the
/// records of the payloads, each with its payload byte for byte, and ends
/// in a record cut short.
pub proof fn lemma_cut_log(payloads: Seq<Seq<u8>>, length: u32, cut: Seq<u8>)
    requires
        forall|i: int|
            0 <= i < payloads.len() ==> (#[trigger] payloads[i]).len() <= u32::MAX && header_of(
                payloads[i],
            ) is Some,
        cut.len() < length,
    ensures
        ({
            let input = log_of(payloads) + (be32(length) + cut);
            &&& log_records(input).len() == payloads.len()
            &&& log_stop(input) is Truncated
            &&& forall|i: int|
                0 <= i < payloads.len() ==> payload_of(input, #[trigger] log_records(input)[i])
                    == payloads[i] && Some(log_records(input)[i].header) == header_of(payloads[i])
        }),
{
    let after = be32(length) + cut;
    let input = log_of(payloads) + after;
    let behind = log_of(payloads).len() as int;
    lemma_log_round_trip_from(Seq::empty(), payloads, after);
    assert(Seq::<u8>::empty() + log_of(payloads) + after =~= input);
    lemma_be32_value_of_bytes(length);
    assert(input.subrange(behind, behind + 4) =~= be32(length));
    assert(frame_at(input, behind) is Truncated);
}

} // verus!
