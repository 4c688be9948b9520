//! Backward scan of a mailbox file.
//!
//! Messages in a mailbox are separated by a line that begins with `From `.
//! Only the newest messages are ever of interest, so the mailbox is read from
//! its end, one buffer at a time, and matched against the separator read
//! backward. The scan is described once as a mathematical function of the
//! mailbox's bytes; the executable scanner is proved to compute it whatever
//! size the buffers have.

use super::email::Email;
use vstd::prelude::*;

verus! {

/// The size of the buffer that a mailbox is read with.
pub const BUF_SIZE: u64 = 4096;

/// The number of bytes in the separator.
pub const SEPARATOR_LEN: usize = 6;

/// The separator `"\nFrom "` with its last byte first, as a backward scan
/// meets it.
pub open spec fn separator_bytes() -> Seq<u8> {
    seq![0x20u8, 0x6du8, 0x6fu8, 0x72u8, 0x46u8, 0x0au8]
}

/// The state of the separator automaton after it saw `byte` in state `idx`:
/// one further on a match. A byte that does not match begins a new match
/// where it is the first byte that the automaton looks for, and sends the
/// automaton back to the start otherwise.
pub open spec fn advance(idx: int, byte: u8) -> int {
    if byte == separator_bytes()[idx] {
        idx + 1
    } else if byte == separator_bytes()[0] {
        1
    } else {
        0
    }
}

/// What a backward scan over a range of bytes comes to.
pub enum ScanResult {
    /// A message begins at file position `start`; the bytes from `cursor` on
    /// are consumed. The two differ by the newline that ends the message
    /// before.
    Boundary { start: int, cursor: int },
    /// The range holds no boundary; the automaton leaves it in state `idx`.
    Open { idx: int },
}

/// The backward scan of `bytes[len - 1]`, ..., `bytes[0]`, which stand at the
/// file positions `base + len - 1`, ..., `base`, by an automaton that enters
/// in state `idx`.
///
/// A boundary is met in two ways. Inside the file the whole separator has
/// to match, and the message begins behind its newline. At the first byte of
/// the file no newline can come before the separator: there it is enough
/// that the automaton matches `From `, which leaves it one byte short of the
/// whole separator, and the message begins with that first byte.
pub open spec fn scan_back(bytes: Seq<u8>, base: int, len: int, idx: int) -> ScanResult
    decreases len,
{
    if len <= 0 {
        ScanResult::Open { idx }
    } else {
        let j = len - 1;
        let p = base + j;
        if bytes[j] == separator_bytes()[idx] && idx == SEPARATOR_LEN - 1 {
            ScanResult::Boundary { start: p + 1, cursor: p }
        } else if bytes[j] == separator_bytes()[idx] && idx == SEPARATOR_LEN - 2 && p == 0 {
            ScanResult::Boundary { start: p, cursor: p }
        } else {
            scan_back(bytes, base, j, advance(idx, bytes[j]))
        }
    }
}

/// The boundary that a fresh scan meets first when the bytes of `file` before
/// `bytes_left` are still unscanned.
pub open spec fn next_boundary(file: Seq<u8>, bytes_left: int) -> ScanResult {
    scan_back(file, 0, bytes_left, 0)
}

/// The next message, going backward, and the cursor behind it: `None` when
/// the unscanned part of the file holds no further message.
pub open spec fn next_mail(file: Seq<u8>, bytes_left: int) -> Option<(Seq<u8>, int)> {
    match next_boundary(file, bytes_left) {
        ScanResult::Boundary { start, cursor } => Some((file.subrange(start, bytes_left), cursor)),
        ScanResult::Open { .. } => None,
    }
}

/// Where a backward scan stands.
pub struct ParsingState {
    /// How many bytes, counted from the beginning of the file, are still
    /// unscanned.
    pub bytes_left: u64,
    /// How many bytes of the separator the automaton has matched.
    pub separator_idx: usize,
    /// The bytes of the message under way, last byte first.
    pub email_contents: Vec<u8>,
}

impl ParsingState {
    /// The automaton is in one of its states.
    pub open spec fn wf(&self) -> bool {
        self.separator_idx < SEPARATOR_LEN
    }

    /// The bytes of the message under way, in the order of the file.
    pub open spec fn pending(&self) -> Seq<u8> {
        self.email_contents@.reverse()
    }

    /// The state before anything is scanned of a file of `file_len` bytes.
    pub fn new(file_len: u64) -> (r: ParsingState)
        ensures
            r.wf(),
            r.bytes_left == file_len,
            r.separator_idx == 0,
            r.email_contents@ == Seq::<u8>::empty(),
    {
        ParsingState { bytes_left: file_len, separator_idx: 0, email_contents: Vec::new() }
    }

    /// Sets out for the next message: the automaton goes back to its first
    /// state, no message is under way, and the cursor stays.
    pub fn begin_mail(&mut self)
        ensures
            final(self).bytes_left == old(self).bytes_left,
            final(self).separator_idx == 0,
            final(self).email_contents@ == Seq::<u8>::empty(),
    {
        self.separator_idx = 0;
        self.email_contents = Vec::new();
    }
}

/// The byte of the reversed separator at `idx`.
pub fn separator_byte(idx: usize) -> (b: u8)
    requires
        idx < SEPARATOR_LEN,
    ensures
        b == separator_bytes()[idx as int],
{
    if idx == 0 {
        0x20
    } else if idx == 1 {
        0x6d
    } else if idx == 2 {
        0x6f
    } else if idx == 3 {
        0x72
    } else if idx == 4 {
        0x46
    } else {
        0x0a
    }
}

/// The automaton never leaves its states, and a boundary lies inside the
/// range that was scanned: the cursor is below the end of the range, the
/// message begins at the cursor or one byte above it, and in the second case
/// the byte at the cursor is the newline of the separator.
pub proof fn lemma_scan_back_bounds(bytes: Seq<u8>, base: int, len: int, idx: int)
    requires
        0 <= idx < SEPARATOR_LEN,
        0 <= base,
        0 <= len <= bytes.len(),
    ensures
        match scan_back(bytes, base, len, idx) {
            ScanResult::Boundary { start, cursor } => {
                &&& base <= cursor < base + len
                &&& cursor <= start <= cursor + 1
                &&& start == cursor ==> cursor == 0 && bytes[cursor - base] == 0x46u8
                &&& start == cursor + 1 ==> bytes[cursor - base] == 0x0au8
            },
            ScanResult::Open { idx: out } => 0 <= out < SEPARATOR_LEN,
        },
    decreases len,
{
    if len > 0 {
        let j = len - 1;
        if bytes[j] == separator_bytes()[idx] && idx == SEPARATOR_LEN - 1 {
        } else if bytes[j] == separator_bytes()[idx] && idx == SEPARATOR_LEN - 2 && base + j == 0 {
        } else {
            lemma_scan_back_bounds(bytes, base, j, advance(idx, bytes[j]));
        }
    }
}

/// A scan may be cut in two at any position `mid`: the scan of the upper
/// part, read as a buffer of its own, and then, where that part holds no
/// boundary, the scan of the lower part in the state that the upper part left
/// the automaton in. So the result does not depend on the size of the
/// buffers that a file is read with.
pub proof fn lemma_scan_back_split(file: Seq<u8>, mid: int, hi: int, idx: int)
    requires
        0 <= mid <= hi <= file.len(),
    ensures
        scan_back(file, 0, hi, idx) == match scan_back(
            file.subrange(mid, hi),
            mid,
            hi - mid,
            idx,
        ) {
            ScanResult::Boundary { start, cursor } => ScanResult::Boundary { start, cursor },
            ScanResult::Open { idx: out } => scan_back(file, 0, mid, out),
        },
    decreases hi - mid,
{
    let chunk = file.subrange(mid, hi);
    if hi > mid {
        let j = hi - mid - 1;
        assert(chunk[j] == file[hi - 1]);
        if file[hi - 1] == separator_bytes()[idx] && idx == SEPARATOR_LEN - 1 {
        } else if file[hi - 1] == separator_bytes()[idx] && idx == SEPARATOR_LEN - 2 && hi - 1
            == 0 {
        } else {
            let next = advance(idx, file[hi - 1]);
            lemma_scan_back_split(file, mid, hi - 1, next);
            lemma_scan_back_prefix(chunk, file.subrange(mid, hi - 1), mid, j, next);
        }
    }
}

/// Every scan consumes something, and what it returns lies at or above the
/// new cursor. A later scan reads below that cursor only: it ends where the
/// earlier message was found to begin, or lower, so a message that was
/// returned once is never returned again.
pub proof fn law_consumed_mail_is_not_returned_again(file: Seq<u8>, bytes_left: int)
    requires
        0 <= bytes_left <= file.len(),
    ensures
        match next_boundary(file, bytes_left) {
            ScanResult::Boundary { start, cursor } => {
                &&& 0 <= cursor < bytes_left
                &&& cursor <= start <= bytes_left
                &&& match next_boundary(file, cursor) {
                    ScanResult::Boundary { start: older_start, cursor: older_cursor } => {
                        &&& older_cursor < cursor
                        &&& older_cursor <= older_start <= cursor
                    },
                    ScanResult::Open { .. } => true,
                }
            },
            ScanResult::Open { .. } => true,
        },
{
    lemma_scan_back_bounds(file, 0, bytes_left, 0);
    if let ScanResult::Boundary { start, cursor } = next_boundary(file, bytes_left) {
        lemma_scan_back_bounds(file, 0, cursor, 0);
    }
}

/// Two messages that a scan returns one after the other lie side by side in
/// the file, parted by the one newline that the separator begins with.
/// Joined by that newline they are, byte for byte, the content of the file
/// from where the older message begins up to the cursor that the scan set out
/// from.
pub proof fn law_recovered_mails_rebuild_the_file(file: Seq<u8>, bytes_left: int)
    requires
        0 <= bytes_left <= file.len(),
        next_boundary(file, bytes_left) is Boundary,
        next_boundary(file, next_boundary(file, bytes_left)->cursor) is Boundary,
    ensures
        ({
            let cursor = next_boundary(file, bytes_left)->cursor;
            let newer = next_mail(file, bytes_left).unwrap();
            let older = next_mail(file, cursor).unwrap();
            let older_start = next_boundary(file, cursor)->start;
            &&& newer.1 == cursor
            &&& older.0 + seq![0x0au8] + newer.0 == file.subrange(older_start, bytes_left)
        }),
{
    lemma_scan_back_bounds(file, 0, bytes_left, 0);
    let cursor = next_boundary(file, bytes_left)->cursor;
    lemma_scan_back_bounds(file, 0, cursor, 0);
    let newer = next_mail(file, bytes_left).unwrap();
    let older = next_mail(file, cursor).unwrap();
    let older_start = next_boundary(file, cursor)->start;
    assert(older.0 + seq![0x0au8] + newer.0 =~= file.subrange(older_start, bytes_left));
}

/// Whether the last `k` bytes of the separator `"\nFrom "` stand in `file`
/// from the position `at` on.
pub open spec fn tail_stands_at(file: Seq<u8>, at: int, k: int) -> bool {
    &&& k >= 1 ==> file[at + k - 1] == 0x20u8
    &&& k >= 2 ==> file[at + k - 2] == 0x6du8
    &&& k >= 3 ==> file[at + k - 3] == 0x6fu8
    &&& k >= 4 ==> file[at + k - 4] == 0x72u8
    &&& k >= 5 ==> file[at + k - 5] == 0x46u8
    &&& k >= 6 ==> file[at + k - 6] == 0x0au8
}

/// Whether the separator `"\nFrom "` stands in `file` at the position `at`,
/// wholly below the cursor `bytes_left`.
pub open spec fn separator_stands_at(file: Seq<u8>, at: int, bytes_left: int) -> bool {
    0 <= at && at + SEPARATOR_LEN <= bytes_left && tail_stands_at(file, at, SEPARATOR_LEN as int)
}

/// Whether `file` begins with `"From "`, wholly below the cursor
/// `bytes_left`.
pub open spec fn begins_with_from(file: Seq<u8>, bytes_left: int) -> bool {
    SEPARATOR_LEN - 1 <= bytes_left && tail_stands_at(file, 0, SEPARATOR_LEN - 1)
}

/// Whether no separator stands in `file` at `from` or above it, wholly below
/// the cursor `bytes_left`.
pub open spec fn no_separator_from(file: Seq<u8>, from: int, bytes_left: int) -> bool {
    forall|q: int| from <= q ==> !#[trigger] separator_stands_at(file, q, bytes_left)
}

/// Whether the unscanned part of `file`, below the cursor `bytes_left`, holds
/// a message: a separator stands in it, or it begins with `"From "`.
pub open spec fn holds_mail(file: Seq<u8>, bytes_left: int) -> bool {
    !no_separator_from(file, 0, bytes_left) || begins_with_from(file, bytes_left)
}

/// What the automaton knows in the state `idx` when the bytes of `file` from
/// `len` up to the cursor `bytes_left` are scanned: the bytes just above
/// `len` are the last `idx` bytes of the separator and no more of it, and no
/// whole separator stands at `len` or above.
pub open spec fn scan_knows(file: Seq<u8>, bytes_left: int, len: int, idx: int) -> bool {
    &&& 0 <= len <= bytes_left <= file.len()
    &&& 0 <= idx < SEPARATOR_LEN
    &&& len + idx <= bytes_left
    &&& tail_stands_at(file, len, idx)
    &&& len + 1 <= bytes_left && tail_stands_at(file, len, 1) ==> idx == 1
    &&& len + 2 <= bytes_left && tail_stands_at(file, len, 2) ==> idx == 2
    &&& len + 3 <= bytes_left && tail_stands_at(file, len, 3) ==> idx == 3
    &&& len + 4 <= bytes_left && tail_stands_at(file, len, 4) ==> idx == 4
    &&& len + 5 <= bytes_left && tail_stands_at(file, len, 5) ==> idx == 5
    &&& no_separator_from(file, len, bytes_left)
    &&& len == 0 ==> !begins_with_from(file, bytes_left)
}

/// What a scan comes to is the separator nearest to the cursor. A boundary
/// inside the file is a place where the separator stands, and no separator
/// stands above it; a boundary at the first byte is there because the file
/// begins with `"From "`, and no separator stands in the file; and where
/// the scan finds no boundary, no separator stands in the file and the file
/// does not begin with `"From "`.
pub open spec fn is_nearest_boundary(file: Seq<u8>, bytes_left: int, found: ScanResult) -> bool {
    match found {
        ScanResult::Boundary { start, cursor } => if start == cursor + 1 {
            separator_stands_at(file, cursor, bytes_left) && no_separator_from(
                file,
                cursor + 1,
                bytes_left,
            )
        } else {
            start == 0 && cursor == 0 && begins_with_from(file, bytes_left) && no_separator_from(
                file,
                0,
                bytes_left,
            )
        },
        ScanResult::Open { .. } => !holds_mail(file, bytes_left),
    }
}

/// The automaton misses no separator: from what it knows in a state, the
/// scan comes to the separator nearest to the cursor.
pub proof fn lemma_scan_finds_nearest(file: Seq<u8>, bytes_left: int, len: int, idx: int)
    requires
        scan_knows(file, bytes_left, len, idx),
    ensures
        is_nearest_boundary(file, bytes_left, scan_back(file, 0, len, idx)),
    decreases len,
{
    if len > 0 {
        let j = len - 1;
        let byte = file[j];
        if byte == separator_bytes()[idx] && idx == SEPARATOR_LEN - 1 {
            assert(tail_stands_at(file, j, 6));
            assert(separator_stands_at(file, j, bytes_left));
        } else if byte == separator_bytes()[idx] && idx == SEPARATOR_LEN - 2 && j == 0 {
            assert(tail_stands_at(file, 0, 5));
            assert forall|q: int| 0 <= q implies !#[trigger] separator_stands_at(
                file,
                q,
                bytes_left,
            ) by {
                if q >= 1 {
                    assert(!separator_stands_at(file, q, bytes_left));
                }
            }
        } else {
            let next = advance(idx, byte);
            assert(tail_stands_at(file, j, next));
            assert(j + 1 <= bytes_left && tail_stands_at(file, j, 1) ==> next == 1);
            assert(j + 2 <= bytes_left && tail_stands_at(file, j, 2) ==> next == 2) by {
                if j + 2 <= bytes_left && tail_stands_at(file, j, 2) {
                    assert(tail_stands_at(file, len, 1));
                }
            }
            assert(j + 3 <= bytes_left && tail_stands_at(file, j, 3) ==> next == 3) by {
                if j + 3 <= bytes_left && tail_stands_at(file, j, 3) {
                    assert(tail_stands_at(file, len, 2));
                }
            }
            assert(j + 4 <= bytes_left && tail_stands_at(file, j, 4) ==> next == 4) by {
                if j + 4 <= bytes_left && tail_stands_at(file, j, 4) {
                    assert(tail_stands_at(file, len, 3));
                }
            }
            assert(j + 5 <= bytes_left && tail_stands_at(file, j, 5) ==> next == 5) by {
                if j + 5 <= bytes_left && tail_stands_at(file, j, 5) {
                    assert(tail_stands_at(file, len, 4));
                }
            }
            assert forall|q: int| j <= q implies !#[trigger] separator_stands_at(
                file,
                q,
                bytes_left,
            ) by {
                if q == j && separator_stands_at(file, q, bytes_left) {
                    assert(tail_stands_at(file, len, 5));
                } else if q > j {
                    assert(!separator_stands_at(file, q, bytes_left));
                }
            }
            if j == 0 && begins_with_from(file, bytes_left) {
                assert(tail_stands_at(file, len, 4));
            }
            lemma_scan_finds_nearest(file, bytes_left, j, next);
        }
    }
}

/// A scan that sets out afresh at the cursor `bytes_left` comes to the
/// separator nearest to the cursor. So a message that is returned holds no
/// separator, and there is no message exactly where the unscanned part of the
/// file holds no separator and does not begin with `"From "`.
pub proof fn law_boundary_is_nearest_separator(file: Seq<u8>, bytes_left: int)
    requires
        0 <= bytes_left <= file.len(),
    ensures
        is_nearest_boundary(file, bytes_left, next_boundary(file, bytes_left)),
        next_mail(file, bytes_left) is Some <==> holds_mail(file, bytes_left),
{
    assert(scan_knows(file, bytes_left, bytes_left, 0));
    lemma_scan_finds_nearest(file, bytes_left, bytes_left, 0);
    match next_boundary(file, bytes_left) {
        ScanResult::Boundary { start, cursor } => {
            if start == cursor + 1 {
                assert(separator_stands_at(file, cursor, bytes_left));
            }
        },
        ScanResult::Open { .. } => {},
    }
}

/// A scan reads only the bytes below `len`.
pub proof fn lemma_scan_back_prefix(a: Seq<u8>, b: Seq<u8>, base: int, len: int, idx: int)
    requires
        0 <= len <= a.len(),
        len <= b.len(),
        forall|i: int| 0 <= i < len ==> a[i] == b[i],
    ensures
        scan_back(a, base, len, idx) == scan_back(b, base, len, idx),
    decreases len,
{
    if len > 0 {
        let j = len - 1;
        lemma_scan_back_prefix(a, b, base, j, advance(idx, a[j]));
    }
}

/// Reversing puts the part that was added last in front.
pub proof fn lemma_reverse_add(a: Seq<u8>, b: Seq<u8>)
    ensures
        (a + b).reverse() == b.reverse() + a.reverse(),
{
    assert((a + b).reverse() =~= b.reverse() + a.reverse());
}

/// The first `taken` bytes of a reversed buffer are the last `taken` bytes of
/// the buffer.
pub proof fn lemma_reverse_front(rev: Seq<u8>, taken: int)
    requires
        0 <= taken <= rev.len(),
    ensures
        rev.subrange(0, taken).reverse() == rev.reverse().subrange(
            rev.len() - taken,
            rev.len() as int,
        ),
{
    assert(rev.subrange(0, taken).reverse() =~= rev.reverse().subrange(
        rev.len() - taken,
        rev.len() as int,
    ));
}

/// The bytes of `bytes` in the opposite order.
pub fn reversed(bytes: &[u8]) -> (r: Vec<u8>)
    ensures
        r@ == bytes@.reverse(),
{
    let n = bytes.len();
    let mut r: Vec<u8> = Vec::with_capacity(n);
    let mut i: usize = n;
    while i > 0
        invariant
            n == bytes.len(),
            i <= n,
            r@.len() == n - i,
            forall|k: int| 0 <= k < r@.len() ==> r@[k] == bytes@[n - 1 - k],
        decreases i,
    {
        i = i - 1;
        r.push(bytes[i]);
    }
    assert(r@ =~= bytes@.reverse());
    r
}

/// How many bytes one read takes with a buffer of `buf_len` bytes when
/// `bytes_left` bytes are unscanned: a whole buffer while more than that is
/// left, else what is left.
pub open spec fn spec_chunk_len(buf_len: int, bytes_left: int) -> int {
    if bytes_left > buf_len {
        buf_len
    } else {
        bytes_left
    }
}

impl Email {
    /// How many bytes the next read takes.
    pub fn chunk_len(buf_len: usize, parsing_state: &ParsingState) -> (n: usize)
        ensures
            n == spec_chunk_len(buf_len as int, parsing_state.bytes_left as int),
    {
        if parsing_state.bytes_left > buf_len as u64 {
            buf_len
        } else {
            parsing_state.bytes_left as usize
        }
    }

    /// Whether nothing is left to read: the cursor stands at the beginning
    /// of the file, or there is no buffer to read with. The scan is then
    /// over: the cursor is set to 0 and no message is under way. Otherwise
    /// nothing changes.
    pub fn end_of_mailbox(buf_len: usize, parsing_state: &mut ParsingState) -> (r: bool)
        ensures
            r == (spec_chunk_len(buf_len as int, old(parsing_state).bytes_left as int) == 0),
            r ==> final(parsing_state).bytes_left == 0 && final(parsing_state).separator_idx == 0
                && final(parsing_state).email_contents@ == Seq::<u8>::empty(),
            !r ==> *final(parsing_state) == *old(parsing_state),
    {
        if Self::chunk_len(buf_len, parsing_state) == 0 {
            parsing_state.bytes_left = 0;
            parsing_state.begin_mail();
            true
        } else {
            false
        }
    }

    /// Reads the bytes just below the cursor into the front of `buf`, last
    /// byte first, and returns how many they are. The cursor stays.
    pub fn read_into_buffer(mbox: &[u8], buf: &mut Vec<u8>, parsing_state: &ParsingState) -> (n:
        usize)
        requires
            parsing_state.bytes_left <= mbox@.len(),
        ensures
            n == spec_chunk_len(old(buf)@.len() as int, parsing_state.bytes_left as int),
            final(buf)@.len() == old(buf)@.len(),
            final(buf)@.subrange(0, n as int) == mbox@.subrange(
                parsing_state.bytes_left - n,
                parsing_state.bytes_left as int,
            ).reverse(),
    {
        let n = Self::chunk_len(buf.len(), parsing_state);
        assert(parsing_state.bytes_left <= mbox.len() <= usize::MAX);
        let end = parsing_state.bytes_left as usize;
        let mut i: usize = 0;
        while i < n
            invariant
                i <= n <= end <= mbox@.len(),
                n <= buf@.len(),
                buf@.len() == old(buf)@.len(),
                forall|k: int| 0 <= k < i ==> buf@[k] == mbox@[end - 1 - k],
            decreases n - i,
        {
            buf.set(i, mbox[end - 1 - i]);
            i = i + 1;
        }
        assert(buf@.subrange(0, n as int) =~= mbox@.subrange(end - n, end as int).reverse());
        n
    }

    /// Runs the separator automaton over one buffer, which holds the bytes
    /// just below the cursor with the last byte first.
    ///
    /// Where the buffer holds a boundary, the message is complete: it is
    /// returned in the order of the file, the cursor moves to the boundary
    /// and the automaton starts afresh. Otherwise the buffer is added to the
    /// message under way and the cursor moves below it.
    pub fn scan_buffer(cur_buf: &[u8], parsing_state: &mut ParsingState) -> (r: Option<Vec<u8>>)
        requires
            old(parsing_state).wf(),
            cur_buf@.len() <= old(parsing_state).bytes_left,
        ensures
            final(parsing_state).wf(),
            ({
                let chunk = cur_buf@.reverse();
                let base = old(parsing_state).bytes_left - cur_buf@.len();
                match scan_back(chunk, base, chunk.len() as int, old(parsing_state).separator_idx as int) {
                    ScanResult::Boundary { start, cursor } => {
                        &&& r matches Some(mail)
                        &&& mail@ == chunk.subrange(start - base, chunk.len() as int) + old(
                            parsing_state,
                        ).pending()
                        &&& final(parsing_state).bytes_left == cursor
                        &&& final(parsing_state).separator_idx == 0
                        &&& final(parsing_state).email_contents@ == Seq::<u8>::empty()
                    },
                    ScanResult::Open { idx } => {
                        &&& r is None
                        &&& final(parsing_state).bytes_left == base
                        &&& final(parsing_state).separator_idx == idx
                        &&& final(parsing_state).pending() == chunk + old(parsing_state).pending()
                    },
                }
            }),
    {
        let n = cur_buf.len();
        let ghost chunk = cur_buf@.reverse();
        let ghost base = parsing_state.bytes_left - n;
        let ghost whole = scan_back(chunk, base, n as int, parsing_state.separator_idx as int);
        let mut i: usize = 0;
        while i < n
            invariant
                n == cur_buf@.len(),
                i <= n <= parsing_state.bytes_left,
                chunk == cur_buf@.reverse(),
                base == parsing_state.bytes_left - n,
                parsing_state.wf(),
                parsing_state.bytes_left == old(parsing_state).bytes_left,
                parsing_state.email_contents@ == old(parsing_state).email_contents@,
                whole == scan_back(chunk, base, n as int, old(parsing_state).separator_idx as int),
                whole == scan_back(chunk, base, n - i, parsing_state.separator_idx as int),
            decreases n - i,
        {
            let cur = cur_buf[i];
            let idx = parsing_state.separator_idx;
            let byte_matches = cur == separator_byte(idx);
            assert(chunk[n - i - 1] == cur);
            let mut matches = false;
            let mut taken: usize = 0;
            if byte_matches && idx == SEPARATOR_LEN - 1 {
                // a boundary inside the file: the newline is left out
                matches = true;
                taken = i;
            } else if byte_matches && idx == SEPARATOR_LEN - 2 && parsing_state.bytes_left - (i as u64
                + 1) == 0 {
                // `From ` at the first byte of the file: no newline comes
                // before it, and the byte itself belongs to the message
                matches = true;
                taken = i + 1;
            }
            if matches {
                assert(whole == ScanResult::Boundary {
                    start: base + n - taken,
                    cursor: base + n - i - 1,
                });
                let mut contents: Vec<u8> = Vec::new();
                core::mem::swap(&mut contents, &mut parsing_state.email_contents);
                contents.extend_from_slice(&cur_buf[0..taken]);
                let mail = reversed(contents.as_slice());
                parsing_state.bytes_left = parsing_state.bytes_left - (i as u64 + 1);
                parsing_state.separator_idx = 0;
                proof {
                    let front = cur_buf@.subrange(0, taken as int);
                    lemma_reverse_add(old(parsing_state).email_contents@, front);
                    lemma_reverse_front(cur_buf@, taken as int);
                }
                return Some(mail);
            }
            assert(whole == scan_back(chunk, base, n - i - 1, advance(idx as int, cur)));
            if byte_matches {
                parsing_state.separator_idx = idx + 1;
            } else if cur == separator_byte(0) {
                parsing_state.separator_idx = 1;
            } else {
                parsing_state.separator_idx = 0;
            }
            i = i + 1;
        }
        parsing_state.email_contents.extend_from_slice(cur_buf);
        parsing_state.bytes_left = parsing_state.bytes_left - n as u64;
        proof {
            lemma_reverse_add(old(parsing_state).email_contents@, cur_buf@);
        }
        None
    }

    /// The next message of the mailbox `mbox`, going backward from the
    /// cursor, read one buffer of `buf` at a time.
    ///
    /// The message is the content of the file from the boundary up to the
    /// old cursor, byte for byte, and the cursor moves to the boundary, so
    /// that the next call goes on below this message. When the beginning of
    /// the file is reached without a boundary there is no further message:
    /// the result is `None` and the cursor is 0.
    ///
    /// The boundary is the separator nearest to the cursor, or the beginning
    /// of a file that begins with `From `. So there is a message exactly
    /// where a separator stands in the unscanned part of the file or the file
    /// begins with `From `, and a message holds no separator.
    pub fn read_next_mail(mbox: &[u8], buf: &mut Vec<u8>, parsing_state: &mut ParsingState) -> (r:
        Option<Vec<u8>>)
        requires
            old(buf)@.len() > 0,
            old(parsing_state).bytes_left <= mbox@.len(),
        ensures
            final(buf)@.len() == old(buf)@.len(),
            final(parsing_state).wf(),
            final(parsing_state).separator_idx == 0,
            final(parsing_state).email_contents@ == Seq::<u8>::empty(),
            match next_mail(mbox@, old(parsing_state).bytes_left as int) {
                Some((mail, cursor)) => {
                    &&& r matches Some(found)
                    &&& found@ == mail
                    &&& final(parsing_state).bytes_left == cursor
                },
                None => r is None && final(parsing_state).bytes_left == 0,
            },
            r is Some <==> holds_mail(mbox@, old(parsing_state).bytes_left as int),
            is_nearest_boundary(
                mbox@,
                old(parsing_state).bytes_left as int,
                next_boundary(mbox@, old(parsing_state).bytes_left as int),
            ),
    {
        parsing_state.begin_mail();
        let ghost top = parsing_state.bytes_left as int;
        proof {
            law_boundary_is_nearest_separator(mbox@, top);
        }
        loop
            invariant
                buf@.len() == old(buf)@.len(),
                buf@.len() > 0,
                top == old(parsing_state).bytes_left,
                parsing_state.bytes_left <= top <= mbox@.len(),
                parsing_state.wf(),
                parsing_state.pending() == mbox@.subrange(parsing_state.bytes_left as int, top),
                is_nearest_boundary(mbox@, top, next_boundary(mbox@, top)),
                next_mail(mbox@, top) is Some <==> holds_mail(mbox@, top),
                next_boundary(mbox@, top) == scan_back(
                    mbox@,
                    0,
                    parsing_state.bytes_left as int,
                    parsing_state.separator_idx as int,
                ),
            decreases parsing_state.bytes_left,
        {
            if Self::end_of_mailbox(buf.len(), parsing_state) {
                return None;
            }
            let n = Self::read_into_buffer(mbox, buf, parsing_state);
            let ghost left = parsing_state.bytes_left as int;
            let ghost idx = parsing_state.separator_idx as int;
            let ghost chunk = mbox@.subrange(left - n, left);
            proof {
                lemma_scan_back_split(mbox@, left - n, left, idx);
                lemma_scan_back_bounds(chunk, left - n, n as int, idx);
                assert(buf@.subrange(0, n as int).reverse() =~= chunk);
            }
            let found = Self::scan_buffer(&buf[0..n], parsing_state);
            match found {
                Some(mail) => {
                    assert(mail@ =~= mbox@.subrange(
                        next_boundary(mbox@, top)->start,
                        top,
                    ));
                    return Some(mail);
                },
                None => {
                    assert(parsing_state.pending() =~= mbox@.subrange(
                        parsing_state.bytes_left as int,
                        top,
                    ));
                },
            }
        }
    }
}

} // verus!
