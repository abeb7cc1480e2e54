//! Cutting a binary message out of the bytes read from the receiver, and
//! the checksum over its bytes.
use crate::message::{bin_sync, has_bin_sync_at};
use vstd::prelude::*;

verus! {

/// The line end `\r\n` that closes a binary message.
pub open spec fn line_end() -> Seq<u8> {
    seq![0x0du8, 0x0au8]
}

/// `pat` occurs in `s` at index `i`.
pub open spec fn occurs_at(s: Seq<u8>, pat: Seq<u8>, i: int) -> bool {
    0 <= i && i + pat.len() <= s.len() && s.subrange(i, i + pat.len()) == pat
}

/// `i` is the first index at which `pat` occurs in `s`.
pub open spec fn is_first_occurrence(s: Seq<u8>, pat: Seq<u8>, i: int) -> bool {
    occurs_at(s, pat, i) && forall|j: int| 0 <= j < i ==> !occurs_at(s, pat, j)
}

/// Why no message could be cut out of a buffer, or no checksum computed.
#[derive(Debug, Clone, Copy, PartialEq, Eq, Structural)]
pub enum FrameError {
    /// The buffer holds no `$BIN`.
    NoSync,
    /// The buffer holds no `\r\n`.
    NoLineEnd,
    /// The first `$BIN` comes more than two bytes after the first `\r\n`.
    SyncAfterLineEnd,
    /// The frame is shorter than five bytes.
    TooShort,
    /// The sum of the frame's bytes does not fit in 16 bits.
    ChecksumOverflow,
}

/// `s[i..i + pat.len()]` equals `pat`.
fn matches_at(s: &[u8], pat: &[u8], i: usize) -> (r: bool)
    requires
        i + pat@.len() <= s@.len(),
    ensures
        r == occurs_at(s@, pat@, i as int),
{
    let mut k: usize = 0;
    while k < pat.len()
        invariant
            k <= pat@.len(),
            i + pat.len() <= s.len(),
            forall|j: int| 0 <= j < k ==> s@[i + j] == pat@[j],
        decreases pat@.len() - k,
    {
        if s[i + k] != pat[k] {
            assert(s@.subrange(i as int, i + pat@.len())[k as int] != pat@[k as int]);
            return false;
        }
        k = k + 1;
    }
    assert(s@.subrange(i as int, i + pat@.len()) =~= pat@);
    true
}

/// The first index at which `pat` occurs in `s`, if any.
pub fn find_first(s: &[u8], pat: &[u8]) -> (r: Option<usize>)
    requires
        pat@.len() > 0,
    ensures
        r matches Some(i) ==> is_first_occurrence(s@, pat@, i as int),
        r is None ==> forall|j: int| !occurs_at(s@, pat@, j),
{
    if pat.len() > s.len() {
        return None;
    }
    let last = s.len() - pat.len();
    let mut i: usize = 0;
    while i <= last
        invariant
            last + pat@.len() == s@.len(),
            forall|j: int| 0 <= j < i ==> !occurs_at(s@, pat@, j),
        decreases last + 1 - i,
    {
        if matches_at(s, pat, i) {
            return Some(i);
        }
        if i == last {
            return None;
        }
        i = i + 1;
    }
    None
}


/// The index at which `pat` first occurs in `s`, if it occurs.
pub open spec fn first_occurrence(s: Seq<u8>, pat: Seq<u8>) -> Option<int> {
    if exists|i: int| is_first_occurrence(s, pat, i) {
        Some(choose|i: int| is_first_occurrence(s, pat, i))
    } else {
        None
    }
}

/// A first occurrence is unique, and `first_occurrence` finds it.
proof fn lemma_first_occurrence(s: Seq<u8>, pat: Seq<u8>, i: int)
    requires
        is_first_occurrence(s, pat, i),
    ensures
        first_occurrence(s, pat) == Some(i),
{
    let k = choose|k: int| is_first_occurrence(s, pat, k);
    assert(is_first_occurrence(s, pat, k));
    if k < i {
        assert(!occurs_at(s, pat, k));
    }
    if i < k {
        assert(!occurs_at(s, pat, i));
    }
}

/// Nothing is found where `pat` occurs nowhere.
proof fn lemma_no_occurrence(s: Seq<u8>, pat: Seq<u8>)
    requires
        forall|j: int| !occurs_at(s, pat, j),
    ensures
        first_occurrence(s, pat) is None,
{
}

/// The first occurrence of `pat` in `s`, as `first_occurrence` states it.
fn find_first_occurrence(s: &[u8], pat: &[u8]) -> (r: Option<usize>)
    requires
        pat@.len() > 0,
    ensures
        first_occurrence(s@, pat@) == match r {
            Some(k) => Some(k as int),
            None => None::<int>,
        },
{
    let r = find_first(s, pat);
    proof {
        match r {
            Some(i) => lemma_first_occurrence(s@, pat@, i as int),
            None => lemma_no_occurrence(s@, pat@),
        }
    }
    r
}

/// A frame that opens with a `$BIN` and closes with a `\r\n`, taken from a
/// buffer where those are the first of each, holds no other line end
/// before its last two bytes; so it is empty or starts with `$BIN` and
/// ends with `\r\n`.
proof fn lemma_frame_shape(buf: Seq<u8>, b: int, n: int)
    requires
        is_first_occurrence(buf, bin_sync(), b),
        is_first_occurrence(buf, line_end(), n),
        b <= n + 2,
    ensures
        b == n + 2 || (n >= b + 4 && has_bin_sync_at(buf.subrange(b, n + 2), 0)
            && buf.subrange(b, n + 2).subrange(n - b, n + 2 - b) == line_end()),
{
    assert(buf.subrange(b, b + 4)[0] == buf[b]);
    assert(buf.subrange(b, b + 4)[1] == buf[b + 1]);
    assert(buf.subrange(b, b + 4)[2] == buf[b + 2]);
    assert(buf.subrange(b, b + 4)[3] == buf[b + 3]);
    assert(buf.subrange(n, n + 2)[0] == buf[n]);
    assert(buf.subrange(n, n + 2)[1] == buf[n + 1]);
    assert(bin_sync()[0] == 0x24u8 && bin_sync()[1] == 0x42u8 && bin_sync()[2] == 0x49u8
        && bin_sync()[3] == 0x4eu8);
    assert(line_end()[0] == 0x0du8 && line_end()[1] == 0x0au8);
    if b != n + 2 {
        assert(n >= b + 4);
        let f = buf.subrange(b, n + 2);
        assert(f.subrange(0, 4) =~= buf.subrange(b, b + 4));
        assert(f.subrange(n - b, n + 2 - b) =~= buf.subrange(n, n + 2));
    }
}

/// Cuts the message out of the bytes read from the receiver: from the first
/// `$BIN` up to and including the first `\r\n`. Fails when either is
/// missing, or when the `$BIN` comes more than two bytes after the `\r\n`.
/// A frame that is not empty starts with `$BIN` and ends with `\r\n`.
pub fn extract_frame(buf: &[u8]) -> (r: Result<Vec<u8>, FrameError>)
    ensures
        first_occurrence(buf@, bin_sync()) is None ==> r == Err::<Vec<u8>, _>(
            FrameError::NoSync,
        ),
        first_occurrence(buf@, bin_sync()) is Some && first_occurrence(buf@, line_end()) is None
            ==> r == Err::<Vec<u8>, _>(FrameError::NoLineEnd),
        first_occurrence(buf@, bin_sync()) matches Some(b) ==> first_occurrence(
            buf@,
            line_end(),
        ) matches Some(n) ==> {
            &&& b > n + 2 ==> r == Err::<Vec<u8>, _>(FrameError::SyncAfterLineEnd)
            &&& b <= n + 2 ==> (r matches Ok(f) && f@ == buf@.subrange(b, n + 2))
        },
        r matches Ok(f) ==> f@.len() == 0 || (has_bin_sync_at(f@, 0) && f@.len() >= 6
            && f@.subrange(f@.len() - 2, f@.len() as int) == line_end()),
{
    let sync: [u8; 4] = [0x24, 0x42, 0x49, 0x4e];
    let crlf: [u8; 2] = [0x0d, 0x0a];
    assert(sync@ =~= bin_sync());
    assert(crlf@ =~= line_end());
    let bin_index = find_first_occurrence(buf, sync.as_slice());
    let newline_index = find_first_occurrence(buf, crlf.as_slice());
    let b = match bin_index {
        Some(b) => b,
        None => return Err(FrameError::NoSync),
    };
    let n = match newline_index {
        Some(n) => n,
        None => return Err(FrameError::NoLineEnd),
    };
    proof {
        let fb = first_occurrence(buf@, bin_sync());
        let fnl = first_occurrence(buf@, line_end());
        assert(is_first_occurrence(buf@, bin_sync(), fb.unwrap()));
        assert(is_first_occurrence(buf@, line_end(), fnl.unwrap()));
        assert(fb == Some(b as int));
        assert(fnl == Some(n as int));
        assert(n + 2 <= buf.len());
    }
    if b > n + 2 {
        return Err(FrameError::SyncAfterLineEnd);
    }
    proof {
        lemma_frame_shape(buf@, b as int, n as int);
    }
    let mut f: Vec<u8> = Vec::new();
    let mut i: usize = b;
    while i < n + 2
        invariant
            b <= i <= n + 2,
            n + 2 <= buf.len(),
            f@ == buf@.subrange(b as int, i as int),
        decreases n + 2 - i,
    {
        f.push(buf[i]);
        i = i + 1;
        assert(f@ =~= buf@.subrange(b as int, i as int));
    }
    Ok(f)
}


/// The sum of the bytes of `s`.
pub open spec fn byte_sum(s: Seq<u8>) -> int
    decreases s.len(),
{
    if s.len() == 0 {
        0
    } else {
        byte_sum(s.drop_last()) + s.last()
    }
}

/// The bytes of a frame that its checksum covers: all but the last four
/// (the checksum itself and the line end).
pub open spec fn checksummed(frame: Seq<u8>) -> Seq<u8> {
    frame.subrange(0, frame.len() - 4)
}

/// A sum over a longer prefix is no smaller.
proof fn lemma_byte_sum_prefix_monotone(s: Seq<u8>, i: int, j: int)
    requires
        0 <= i <= j <= s.len(),
    ensures
        byte_sum(s.subrange(0, i)) <= byte_sum(s.subrange(0, j)),
    decreases j - i,
{
    if i < j {
        assert(s.subrange(0, j).drop_last() =~= s.subrange(0, j - 1));
        lemma_byte_sum_prefix_monotone(s, i, j - 1);
    }
}

/// The checksum of a frame: the sum of all its bytes but the last four.
/// Fails on a frame shorter than five bytes, and when the sum does not fit
/// in 16 bits.
pub fn frame_checksum(frame: &[u8]) -> (r: Result<u16, FrameError>)
    ensures
        frame@.len() < 5 ==> r == Err::<u16, _>(FrameError::TooShort),
        frame@.len() >= 5 && byte_sum(checksummed(frame@)) > u16::MAX ==> r == Err::<u16, _>(
            FrameError::ChecksumOverflow,
        ),
        frame@.len() >= 5 && byte_sum(checksummed(frame@)) <= u16::MAX ==> (r matches Ok(sum)
            && sum == byte_sum(checksummed(frame@))),
{
    if frame.len() < 5 {
        return Err(FrameError::TooShort);
    }
    let end = frame.len() - 4;
    let mut sum: u16 = 0;
    let mut i: usize = 0;
    while i < end
        invariant
            i <= end,
            end + 4 == frame@.len(),
            sum == byte_sum(frame@.subrange(0, i as int)),
        decreases end - i,
    {
        assert(frame@.subrange(0, i + 1).drop_last() =~= frame@.subrange(0, i as int));
        match sum.checked_add(frame[i] as u16) {
            Some(next) => sum = next,
            None => {
                proof {
                    lemma_byte_sum_prefix_monotone(frame@, i + 1, end as int);
                }
                return Err(FrameError::ChecksumOverflow);
            },
        }
        i = i + 1;
    }
    Ok(sum)
}


/// A pattern occurs at `i` exactly when it fits there and every one of its
/// bytes equals the byte of `s` it lies on, wherever in `s` that is.
pub proof fn lemma_occurs_at_bytewise(s: Seq<u8>, pat: Seq<u8>, i: int)
    ensures
        occurs_at(s, pat, i) <==> (0 <= i && i + pat.len() <= s.len() && forall|j: int|
            0 <= j < pat.len() ==> s[i + j] == pat[j]),
{
    if 0 <= i && i + pat.len() <= s.len() {
        if forall|j: int| 0 <= j < pat.len() ==> s[i + j] == pat[j] {
            assert(s.subrange(i, i + pat.len()) =~= pat);
        }
        if occurs_at(s, pat, i) {
            assert forall|j: int| 0 <= j < pat.len() implies s[i + j] == pat[j] by {
                assert(s.subrange(i, i + pat.len())[j] == s[i + j]);
            }
        }
    }
}

/// A buffer that starts with `$BIN` and whose only `\r\n` is its last two
/// bytes is one whole frame: the sync is found at 0 and the line end at
/// `len - 2`, so the frame cut out of it is all of it.
pub proof fn lemma_whole_buffer_frame(buf: Seq<u8>)
    requires
        buf.len() >= 6,
        buf[0] == 0x24u8,
        buf[1] == 0x42u8,
        buf[2] == 0x49u8,
        buf[3] == 0x4eu8,
        buf[buf.len() - 2] == 0x0du8,
        buf[buf.len() - 1] == 0x0au8,
        forall|j: int|
            0 <= j < buf.len() - 2 ==> !(#[trigger] buf[j] == 0x0du8 && buf[j + 1] == 0x0au8),
    ensures
        first_occurrence(buf, bin_sync()) == Some(0int),
        first_occurrence(buf, line_end()) == Some(buf.len() - 2),
        buf.subrange(0, buf.len() - 2 + 2) == buf,
{
    lemma_occurs_at_bytewise(buf, bin_sync(), 0);
    lemma_first_occurrence(buf, bin_sync(), 0);
    let n = buf.len() - 2;
    lemma_occurs_at_bytewise(buf, line_end(), n);
    assert forall|j: int| 0 <= j < n implies !occurs_at(buf, line_end(), j) by {
        lemma_occurs_at_bytewise(buf, line_end(), j);
    }
    lemma_first_occurrence(buf, line_end(), n);
    assert(buf.subrange(0, buf.len() as int) =~= buf);
}

/// The sum of one byte is that byte, and of nothing is zero.
pub proof fn lemma_byte_sum_single(x: u8)
    ensures
        byte_sum(seq![x]) == x,
        byte_sum(Seq::<u8>::empty()) == 0,
{
    assert(seq![x].drop_last() =~= Seq::<u8>::empty());
    assert(byte_sum(seq![x]) == byte_sum(seq![x].drop_last()) + seq![x].last());
}

/// The sum of two byte strings laid end to end is the sum of their sums.
pub proof fn lemma_byte_sum_concat(a: Seq<u8>, b: Seq<u8>)
    ensures
        byte_sum(a + b) == byte_sum(a) + byte_sum(b),
    decreases b.len(),
{
    if b.len() == 0 {
        assert(a + b =~= a);
    } else {
        assert((a + b).drop_last() =~= a + b.drop_last());
        lemma_byte_sum_concat(a, b.drop_last());
    }
}

/// The checksum of a frame in terms of the sum of all its bytes: that sum
/// less its last four bytes (the stored checksum and the line end). So
/// every byte before the last four counts exactly once, and none after.
pub proof fn lemma_checksum_is_frame_sum_less_tail(frame: Seq<u8>)
    requires
        frame.len() >= 5,
    ensures
        byte_sum(checksummed(frame)) == byte_sum(frame) - frame[frame.len() - 4] - frame[frame.len()
            - 3] - frame[frame.len() - 2] - frame[frame.len() - 1],
{
    let n = frame.len();
    let tail = frame.subrange(n - 4, n as int);
    assert(frame =~= checksummed(frame) + tail);
    lemma_byte_sum_concat(checksummed(frame), tail);
    assert(tail.drop_last().drop_last().drop_last().drop_last() =~= Seq::<u8>::empty());
    assert(tail.drop_last().drop_last().drop_last() =~= seq![frame[n - 4]]);
    assert(byte_sum(tail) == byte_sum(tail.drop_last()) + frame[n - 1]);
    assert(byte_sum(tail.drop_last()) == byte_sum(tail.drop_last().drop_last()) + frame[n - 2]);
    assert(byte_sum(tail.drop_last().drop_last()) == byte_sum(
        tail.drop_last().drop_last().drop_last(),
    ) + frame[n - 3]);
    assert(byte_sum(tail.drop_last().drop_last().drop_last()) == byte_sum(
        tail.drop_last().drop_last().drop_last().drop_last(),
    ) + frame[n - 4]);
}

} // verus!
