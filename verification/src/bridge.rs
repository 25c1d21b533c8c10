//! Pure logic of the UART bridge tasks that sit on top of the radio:
//! big-endian word decoding of received buffers, and the per-event
//! decisions of the line reader that collects bytes until a line end,
//! a full buffer, or silence on the wire.

use vstd::prelude::*;

use crate::device::zeros;

verus! {

/// Carriage return: ends a line.
pub const CR: u8 = 13;

/// Line feed: ends a line.
pub const LF: u8 = 10;

/// Big-endian value of an eight-byte buffer.
pub open spec fn be_word(s: Seq<u8>) -> nat
    recommends
        s.len() == 8,
{
    (((((((s[0] * 256 + s[1]) * 256 + s[2]) * 256 + s[3]) * 256 + s[4]) * 256 + s[5]) * 256
        + s[6]) * 256 + s[7]) as nat
}

/// Read a `u64` out of eight big-endian bytes.
pub fn u64_from_be_bytes(bytes: &Vec<u8>) -> (r: u64)
    requires
        bytes@.len() == 8,
    ensures
        r as nat == be_word(bytes@),
{
    let mut acc: u64 = bytes[0] as u64;
    acc = acc * 256 + bytes[1] as u64;
    acc = acc * 256 + bytes[2] as u64;
    acc = acc * 256 + bytes[3] as u64;
    acc = acc * 256 + bytes[4] as u64;
    acc = acc * 256 + bytes[5] as u64;
    acc = acc * 256 + bytes[6] as u64;
    acc = acc * 256 + bytes[7] as u64;
    acc
}

/// Split the head of a 256-byte buffer into four big-endian words, one
/// per eight-byte chunk.
pub fn read_by_chunks(buf: &Vec<u8>) -> (r: Vec<u64>)
    requires
        buf@.len() == 256,
    ensures
        r@.len() == 4,
        forall|i: int|
            0 <= i < 4 ==> (#[trigger] r@[i]) as nat == be_word(buf@.subrange(i * 8, i * 8 + 8)),
{
    let mut r: Vec<u64> = Vec::new();
    let mut i: usize = 0;
    while i < 4
        invariant
            i <= 4,
            buf@.len() == 256,
            r@.len() == i,
            forall|t: int|
                0 <= t < i as int ==> (#[trigger] r@[t]) as nat == be_word(
                    buf@.subrange(t * 8, t * 8 + 8),
                ),
        decreases 4 - i,
    {
        let start = i * 8;
        let mut chunk: Vec<u8> = Vec::new();
        let mut j: usize = 0;
        while j < 8
            invariant
                j <= 8,
                i < 4,
                start == i * 8,
                buf@.len() == 256,
                chunk@ == buf@.subrange(start as int, start as int + j as int),
            decreases 8 - j,
        {
            chunk.push(buf[start + j]);
            assert(chunk@ =~= buf@.subrange(start as int, start as int + j as int + 1));
            j = j + 1;
        }
        let word = u64_from_be_bytes(&chunk);
        r.push(word);
        i = i + 1;
    }
    r
}

/// One input event of the line reader: a byte arrived, or the wait for
/// one ended in a timeout or a read error.
#[derive(Clone, Copy, Debug)]
pub enum LineEvent {
    Byte(u8),
    Silence,
}

/// One decision of the line reader.  Given the bytes collected so far
/// (`len` of them at the head of `buf`) and the next event, either store
/// the byte and continue, or stop: on silence, on a carriage return or
/// line feed, and on a full buffer (whose byte is discarded).  Returns
/// the new length and whether the line is finished.
pub fn line_step(buf: &mut Vec<u8>, len: usize, ev: LineEvent) -> (r: (usize, bool))
    requires
        len <= old(buf)@.len(),
    ensures
        final(buf)@.len() == old(buf)@.len(),
        r.0 <= final(buf)@.len(),
        ev is Silence ==> r == (len, true) && final(buf)@ == old(buf)@,
        ev matches LineEvent::Byte(b) ==> {
            &&& (b == CR || b == LF) ==> r == (len, true) && final(buf)@ == old(buf)@
            &&& !(b == CR || b == LF) && len < old(buf)@.len() ==> r == (((len + 1) as usize,
                false,
            )) && final(buf)@ == old(buf)@.update(len as int, b)
            &&& !(b == CR || b == LF) && len == old(buf)@.len() ==> r == (len, true)
                && final(buf)@ == old(buf)@
        },
{
    match ev {
        LineEvent::Byte(b) => {
            if b == CR || b == LF {
                (len, true)
            } else if len < buf.len() {
                buf[len] = b;
                (len + 1, false)
            } else {
                (len, true)
            }
        },
        LineEvent::Silence => (len, true),
    }
}

/// Zero the tail of a line buffer past the collected bytes, as the line
/// reader does once a line is finished.
pub fn pad_line(buf: &mut Vec<u8>, len: usize)
    requires
        len <= old(buf)@.len(),
    ensures
        final(buf)@ == old(buf)@.take(len as int) + zeros((old(buf)@.len() - len) as nat),
{
    let n = buf.len();
    let mut j: usize = len;
    while j < n
        invariant
            len <= j <= n,
            buf@.len() == n,
            forall|t: int| 0 <= t < len as int ==> buf@[t] == old(buf)@[t],
            forall|t: int| len as int <= t < j as int ==> buf@[t] == 0u8,
            forall|t: int| j as int <= t < n as int ==> buf@[t] == old(buf)@[t],
        decreases n - j,
    {
        buf[j] = 0;
        j = j + 1;
    }
    assert(buf@ =~= old(buf)@.take(len as int) + zeros((old(buf)@.len() - len) as nat));
}

} // verus!
