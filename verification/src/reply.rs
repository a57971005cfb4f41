//! The replies of the protocol and the values of the range commands.

use crate::texts::{failed_line, failed_line_bytes};
use crate::wire::{
    append_bytes, copy_range, decimal, push_decimal, views, CR, DOLLAR, LF, PLUS, STAR,
};
use vstd::prelude::*;

verus! {

/// A line break.
pub open spec fn crlf() -> Seq<u8> {
    seq![CR, LF]
}

/// The status reply that carries `text`: `+`, the text and a line break.
pub open spec fn status_reply(text: Seq<u8>) -> Seq<u8> {
    seq![PLUS] + text + crlf()
}

/// One value of an array reply: `$`, its length in bytes, a line break, the
/// value and a line break.
pub open spec fn bulk(value: Seq<u8>) -> Seq<u8> {
    seq![DOLLAR] + decimal(value.len()) + crlf() + value + crlf()
}

/// The values of an array reply, one after the other.
pub open spec fn bulks(values: Seq<Seq<u8>>) -> Seq<u8>
    decreases values.len(),
{
    if values.len() == 0 {
        seq![]
    } else {
        bulks(values.drop_last()) + bulk(values.last())
    }
}

/// The array reply for `values`: `*`, their number, a line break and each
/// value in order.
pub open spec fn multi_reply(values: Seq<Seq<u8>>) -> Seq<u8> {
    seq![STAR] + decimal(values.len()) + crlf() + bulks(values)
}

/// The reply to a range read of `value` between `start` and `end`, where a
/// negative bound counts from the end of the value. The bytes from the
/// start bound up to, not including, the end bound are returned; an end
/// bound at or past the length stands for the last byte.
pub open spec fn range_reply(value: Seq<u8>, start: int, end: int) -> Seq<u8> {
    let len = value.len() as int;
    let from = if start < 0 {
        len + start
    } else {
        start
    };
    let to = if end < 0 {
        len + end
    } else {
        end
    };
    if from > to {
        failed_line()
    } else if from >= len {
        status_reply(seq![])
    } else if from < 0 {
        failed_line()
    } else if to >= len {
        status_reply(value.subrange(from, len - 1))
    } else {
        status_reply(value.subrange(from, to))
    }
}

/// `n` zero bytes.
pub open spec fn zeros(n: nat) -> Seq<u8> {
    Seq::new(n, |i: int| 0u8)
}

/// `old` after `data` is written at `off`: behind a padding of zero bytes
/// where `off` lies at or past the end, in place of the tail where the data
/// reaches the end, and over the bytes `off..off + data.len()` otherwise.
pub open spec fn range_write(old: Seq<u8>, off: nat, data: Seq<u8>) -> Seq<u8> {
    let len = old.len();
    if off >= len {
        old + zeros((off - len) as nat) + data
    } else if off + data.len() >= len {
        old.subrange(0, off as int) + data
    } else {
        old.subrange(0, off as int) + data + old.subrange((off + data.len()) as int, len as int)
    }
}

/// A range write leaves a value that ends where the longer of the old
/// value and the written data ends, and that holds the data at the offset.
pub proof fn lemma_range_write(old: Seq<u8>, off: nat, data: Seq<u8>)
    ensures
        range_write(old, off, data).len() == if off + data.len() >= old.len() {
            off + data.len()
        } else {
            old.len()
        },
        range_write(old, off, data).subrange(off as int, (off + data.len()) as int) == data,
        forall|i: int|
            0 <= i < off && i < old.len() ==> range_write(old, off, data)[i] == old[i],
        forall|i: int| old.len() <= i < off ==> range_write(old, off, data)[i] == 0,
{
}

/// Builds the status reply that carries `text`.
pub fn status(text: &[u8]) -> (reply: Vec<u8>)
    ensures
        reply@ == status_reply(text@),
{
    let mut reply: Vec<u8> = Vec::new();
    reply.push(PLUS);
    append_bytes(&mut reply, text);
    reply.push(CR);
    reply.push(LF);
    reply
}

/// Builds the status reply that carries the number `n`.
pub fn number(n: usize) -> (reply: Vec<u8>)
    ensures
        reply@ == status_reply(decimal(n as nat)),
{
    let mut reply: Vec<u8> = Vec::new();
    reply.push(PLUS);
    push_decimal(&mut reply, n as u64);
    reply.push(CR);
    reply.push(LF);
    reply
}

/// Builds the reply to a range read of `value`.
pub fn slice_reply(value: &Vec<u8>, start: i32, end: i32) -> (reply: Vec<u8>)
    ensures
        reply@ == range_reply(value@, start as int, end as int),
{
    let len: i128 = value.len() as i128;
    let from: i128 = if start < 0 {
        len + start as i128
    } else {
        start as i128
    };
    let to: i128 = if end < 0 {
        len + end as i128
    } else {
        end as i128
    };
    if from > to {
        return failed_line_bytes();
    }
    if from >= len {
        let reply = status(Vec::new().as_slice());
        return reply;
    }
    if from < 0 {
        return failed_line_bytes();
    }
    let last: i128 = if to >= len {
        len - 1
    } else {
        to
    };
    let part = copy_range(value.as_slice(), from as usize, last as usize);
    status(part.as_slice())
}

/// Builds the value that a range write of `data` at `off` leaves of `old`.
pub fn set_range_value(old: &Vec<u8>, off: usize, data: &Vec<u8>) -> (new: Vec<u8>)
    ensures
        new@ == range_write(old@, off as nat, data@),
{
    let len = old.len();
    if off >= len {
        let mut new = copy_range(old.as_slice(), 0, len);
        let mut i: usize = len;
        while i < off
            invariant
                len <= i <= off,
                len == old@.len(),
                new@ == old@ + zeros((i - len) as nat),
            decreases off - i,
        {
            new.push(0);
            i += 1;
        }
        append_bytes(&mut new, data.as_slice());
        new
    } else if data.len() >= len - off {
        let mut new = copy_range(old.as_slice(), 0, off);
        append_bytes(&mut new, data.as_slice());
        new
    } else {
        let mut new = copy_range(old.as_slice(), 0, off);
        append_bytes(&mut new, data.as_slice());
        let tail = copy_range(old.as_slice(), off + data.len(), len);
        append_bytes(&mut new, tail.as_slice());
        new
    }
}

/// Builds the array reply for `values`.
pub fn array(values: &Vec<Vec<u8>>) -> (reply: Vec<u8>)
    ensures
        reply@ == multi_reply(views(values@)),
{
    let mut reply: Vec<u8> = Vec::new();
    reply.push(STAR);
    push_decimal(&mut reply, values.len() as u64);
    reply.push(CR);
    reply.push(LF);
    let ghost head = reply@;
    let ghost all = views(values@);
    let mut i: usize = 0;
    while i < values.len()
        invariant
            i <= values@.len(),
            all == views(values@),
            reply@ == head + bulks(all.take(i as int)),
        decreases values.len() - i,
    {
        reply.push(DOLLAR);
        push_decimal(&mut reply, values[i].len() as u64);
        reply.push(CR);
        reply.push(LF);
        append_bytes(&mut reply, values[i].as_slice());
        reply.push(CR);
        reply.push(LF);
        assert(all.take(i + 1).drop_last() =~= all.take(i as int));
        i += 1;
    }
    assert(all.take(values@.len() as int) =~= all);
    reply
}

} // verus!
