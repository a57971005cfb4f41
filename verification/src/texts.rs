//! The fixed texts of the protocol: the reply lines and the verbs.

use vstd::prelude::*;
use vstd::string::*;

verus! {

/// The bytes of a text of ASCII characters.
pub open spec fn ascii(text: Seq<char>) -> Seq<u8> {
    Seq::new(text.len(), |i: int| text[i] as u8)
}

/// The bytes of `text`.
pub(crate) fn text_bytes(text: &str) -> (out: Vec<u8>)
    requires
        text.is_ascii(),
    ensures
        out@ == ascii(text@),
{
    proof {
        is_ascii_spec_bytes(text);
    }
    text.as_bytes_vec()
}

/// The success line.
pub open spec fn ok_line() -> Seq<u8> {
    ascii("+OK\r\n"@)
}

pub fn ok_line_bytes() -> (out: Vec<u8>)
    ensures
        out@ == ok_line(),
{
    proof {
        reveal_strlit("+OK\r\n");
    }
    text_bytes("+OK\r\n")
}

/// The line for a batch that did not go through.
pub open spec fn failed_line() -> Seq<u8> {
    ascii("-FAILED\r\n"@)
}

pub fn failed_line_bytes() -> (out: Vec<u8>)
    ensures
        out@ == failed_line(),
{
    proof {
        reveal_strlit("-FAILED\r\n");
    }
    text_bytes("-FAILED\r\n")
}

/// The line for a key that is not stored.
pub open spec fn not_found_line() -> Seq<u8> {
    ascii("-FAILED NOT FOUND\r\n"@)
}

pub fn not_found_line_bytes() -> (out: Vec<u8>)
    ensures
        out@ == not_found_line(),
{
    proof {
        reveal_strlit("-FAILED NOT FOUND\r\n");
    }
    text_bytes("-FAILED NOT FOUND\r\n")
}

/// The line for a backend that failed.
pub open spec fn error_line() -> Seq<u8> {
    ascii("-FAILED BY ERROR\r\n"@)
}

pub fn error_line_bytes() -> (out: Vec<u8>)
    ensures
        out@ == error_line(),
{
    proof {
        reveal_strlit("-FAILED BY ERROR\r\n");
    }
    text_bytes("-FAILED BY ERROR\r\n")
}

/// The line for a reply that did not come in time.
pub open spec fn timeout_line() -> Seq<u8> {
    ascii("-ReceiveTimeout\r\n"@)
}

pub fn timeout_line_bytes() -> (out: Vec<u8>)
    ensures
        out@ == timeout_line(),
{
    proof {
        reveal_strlit("-ReceiveTimeout\r\n");
    }
    text_bytes("-ReceiveTimeout\r\n")
}

/// The line for a command that is known and not served.
pub open spec fn not_supported_line() -> Seq<u8> {
    ascii("-NOT SUPPORTED\r\n"@)
}

pub fn not_supported_line_bytes() -> (out: Vec<u8>)
    ensures
        out@ == not_supported_line(),
{
    proof {
        reveal_strlit("-NOT SUPPORTED\r\n");
    }
    text_bytes("-NOT SUPPORTED\r\n")
}

/// The line for a frame that holds no known command.
pub open spec fn unknown_line() -> Seq<u8> {
    ascii("-UNKNOWN COMMAND\r\n"@)
}

pub fn unknown_line_bytes() -> (out: Vec<u8>)
    ensures
        out@ == unknown_line(),
{
    proof {
        reveal_strlit("-UNKNOWN COMMAND\r\n");
    }
    text_bytes("-UNKNOWN COMMAND\r\n")
}

pub open spec fn verb_get() -> Seq<u8> {
    ascii("GET"@)
}

pub fn verb_get_bytes() -> (out: Vec<u8>)
    ensures
        out@ == verb_get(),
{
    proof {
        reveal_strlit("GET");
    }
    text_bytes("GET")
}

pub open spec fn verb_mget() -> Seq<u8> {
    ascii("MGET"@)
}

pub fn verb_mget_bytes() -> (out: Vec<u8>)
    ensures
        out@ == verb_mget(),
{
    proof {
        reveal_strlit("MGET");
    }
    text_bytes("MGET")
}

pub open spec fn verb_strlen() -> Seq<u8> {
    ascii("STRLEN"@)
}

pub fn verb_strlen_bytes() -> (out: Vec<u8>)
    ensures
        out@ == verb_strlen(),
{
    proof {
        reveal_strlit("STRLEN");
    }
    text_bytes("STRLEN")
}

pub open spec fn verb_set() -> Seq<u8> {
    ascii("SET"@)
}

pub fn verb_set_bytes() -> (out: Vec<u8>)
    ensures
        out@ == verb_set(),
{
    proof {
        reveal_strlit("SET");
    }
    text_bytes("SET")
}

pub open spec fn verb_setnx() -> Seq<u8> {
    ascii("SETNX"@)
}

pub fn verb_setnx_bytes() -> (out: Vec<u8>)
    ensures
        out@ == verb_setnx(),
{
    proof {
        reveal_strlit("SETNX");
    }
    text_bytes("SETNX")
}

pub open spec fn verb_getset() -> Seq<u8> {
    ascii("GETSET"@)
}

pub fn verb_getset_bytes() -> (out: Vec<u8>)
    ensures
        out@ == verb_getset(),
{
    proof {
        reveal_strlit("GETSET");
    }
    text_bytes("GETSET")
}

pub open spec fn verb_append() -> Seq<u8> {
    ascii("APPEND"@)
}

pub fn verb_append_bytes() -> (out: Vec<u8>)
    ensures
        out@ == verb_append(),
{
    proof {
        reveal_strlit("APPEND");
    }
    text_bytes("APPEND")
}

pub open spec fn verb_setrange() -> Seq<u8> {
    ascii("SETRANGE"@)
}

pub fn verb_setrange_bytes() -> (out: Vec<u8>)
    ensures
        out@ == verb_setrange(),
{
    proof {
        reveal_strlit("SETRANGE");
    }
    text_bytes("SETRANGE")
}

pub open spec fn verb_getrange() -> Seq<u8> {
    ascii("GETRANGE"@)
}

pub fn verb_getrange_bytes() -> (out: Vec<u8>)
    ensures
        out@ == verb_getrange(),
{
    proof {
        reveal_strlit("GETRANGE");
    }
    text_bytes("GETRANGE")
}

pub open spec fn verb_mset() -> Seq<u8> {
    ascii("MSET"@)
}

pub fn verb_mset_bytes() -> (out: Vec<u8>)
    ensures
        out@ == verb_mset(),
{
    proof {
        reveal_strlit("MSET");
    }
    text_bytes("MSET")
}

} // verus!
