//! Reading a command from a frame and executing it against a backend.

use crate::redis_server::{Command, DBError, Operation, ParseFailure, DB};
use crate::reply::{
    array, multi_reply, number, range_reply, range_write, set_range_value, slice_reply, status,
    status_reply,
};
use crate::texts::{
    error_line, error_line_bytes, failed_line, failed_line_bytes, not_found_line,
    not_found_line_bytes, not_supported_line, not_supported_line_bytes, ok_line, ok_line_bytes,
    unknown_line, unknown_line_bytes, verb_append, verb_append_bytes, verb_get, verb_get_bytes,
    verb_getrange, verb_getrange_bytes, verb_getset, verb_getset_bytes, verb_mget,
    verb_mget_bytes, verb_mset, verb_mset_bytes, verb_set, verb_set_bytes, verb_setnx,
    verb_setnx_bytes, verb_setrange, verb_setrange_bytes, verb_strlen, verb_strlen_bytes,
};
use crate::wire::{
    append_bytes, bytes_eq, decimal, pair_views, parse_signed, parse_unsigned, read_i32,
    read_unsigned, split_crlf, split_lines, to_upper, to_uppercase, trim, trim_bounds, views,
    MINUS, STAR,
};
use vstd::prelude::*;

verus! {

/// The fields of a frame: the frame without the white space at either end,
/// split at each line break. Field 0 is the count line, field 2 the verb and
/// field `4 + 2 * i` the argument `i`.
pub open spec fn frame_fields(raw: Seq<u8>) -> Seq<Seq<u8>> {
    split_crlf(trim(raw))
}

/// `s` without the `*` signs it starts with.
pub open spec fn strip_stars(s: Seq<u8>) -> Seq<u8>
    decreases s.len(),
{
    if s.len() > 0 && s[0] == STAR {
        strip_stars(s.drop_first())
    } else {
        s
    }
}

/// How many keys an `MGET` of `n` fields names: one for each of the fields
/// 4, 6, 8, .. below `n`.
pub open spec fn mget_count(n: nat) -> nat {
    if n <= 4 {
        0
    } else {
        ((n - 3) / 2) as nat
    }
}

/// The keys that an `MGET` with the fields `f` names.
pub open spec fn mget_keys(f: Seq<Seq<u8>>) -> Seq<Seq<u8>> {
    Seq::new(mget_count(f.len()), |i: int| f[4 + 2 * i])
}

/// How many pairs an `MSET` of `n` fields names: one for each of the fields
/// 4, 8, 12, .. below `n`.
pub open spec fn mset_count(n: nat) -> nat {
    if n <= 4 {
        0
    } else {
        ((n - 1) / 4) as nat
    }
}

/// Whether the last key of an `MSET` of `n` fields has its value.
pub open spec fn mset_complete(n: nat) -> bool {
    mset_count(n) == 0 || 4 * mset_count(n) + 2 < n
}

/// The pairs that an `MSET` with the fields `f` names.
pub open spec fn mset_pairs(f: Seq<Seq<u8>>) -> Seq<(Seq<u8>, Seq<u8>)> {
    Seq::new(mset_count(f.len()), |i: int| (f[4 + 4 * i], f[6 + 4 * i]))
}

/// The command that the fields of a frame hold; `None` where they hold
/// none: where there are fewer than three fields, where the count line is
/// no number of 16 bits, where an argument is missing and where an offset
/// or a bound is no number. The verb is read without regard to case. A verb
/// that is not known gives `NotParsed`.
pub open spec fn parse_fields(f: Seq<Seq<u8>>) -> Option<Command> {
    if f.len() <= 2 || parse_unsigned(strip_stars(f[0]), 65535) is None {
        None
    } else {
        let verb = to_upper(f[2]);
        if verb == verb_get() {
            if f.len() > 4 {
                Some(Command::Get(f[4]))
            } else {
                None
            }
        } else if verb == verb_strlen() {
            if f.len() > 4 {
                Some(Command::StrLen(f[4]))
            } else {
                None
            }
        } else if verb == verb_set() {
            if f.len() > 6 {
                Some(Command::SetValue(f[4], f[6], false))
            } else {
                None
            }
        } else if verb == verb_setnx() {
            if f.len() > 6 {
                Some(Command::SetValue(f[4], f[6], true))
            } else {
                None
            }
        } else if verb == verb_getset() {
            if f.len() > 6 {
                Some(Command::GetSet(f[4], f[6]))
            } else {
                None
            }
        } else if verb == verb_append() {
            if f.len() > 6 {
                Some(Command::Append(f[4], f[6]))
            } else {
                None
            }
        } else if verb == verb_setrange() {
            if f.len() > 8 {
                match parse_unsigned(f[6], usize::MAX as nat) {
                    Some(off) => Some(Command::SetRange(f[4], off, f[8])),
                    None => None,
                }
            } else {
                None
            }
        } else if verb == verb_getrange() {
            if f.len() > 8 {
                match (
                    parse_signed(f[6], i32::MIN as int, i32::MAX as int),
                    parse_signed(f[8], i32::MIN as int, i32::MAX as int),
                ) {
                    (Some(start), Some(end)) => Some(Command::GetRange(f[4], start, end)),
                    _ => None,
                }
            } else {
                None
            }
        } else if verb == verb_mset() {
            if mset_complete(f.len()) {
                Some(Command::Mset(mset_pairs(f)))
            } else {
                None
            }
        } else if verb == verb_mget() {
            Some(Command::Mget(mget_keys(f)))
        } else {
            Some(Command::NotParsed)
        }
    }
}

/// The command that a frame holds.
pub open spec fn parse_frame(raw: Seq<u8>) -> Option<Command> {
    parse_fields(frame_fields(raw))
}

/// The bounds of `s` without the `*` signs it starts with.
fn skip_stars(s: &Vec<u8>) -> (from: usize)
    ensures
        from <= s@.len(),
        s@.subrange(from as int, s@.len() as int) == strip_stars(s@),
{
    let n = s.len();
    let mut from: usize = 0;
    assert(s@.subrange(0, n as int) =~= s@);
    while from < n && s[from] == STAR
        invariant
            from <= n == s@.len(),
            strip_stars(s@) == strip_stars(s@.subrange(from as int, n as int)),
        decreases n - from,
    {
        assert(s@.subrange(from as int, n as int).drop_first() =~= s@.subrange(
            from + 1,
            n as int,
        ));
        from += 1;
    }
    from
}

fn read_mget_keys(args: &Vec<Vec<u8>>) -> (keys: Vec<Vec<u8>>)
    ensures
        views(keys@) == mget_keys(views(args@)),
{
    let n = args.len();
    let mut keys: Vec<Vec<u8>> = Vec::new();
    let mut pos: usize = 4;
    loop
        invariant_except_break
            pos == 4 + 2 * keys@.len(),
            keys@.len() > 0 ==> pos < n,
        invariant
            n == args@.len(),
            forall|i: int| 0 <= i < keys@.len() ==> keys@[i]@ == args@[4 + 2 * i]@,
        ensures
            keys@.len() == mget_count(n as nat),
        decreases n - pos,
    {
        if pos >= n {
            break ;
        }
        keys.push(args[pos].clone());
        if n - pos <= 2 {
            break ;
        }
        pos += 2;
    }
    keys
}

fn read_mset_pairs(args: &Vec<Vec<u8>>) -> (res: Option<Vec<(Vec<u8>, Vec<u8>)>>)
    ensures
        match res {
            Some(kvs) => mset_complete(args@.len()) && pair_views(kvs@) == mset_pairs(
                views(args@),
            ),
            None => !mset_complete(args@.len()),
        },
{
    let n = args.len();
    let mut kvs: Vec<(Vec<u8>, Vec<u8>)> = Vec::new();
    let mut pos: usize = 4;
    loop
        invariant_except_break
            pos == 4 + 4 * kvs@.len(),
            kvs@.len() > 0 ==> pos < n,
        invariant
            n == args@.len(),
            kvs@.len() > 0 ==> 4 * kvs@.len() + 2 < n,
            forall|i: int|
                0 <= i < kvs@.len() ==> kvs@[i].0@ == args@[4 + 4 * i]@ && kvs@[i].1@ == args@[6
                    + 4 * i]@,
        ensures
            kvs@.len() == mset_count(n as nat),
        decreases n - pos,
    {
        if pos >= n {
            break ;
        }
        if n - pos <= 2 {
            return None;
        }
        kvs.push((args[pos].clone(), args[pos + 2].clone()));
        if n - pos <= 4 {
            break ;
        }
        pos += 4;
    }
    Some(kvs)
}

/// Whether `store` holds each of `keys`.
pub open spec fn all_present(store: Map<Seq<u8>, Seq<u8>>, keys: Seq<Seq<u8>>) -> bool {
    forall|i: int| 0 <= i < keys.len() ==> store.contains_key(#[trigger] keys[i])
}

/// The values that `store` holds for `keys`, in the order of the keys.
pub open spec fn values_of(store: Map<Seq<u8>, Seq<u8>>, keys: Seq<Seq<u8>>) -> Seq<Seq<u8>> {
    Seq::new(keys.len(), |i: int| store[keys[i]])
}

/// `store` after each of `pairs` is written, in order.
pub open spec fn put_all(store: Map<Seq<u8>, Seq<u8>>, pairs: Seq<(Seq<u8>, Seq<u8>)>) -> Map<
    Seq<u8>,
    Seq<u8>,
>
    decreases pairs.len(),
{
    if pairs.len() == 0 {
        store
    } else {
        put_all(store, pairs.drop_last()).insert(pairs.last().0, pairs.last().1)
    }
}

/// Writing one pair is one insertion.
pub proof fn lemma_single_write(store: Map<Seq<u8>, Seq<u8>>, key: Seq<u8>, value: Seq<u8>)
    ensures
        put_all(store, seq![(key, value)]) == store.insert(key, value),
{
    reveal_with_fuel(put_all, 2);
}

/// What a read of one key came to.
pub enum Found {
    Value(Seq<u8>),
    Missing,
    Failed,
}

/// What the result of a read came to.
pub open spec fn found(res: Result<Vec<u8>, DBError>) -> Found {
    match res {
        Ok(value) => Found::Value(value@),
        Err(DBError::NotFound) => Found::Missing,
        Err(_) => Found::Failed,
    }
}

/// What a read of `key` comes to on a dependable backend that holds `store`.
pub open spec fn lookup(store: Map<Seq<u8>, Seq<u8>>, key: Seq<u8>) -> Found {
    if store.contains_key(key) {
        Found::Value(store[key])
    } else {
        Found::Missing
    }
}

/// What follows the read of a command that reads and then writes: a write
/// of a value, with the reply to give once it has gone through, or a reply
/// at once.
pub enum Step {
    Write(Seq<u8>, Seq<u8>),
    Stop(Seq<u8>),
}

/// `GETSET`: the new value is written whether or not the key was stored;
/// the reply carries the value that was there, or the new one where there
/// was none.
pub open spec fn getset_step(prior: Found, value: Seq<u8>) -> Step {
    match prior {
        Found::Value(old) => Step::Write(value, status_reply(old)),
        Found::Missing => Step::Write(value, status_reply(value)),
        Found::Failed => Step::Stop(error_line()),
    }
}

/// `APPEND`: the value is put behind the one that is stored; a key that is
/// not stored is not created.
pub open spec fn append_step(prior: Found, value: Seq<u8>) -> Step {
    match prior {
        Found::Value(old) => Step::Write(old + value, ok_line()),
        Found::Missing => Step::Stop(not_found_line()),
        Found::Failed => Step::Stop(error_line()),
    }
}

/// `SETRANGE`: the data is written into the stored value, a key that is not
/// stored counting as empty; the reply carries the new length.
pub open spec fn set_range_step(prior: Found, off: nat, data: Seq<u8>) -> Step {
    match prior {
        Found::Value(old) => Step::Write(
            range_write(old, off, data),
            status_reply(decimal(range_write(old, off, data).len())),
        ),
        Found::Missing => Step::Write(
            range_write(seq![], off, data),
            status_reply(decimal(range_write(seq![], off, data).len())),
        ),
        Found::Failed => Step::Stop(error_line()),
    }
}

/// `STRLEN`: the length in bytes of the stored value.
pub open spec fn strlen_answer(prior: Found) -> Seq<u8> {
    match prior {
        Found::Value(value) => status_reply(decimal(value.len())),
        Found::Missing => not_found_line(),
        Found::Failed => error_line(),
    }
}

/// `GETRANGE`: the bytes of the stored value between two bounds.
pub open spec fn get_range_answer(prior: Found, start: int, end: int) -> Seq<u8> {
    match prior {
        Found::Value(value) => range_reply(value, start, end),
        Found::Missing => not_found_line(),
        Found::Failed => error_line(),
    }
}

/// The reply of a command that reads and then writes, given what the read
/// came to and whether the write, if one was made, went through.
pub open spec fn step_answer(step: Step, written: bool) -> Seq<u8> {
    match step {
        Step::Write(_, reply) => if written {
            reply
        } else {
            error_line()
        },
        Step::Stop(reply) => reply,
    }
}

/// The step of `command` after its read came to `prior`, for the commands
/// that read and then write.
pub open spec fn step_of(command: Command, prior: Found) -> Step {
    match command {
        Command::GetSet(_, value) => getset_step(prior, value),
        Command::Append(_, value) => append_step(prior, value),
        Command::SetRange(_, off, data) => set_range_step(prior, off, data),
        _ => Step::Stop(seq![]),
    }
}

/// The reply to `command` on a dependable backend that holds `store`.
pub open spec fn reply_of(command: Command, store: Map<Seq<u8>, Seq<u8>>) -> Seq<u8> {
    match command {
        Command::SetValue(_, _, _) => ok_line(),
        Command::Mset(_) => ok_line(),
        Command::Get(key) => if store.contains_key(key) {
            multi_reply(seq![store[key]])
        } else {
            failed_line()
        },
        Command::Mget(keys) => if all_present(store, keys) {
            multi_reply(values_of(store, keys))
        } else {
            failed_line()
        },
        Command::StrLen(key) => strlen_answer(lookup(store, key)),
        Command::GetRange(key, start, end) => get_range_answer(lookup(store, key), start, end),
        Command::GetSet(key, _) => step_answer(step_of(command, lookup(store, key)), true),
        Command::Append(key, _) => step_answer(step_of(command, lookup(store, key)), true),
        Command::SetRange(key, _, _) => step_answer(step_of(command, lookup(store, key)), true),
        Command::Other => not_supported_line(),
        Command::NotParsed => unknown_line(),
    }
}

/// What a dependable backend holds after `command`, where it held `store`
/// before.
pub open spec fn store_after(command: Command, store: Map<Seq<u8>, Seq<u8>>) -> Map<
    Seq<u8>,
    Seq<u8>,
> {
    match command {
        Command::SetValue(key, value, _) => store.insert(key, value),
        Command::Mset(pairs) => put_all(store, pairs),
        Command::GetSet(key, _) | Command::Append(key, _) | Command::SetRange(key, _, _) => {
            match step_of(command, lookup(store, key)) {
                Step::Write(value, _) => store.insert(key, value),
                Step::Stop(_) => store,
            }
        },
        _ => store,
    }
}

/// Whether `reply` is a reply that `command` can have, whatever the backend
/// returns: the reply to some result of each of its operations.
pub open spec fn can_reply(command: Command, reply: Seq<u8>) -> bool {
    match command {
        Command::SetValue(_, _, _) => reply == ok_line() || reply == failed_line(),
        Command::Mset(pairs) => reply == ok_line() || (pairs.len() > 0 && reply == failed_line()),
        Command::Get(_) => reply == failed_line() || exists|values: Seq<Seq<u8>>|
            values.len() == 1 && reply == #[trigger] multi_reply(values),
        Command::Mget(keys) => (keys.len() > 0 && reply == failed_line()) || exists|
            values: Seq<Seq<u8>>,
        | values.len() == keys.len() && reply == #[trigger] multi_reply(values),
        Command::StrLen(_) => exists|prior: Found| reply == #[trigger] strlen_answer(prior),
        Command::GetRange(_, start, end) => exists|prior: Found|
            reply == #[trigger] get_range_answer(prior, start, end),
        Command::GetSet(_, _) | Command::Append(_, _) | Command::SetRange(_, _, _) => exists|
            prior: Found,
            written: bool,
        | reply == #[trigger] step_answer(step_of(command, prior), written),
        Command::Other => reply == not_supported_line(),
        Command::NotParsed => reply == unknown_line(),
    }
}

/// What is known of a command that was executed against a backend that
/// held `before` and was dependable or not: on a dependable backend the
/// reply and the contents are those of a map; on any backend the reply is
/// one that the command can have.
pub open spec fn executed(
    command: Command,
    dependable: bool,
    before: Map<Seq<u8>, Seq<u8>>,
    reply: Seq<u8>,
    after: Map<Seq<u8>, Seq<u8>>,
    dependable_after: bool,
) -> bool {
    &&& can_reply(command, reply)
    &&& dependable ==> {
        &&& dependable_after
        &&& reply == reply_of(command, before)
        &&& after == store_after(command, before)
    }
}

/// Builds the reply to `STRLEN` from what the read returned.
pub fn strlen_reply(res: Result<Vec<u8>, DBError>) -> (reply: Vec<u8>)
    ensures
        reply@ == strlen_answer(found(res)),
{
    match res {
        Ok(value) => number(value.len()),
        Err(DBError::NotFound) => not_found_line_bytes(),
        Err(_) => error_line_bytes(),
    }
}

/// Builds the reply to `GETRANGE` from what the read returned.
pub fn get_range_reply(res: Result<Vec<u8>, DBError>, start: i32, end: i32) -> (reply: Vec<u8>)
    ensures
        reply@ == get_range_answer(found(res), start as int, end as int),
{
    match res {
        Ok(value) => slice_reply(&value, start, end),
        Err(DBError::NotFound) => not_found_line_bytes(),
        Err(_) => error_line_bytes(),
    }
}

/// What follows a read, in bytes: see `Step`.
pub enum Plan {
    Write(Vec<u8>, Vec<u8>),
    Stop(Vec<u8>),
}

impl View for Plan {
    type V = Step;

    open spec fn view(&self) -> Step {
        match *self {
            Plan::Write(value, reply) => Step::Write(value@, reply@),
            Plan::Stop(reply) => Step::Stop(reply@),
        }
    }
}

/// Decides what `GETSET` does after its read.
pub fn getset_plan(prior: Result<Vec<u8>, DBError>, value: Vec<u8>) -> (plan: Plan)
    ensures
        plan@ == getset_step(found(prior), value@),
{
    match prior {
        Ok(old_value) => Plan::Write(value, status(old_value.as_slice())),
        Err(DBError::NotFound) => {
            let reply = status(value.as_slice());
            Plan::Write(value, reply)
        },
        Err(_) => Plan::Stop(error_line_bytes()),
    }
}

/// Decides what `APPEND` does after its read.
pub fn append_plan(prior: Result<Vec<u8>, DBError>, value: Vec<u8>) -> (plan: Plan)
    ensures
        plan@ == append_step(found(prior), value@),
{
    match prior {
        Ok(old_value) => {
            let mut new_value = old_value;
            append_bytes(&mut new_value, value.as_slice());
            Plan::Write(new_value, ok_line_bytes())
        },
        Err(DBError::NotFound) => Plan::Stop(not_found_line_bytes()),
        Err(_) => Plan::Stop(error_line_bytes()),
    }
}

/// Decides what `SETRANGE` does after its read.
pub fn set_range_plan(prior: Result<Vec<u8>, DBError>, off: usize, data: Vec<u8>) -> (plan: Plan)
    ensures
        plan@ == set_range_step(found(prior), off as nat, data@),
{
    let old_value = match prior {
        Ok(old_value) => old_value,
        Err(DBError::NotFound) => Vec::new(),
        Err(_) => {
            return Plan::Stop(error_line_bytes());
        },
    };
    let new_value = set_range_value(&old_value, off, &data);
    let reply = number(new_value.len());
    Plan::Write(new_value, reply)
}

/// Carries out `plan` for `key`: makes the write, if there is one, and
/// builds the reply.
pub fn carry_out<E: DB>(db: &mut E, key: Vec<u8>, plan: Plan) -> (reply: Vec<u8>)
    ensures
        exists|written: bool| reply@ == #[trigger] step_answer(plan@, written),
        old(db).dependable() ==> {
            &&& final(db).dependable()
            &&& reply@ == step_answer(plan@, true)
            &&& final(db)@ == match plan@ {
                Step::Write(value, _) => old(db)@.insert(key@, value),
                Step::Stop(_) => old(db)@,
            }
        },
{
    match plan {
        Plan::Write(value, reply) => {
            if db.raw_put(key, value).is_ok() {
                assert(reply@ == step_answer(plan@, true));
                reply
            } else {
                let reply = error_line_bytes();
                assert(reply@ == step_answer(plan@, false));
                reply
            }
        },
        Plan::Stop(reply) => {
            assert(reply@ == step_answer(plan@, true));
            reply
        },
    }
}

/// One command on its way from the wire to the backend: the frame as it
/// was read, and the command that was found in it.
pub struct Executor {
    raw_command: Vec<u8>,
    op: Operation,
}

impl Executor {
    /// The bytes of the frame.
    pub closed spec fn frame(&self) -> Seq<u8> {
        self.raw_command@
    }

    /// The command that stands to be executed.
    pub closed spec fn command(&self) -> Command {
        self.op@
    }

    /// An executor for the frame `raw_command`, with no command read yet.
    pub fn new(raw_command: Vec<u8>) -> (executor: Self)
        ensures
            executor.frame() == raw_command@,
            executor.command() == Command::NotParsed,
    {
        Executor { raw_command, op: Operation::NotParsed }
    }

    /// An executor for a command that was read elsewhere.
    pub fn for_operation(op: Operation) -> (executor: Self)
        ensures
            executor.frame() == Seq::<u8>::empty(),
            executor.command() == op@,
    {
        Executor { raw_command: Vec::new(), op }
    }

    /// The command that stands to be executed.
    pub fn operation(&self) -> (op: &Operation)
        ensures
            op@ == self.command(),
    {
        &self.op
    }

    /// Reads the command from the frame. A frame that holds none leaves
    /// `NotParsed` to be executed.
    pub fn parse(&mut self) -> (res: Result<(), ParseFailure>)
        ensures
            final(self).frame() == old(self).frame(),
            match parse_frame(old(self).frame()) {
                Some(command) => res is Ok && final(self).command() == command,
                None => res is Err && final(self).command() == Command::NotParsed,
            },
    {
        let (lo, hi) = trim_bounds(self.raw_command.as_slice());
        let args = split_lines(self.raw_command.as_slice(), lo, hi);
        match Executor::get_op(&args) {
            Ok(op) => {
                self.op = op;
                Ok(())
            },
            Err(failure) => {
                self.op = Operation::NotParsed;
                Err(failure)
            },
        }
    }

    /// Reads the command that the fields `args` of a frame hold.
    pub fn get_op(args: &Vec<Vec<u8>>) -> (res: Result<Operation, ParseFailure>)
        ensures
            match parse_fields(views(args@)) {
                Some(command) => res matches Ok(op) && op@ == command,
                None => res is Err,
            },
    {
        if args.len() <= 2 {
            return Err(ParseFailure);
        }
        let from = skip_stars(&args[0]);
        let digits = vstd::slice::slice_subrange(args[0].as_slice(), from, args[0].len());
        let count = read_unsigned(digits, 65535);
        if count.is_none() {
            return Err(ParseFailure);
        }
        let verb = to_uppercase(args[2].as_slice());
        let n = args.len();
        if bytes_eq(verb.as_slice(), verb_get_bytes().as_slice()) {
            if n > 4 {
                Ok(Operation::Get(args[4].clone()))
            } else {
                Err(ParseFailure)
            }
        } else if bytes_eq(verb.as_slice(), verb_strlen_bytes().as_slice()) {
            if n > 4 {
                Ok(Operation::StrLen(args[4].clone()))
            } else {
                Err(ParseFailure)
            }
        } else if bytes_eq(verb.as_slice(), verb_set_bytes().as_slice()) {
            if n > 6 {
                Ok(Operation::SetValue(args[4].clone(), args[6].clone(), false))
            } else {
                Err(ParseFailure)
            }
        } else if bytes_eq(verb.as_slice(), verb_setnx_bytes().as_slice()) {
            if n > 6 {
                Ok(Operation::SetValue(args[4].clone(), args[6].clone(), true))
            } else {
                Err(ParseFailure)
            }
        } else if bytes_eq(verb.as_slice(), verb_getset_bytes().as_slice()) {
            if n > 6 {
                Ok(Operation::GetSet(args[4].clone(), args[6].clone()))
            } else {
                Err(ParseFailure)
            }
        } else if bytes_eq(verb.as_slice(), verb_append_bytes().as_slice()) {
            if n > 6 {
                Ok(Operation::Append(args[4].clone(), args[6].clone()))
            } else {
                Err(ParseFailure)
            }
        } else if bytes_eq(verb.as_slice(), verb_setrange_bytes().as_slice()) {
            if n > 8 {
                match read_unsigned(args[6].as_slice(), usize::MAX as u64) {
                    Some(off) => Ok(
                        Operation::SetRange(args[4].clone(), off as usize, args[8].clone()),
                    ),
                    None => Err(ParseFailure),
                }
            } else {
                Err(ParseFailure)
            }
        } else if bytes_eq(verb.as_slice(), verb_getrange_bytes().as_slice()) {
            if n > 8 {
                let start = read_i32(args[6].as_slice());
                let end = read_i32(args[8].as_slice());
                match (start, end) {
                    (Some(start), Some(end)) => Ok(
                        Operation::GetRange(args[4].clone(), start, end),
                    ),
                    _ => Err(ParseFailure),
                }
            } else {
                Err(ParseFailure)
            }
        } else if bytes_eq(verb.as_slice(), verb_mset_bytes().as_slice()) {
            match read_mset_pairs(args) {
                Some(kvs) => Ok(Operation::Mset(kvs)),
                None => Err(ParseFailure),
            }
        } else if bytes_eq(verb.as_slice(), verb_mget_bytes().as_slice()) {
            Ok(Operation::Mget(read_mget_keys(args)))
        } else {
            Ok(Operation::NotParsed)
        }
    }

    /// Builds the array reply for `reply`.
    pub fn gen_multi_reply(reply: &Vec<Vec<u8>>) -> (out: Vec<u8>)
        ensures
            out@ == multi_reply(views(reply@)),
    {
        array(reply)
    }

    /// Writes every pair of `kvs`, in order, and replies `+OK` where every write
    /// went through and `-FAILED` where one did not.
    pub fn set<E: DB>(db: &mut E, kvs: &Vec<(Vec<u8>, Vec<u8>)>) -> (reply: Vec<u8>)
        ensures
            executed(
                Command::Mset(pair_views(kvs@)),
                old(db).dependable(),
                old(db)@,
                reply@,
                final(db)@,
                final(db).dependable(),
            ),
    {
        let ghost pairs = pair_views(kvs@);
        let mut succ_count: usize = 0;
        let mut i: usize = 0;
        while i < kvs.len()
            invariant
                i <= kvs@.len(),
                succ_count <= i,
                pairs == pair_views(kvs@),
                old(db).dependable() ==> {
                    &&& db.dependable()
                    &&& succ_count == i
                    &&& db@ == put_all(old(db)@, pairs.take(i as int))
                },
            decreases kvs.len() - i,
        {
            let key = kvs[i].0.clone();
            let value = kvs[i].1.clone();
            let res = db.raw_put(key, value);
            assert(pairs.take(i + 1).drop_last() =~= pairs.take(i as int));
            if res.is_ok() {
                succ_count += 1;
            }
            i += 1;
        }
        assert(pairs.take(kvs@.len() as int) =~= pairs);
        if succ_count != kvs.len() {
            failed_line_bytes()
        } else {
            ok_line_bytes()
        }
    }

    /// Reads every key of `keys`, in order, and replies with the values as an
    /// array, or with `-FAILED` where a key is missing or a read failed.
    pub fn get<E: DB>(db: &E, keys: &Vec<Vec<u8>>) -> (reply: Vec<u8>)
        ensures
            executed(
                Command::Mget(views(keys@)),
                db.dependable(),
                db@,
                reply@,
                db@,
                db.dependable(),
            ),
    {
        let ghost names = views(keys@);
        let mut values: Vec<Vec<u8>> = Vec::new();
        let mut i: usize = 0;
        while i < keys.len()
            invariant
                i <= keys@.len(),
                names == views(keys@),
                values@.len() == i,
                db.dependable() ==> forall|j: int|
                    0 <= j < i ==> db@.contains_key(#[trigger] names[j]),
                db.dependable() ==> forall|j: int|
                    0 <= j < i ==> (#[trigger] values@[j])@ == db@[names[j]],
            decreases keys.len() - i,
        {
            match db.raw_get(keys[i].clone()) {
                Ok(value) => {
                    values.push(value);
                },
                Err(_) => {
                    proof {
                        if db.dependable() {
                            assert(!db@.contains_key(names[i as int]));
                        }
                    }
                    return failed_line_bytes();
                },
            }
            i += 1;
        }
        assert(db.dependable() ==> views(values@) =~= values_of(db@, names));
        Executor::gen_multi_reply(&values)
    }

    /// Reads the value under `key`, writes `value` in its place and replies with
    /// the value that was there, or with `value` where there was none.
    pub fn getset<E: DB>(db: &mut E, key: Vec<u8>, value: Vec<u8>) -> (reply: Vec<u8>)
        ensures
            executed(
                Command::GetSet(key@, value@),
                old(db).dependable(),
                old(db)@,
                reply@,
                final(db)@,
                final(db).dependable(),
            ),
    {
        let prior = db.raw_get(key.clone());
        let ghost read = found(prior);
        let plan = getset_plan(prior, value);
        let ghost step = plan@;
        let reply = carry_out(db, key, plan);
        proof {
            let written = choose|written: bool| reply@ == #[trigger] step_answer(step, written);
            assert(reply@ == step_answer(step_of(Command::GetSet(key@, value@), read), written));
        }
        reply
    }

    /// Replies with the length in bytes of the value under `key`.
    pub fn strlen<E: DB>(db: &E, key: Vec<u8>) -> (reply: Vec<u8>)
        ensures
            executed(Command::StrLen(key@), db.dependable(), db@, reply@, db@, db.dependable()),
    {
        strlen_reply(db.raw_get(key))
    }

    /// Puts `value` behind the value under `key`. A key that is not stored is
    /// not created.
    pub fn append<E: DB>(db: &mut E, key: Vec<u8>, value: Vec<u8>) -> (reply: Vec<u8>)
        ensures
            executed(
                Command::Append(key@, value@),
                old(db).dependable(),
                old(db)@,
                reply@,
                final(db)@,
                final(db).dependable(),
            ),
    {
        let prior = db.raw_get(key.clone());
        let ghost read = found(prior);
        let plan = append_plan(prior, value);
        let ghost step = plan@;
        let reply = carry_out(db, key, plan);
        proof {
            let written = choose|written: bool| reply@ == #[trigger] step_answer(step, written);
            assert(reply@ == step_answer(step_of(Command::Append(key@, value@), read), written));
        }
        reply
    }

    /// Replies with the bytes of the value under `key` between two bounds.
    pub fn get_range<E: DB>(db: &E, key: Vec<u8>, start: i32, end: i32) -> (reply: Vec<u8>)
        ensures
            executed(
                Command::GetRange(key@, start as int, end as int),
                db.dependable(),
                db@,
                reply@,
                db@,
                db.dependable(),
            ),
    {
        let res = db.raw_get(key);
        let ghost read = found(res);
        let reply = get_range_reply(res, start, end);
        proof {
            let command = Command::GetRange(key@, start as int, end as int);
            assert(reply@ == get_range_answer(read, command->GetRange_1, command->GetRange_2));
        }
        reply
    }

    /// Writes `data` into the value under `key` at `off` and replies with the
    /// length of what is then stored. A key that is not stored counts as empty.
    pub fn set_range<E: DB>(db: &mut E, key: Vec<u8>, off: usize, data: Vec<u8>) -> (reply: Vec<u8>)
        ensures
            executed(
                Command::SetRange(key@, off as nat, data@),
                old(db).dependable(),
                old(db)@,
                reply@,
                final(db)@,
                final(db).dependable(),
            ),
    {
        let prior = db.raw_get(key.clone());
        let ghost read = found(prior);
        let plan = set_range_plan(prior, off, data);
        let ghost step = plan@;
        let reply = carry_out(db, key, plan);
        proof {
            let written = choose|written: bool| reply@ == #[trigger] step_answer(step, written);
            let command = Command::SetRange(key@, off as nat, data@);
            assert(reply@ == step_answer(step_of(command, read), written));
        }
        reply
    }

    /// Executes the command against `db` and builds the reply.
    pub fn exec_command<E: DB>(&self, db: &mut E) -> (reply: Vec<u8>)
        ensures
            executed(
                self.command(),
                old(db).dependable(),
                old(db)@,
                reply@,
                final(db)@,
                final(db).dependable(),
            ),
    {
        match &self.op {
            Operation::Other => not_supported_line_bytes(),
            Operation::NotParsed => unknown_line_bytes(),
            Operation::SetValue(key, value, _) => {
                let mut kvs: Vec<(Vec<u8>, Vec<u8>)> = Vec::new();
                kvs.push((key.clone(), value.clone()));
                proof {
                    assert(pair_views(kvs@) =~= seq![(key@, value@)]);
                    lemma_single_write(old(db)@, key@, value@);
                }
                Executor::set(db, &kvs)
            },
            Operation::Mset(kvs) => Executor::set(db, kvs),
            Operation::Get(key) => {
                let mut keys: Vec<Vec<u8>> = Vec::new();
                keys.push(key.clone());
                proof {
                    assert(db@.contains_key(key@) ==> values_of(db@, views(keys@)) =~= seq![
                        db@[key@],
                    ]);
                }
                Executor::get(db, &keys)
            },
            Operation::Mget(keys) => Executor::get(db, keys),
            Operation::GetSet(key, value) => Executor::getset(db, key.clone(), value.clone()),
            Operation::Append(key, value) => Executor::append(db, key.clone(), value.clone()),
            Operation::StrLen(key) => Executor::strlen(db, key.clone()),
            Operation::GetRange(key, start, end) => {
                Executor::get_range(db, key.clone(), *start, *end)
            },
            Operation::SetRange(key, off, data) => {
                Executor::set_range(db, key.clone(), *off, data.clone())
            },
        }
    }
}

/// The command that a worker executes for a frame: the command in it, or
/// `NotParsed` where it holds none.
pub open spec fn command_of(raw: Seq<u8>) -> Command {
    match parse_frame(raw) {
        Some(command) => command,
        None => Command::NotParsed,
    }
}

/// Reads the command in `raw_command`, executes it against `db` and builds
/// the reply: what a worker does with one frame.
pub fn serve<E: DB>(db: &mut E, raw_command: Vec<u8>) -> (reply: Vec<u8>)
    ensures
        executed(
            command_of(raw_command@),
            old(db).dependable(),
            old(db)@,
            reply@,
            final(db)@,
            final(db).dependable(),
        ),
{
    let mut executor = Executor::new(raw_command);
    let _ = executor.parse();
    executor.exec_command(db)
}

/// The keys of `pairs`, in order.
pub open spec fn keys_of(pairs: Seq<(Seq<u8>, Seq<u8>)>) -> Seq<Seq<u8>> {
    Seq::new(pairs.len(), |i: int| pairs[i].0)
}

/// The values of `pairs`, in order.
pub open spec fn vals_of(pairs: Seq<(Seq<u8>, Seq<u8>)>) -> Seq<Seq<u8>> {
    Seq::new(pairs.len(), |i: int| pairs[i].1)
}

/// Whether no key stands twice in `pairs`.
pub open spec fn distinct_pairs(pairs: Seq<(Seq<u8>, Seq<u8>)>) -> bool {
    forall|i: int, j: int| 0 <= i < j < pairs.len() ==> pairs[i].0 != pairs[j].0
}

/// After the pairs are written, the store holds for each key the value of
/// the pair, where no key stands twice.
pub proof fn lemma_put_all_holds(
    store: Map<Seq<u8>, Seq<u8>>,
    pairs: Seq<(Seq<u8>, Seq<u8>)>,
    i: int,
)
    requires
        distinct_pairs(pairs),
        0 <= i < pairs.len(),
    ensures
        put_all(store, pairs).contains_key(pairs[i].0),
        put_all(store, pairs)[pairs[i].0] == pairs[i].1,
    decreases pairs.len(),
{
    if i < pairs.len() - 1 {
        lemma_put_all_holds(store, pairs.drop_last(), i);
    }
}

/// A failure line is no array reply, whatever the array holds.
pub proof fn lemma_failed_is_no_array(values: Seq<Seq<u8>>)
    ensures
        failed_line() != multi_reply(values),
{
    reveal_strlit("-FAILED\r\n");
    assert(failed_line()[0] == MINUS);
}

/// A key that was set is read back: `SET k v` replies `+OK`, and the `GET k`
/// that follows replies with `v` as an array of one value. A `GET` of a key
/// that is not stored replies `-FAILED`, which is no array.
pub proof fn lemma_set_then_get(
    store: Map<Seq<u8>, Seq<u8>>,
    key: Seq<u8>,
    value: Seq<u8>,
    nx: bool,
    other: Seq<u8>,
)
    ensures
        reply_of(Command::SetValue(key, value, nx), store) == ok_line(),
        reply_of(Command::Get(key), store_after(Command::SetValue(key, value, nx), store))
            == multi_reply(seq![value]),
        !store.contains_key(other) ==> reply_of(Command::Get(other), store) == failed_line(),
        forall|values: Seq<Seq<u8>>| failed_line() != #[trigger] multi_reply(values),
{
    assert forall|values: Seq<Seq<u8>>| failed_line() != #[trigger] multi_reply(values) by {
        lemma_failed_is_no_array(values);
    }
}

/// Pairs that were set together are read back together: where no key stands
/// twice, `MSET` of the pairs replies `+OK`, and the `MGET` of their keys
/// that follows replies with their values, in the order of the request.
pub proof fn lemma_mset_then_mget(store: Map<Seq<u8>, Seq<u8>>, pairs: Seq<(Seq<u8>, Seq<u8>)>)
    requires
        distinct_pairs(pairs),
    ensures
        reply_of(Command::Mset(pairs), store) == ok_line(),
        reply_of(Command::Mget(keys_of(pairs)), store_after(Command::Mset(pairs), store))
            == multi_reply(vals_of(pairs)),
{
    let after = put_all(store, pairs);
    let keys = keys_of(pairs);
    assert forall|i: int| 0 <= i < keys.len() implies after.contains_key(#[trigger] keys[i])
        && after[keys[i]] == pairs[i].1 by {
        lemma_put_all_holds(store, pairs, i);
    }
    assert(values_of(after, keys) =~= vals_of(pairs));
}

/// `GETSET k v` replies with the value that was stored and leaves `v` to be
/// read; on a key that is not stored it creates the key and replies with
/// `v`.
pub proof fn lemma_getset(store: Map<Seq<u8>, Seq<u8>>, key: Seq<u8>, value: Seq<u8>)
    ensures
        store.contains_key(key) ==> reply_of(Command::GetSet(key, value), store) == status_reply(
            store[key],
        ),
        !store.contains_key(key) ==> reply_of(Command::GetSet(key, value), store) == status_reply(
            value,
        ),
        reply_of(Command::Get(key), store_after(Command::GetSet(key, value), store))
            == multi_reply(seq![value]),
{
}

/// `APPEND k s` on a stored key replies `+OK` and leaves the old value with
/// `s` behind it to be read; on a key that is not stored it replies
/// `-FAILED NOT FOUND` and changes nothing.
pub proof fn lemma_append(store: Map<Seq<u8>, Seq<u8>>, key: Seq<u8>, suffix: Seq<u8>)
    ensures
        store.contains_key(key) ==> {
            &&& reply_of(Command::Append(key, suffix), store) == ok_line()
            &&& reply_of(Command::Get(key), store_after(Command::Append(key, suffix), store))
                == multi_reply(seq![store[key] + suffix])
        },
        !store.contains_key(key) ==> {
            &&& reply_of(Command::Append(key, suffix), store) == not_found_line()
            &&& store_after(Command::Append(key, suffix), store) == store
        },
{
}

/// `STRLEN k` replies with the length in bytes of the stored value, and
/// with `-FAILED NOT FOUND` for a key that is not stored; it changes
/// nothing.
pub proof fn lemma_strlen(store: Map<Seq<u8>, Seq<u8>>, key: Seq<u8>)
    ensures
        store.contains_key(key) ==> reply_of(Command::StrLen(key), store) == status_reply(
            decimal(store[key].len()),
        ),
        !store.contains_key(key) ==> reply_of(Command::StrLen(key), store) == not_found_line(),
        store_after(Command::StrLen(key), store) == store,
{
}

} // verus!
