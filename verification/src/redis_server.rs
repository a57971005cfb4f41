//! The parts of the server: the backend and its errors, the commands, and
//! the life of a connection.

use crate::texts::{ok_line, ok_line_bytes, timeout_line, timeout_line_bytes};
use crate::wire::{pair_views, views};
use vstd::prelude::*;

verus! {

/// Why a storage operation did not return a value.
#[derive(Debug)]
pub enum DBError {
    /// The key is not stored.
    NotFound,
    /// The key is stored already.
    AlreadyExited(String),
    /// The backend failed.
    Other,
}

/// A storage backend: two operations on byte-string keys and values.
///
/// A backend may be a map of its own or the door to one that lives
/// elsewhere. Of the second kind nothing is known but what each call
/// returns. The first kind says so with `dependable` and is then held to
/// the behaviour of a map.
pub trait DB: Send + Sync + 'static {
    /// The contents of a dependable backend.
    open spec fn view(&self) -> Map<Seq<u8>, Seq<u8>> {
        Map::empty()
    }

    /// Whether this backend holds its contents itself and carries out every
    /// operation: a write is always taken, and a read fails only for a key
    /// that is not stored.
    open spec fn dependable(&self) -> bool {
        false
    }

    /// Stores `value` under `key`, in place of what was there.
    fn raw_put(&mut self, key: Vec<u8>, value: Vec<u8>) -> (res: Result<Vec<u8>, DBError>)
        ensures
            old(self).dependable() ==> {
                &&& res is Ok
                &&& final(self).dependable()
                &&& final(self)@ == old(self)@.insert(key@, value@)
            },
    ;

    /// The value under `key`; `NotFound` where there is none.
    fn raw_get(&self, key: Vec<u8>) -> (res: Result<Vec<u8>, DBError>)
        ensures
            self.dependable() ==> match res {
                Ok(value) => self@.contains_key(key@) && value@ == self@[key@],
                Err(e) => e is NotFound && !self@.contains_key(key@),
            },
    ;

    fn txn_put(&self) {
    }

    fn txn_get(&self) {
    }
}

/// A frame that holds no command: too few fields, a missing argument or a
/// number that cannot be read.
#[derive(Debug)]
pub struct ParseFailure;

/// A command as it came off the wire.
#[derive(Clone, Debug)]
pub enum Operation {
    /// Store the value under the key. The flag asks to do so only where the
    /// key is not stored; it is read and not acted on.
    SetValue(Vec<u8>, Vec<u8>, bool),
    /// Read the value under the key.
    Get(Vec<u8>),
    /// Store the value under the key and return the one that was there.
    GetSet(Vec<u8>, Vec<u8>),
    /// The length of the value under the key.
    StrLen(Vec<u8>),
    /// Put the value behind the one under the key.
    Append(Vec<u8>, Vec<u8>),
    /// Write the data into the value under the key at the offset.
    SetRange(Vec<u8>, usize, Vec<u8>),
    /// Read the value under the key between the start and the end.
    GetRange(Vec<u8>, i32, i32),
    /// Store each value under its key.
    Mset(Vec<(Vec<u8>, Vec<u8>)>),
    /// Read the values under the keys.
    Mget(Vec<Vec<u8>>),
    /// A command that is known and not served.
    Other,
    /// No command, or one that is not known.
    NotParsed,
}

/// What an `Operation` stands for: the command over mathematical byte
/// strings and numbers.
pub enum Command {
    SetValue(Seq<u8>, Seq<u8>, bool),
    Get(Seq<u8>),
    GetSet(Seq<u8>, Seq<u8>),
    StrLen(Seq<u8>),
    Append(Seq<u8>, Seq<u8>),
    SetRange(Seq<u8>, nat, Seq<u8>),
    GetRange(Seq<u8>, int, int),
    Mset(Seq<(Seq<u8>, Seq<u8>)>),
    Mget(Seq<Seq<u8>>),
    Other,
    NotParsed,
}

impl View for Operation {
    type V = Command;

    open spec fn view(&self) -> Command {
        match *self {
            Operation::SetValue(k, v, nx) => Command::SetValue(k@, v@, nx),
            Operation::Get(k) => Command::Get(k@),
            Operation::GetSet(k, v) => Command::GetSet(k@, v@),
            Operation::StrLen(k) => Command::StrLen(k@),
            Operation::Append(k, v) => Command::Append(k@, v@),
            Operation::SetRange(k, off, data) => Command::SetRange(k@, off as nat, data@),
            Operation::GetRange(k, start, end) => Command::GetRange(k@, start as int, end as int),
            Operation::Mset(kvs) => Command::Mset(pair_views(kvs@)),
            Operation::Mget(keys) => Command::Mget(views(keys@)),
            Operation::Other => Command::Other,
            Operation::NotParsed => Command::NotParsed,
        }
    }
}

/// The number of commands that are executed at the same time.
pub const MAX_BGWORK_NUM: usize = 32;

/// The seconds that a connection waits for the reply to its command.
pub const RECEIVE_TIMEOUT_SECS: u64 = 10;

/// The bytes that one read from a connection can take.
pub const READ_BUFFER_LEN: usize = 40960;

/// Where a connection stands between its events.
#[derive(Clone, Copy, Debug, PartialEq, Eq, Structural)]
pub enum ClientState {
    /// Accepted; nothing was written yet.
    Fresh,
    /// Greeted; the next frame is awaited.
    Idle,
    /// A command was handed on; its reply is awaited.
    Waiting,
}

/// What happened on a connection.
#[derive(Debug)]
pub enum ClientEvent {
    /// The socket was accepted.
    Accepted,
    /// A read returned these bytes; none at the end of the stream.
    Frame(Vec<u8>),
    /// A read failed.
    ReadFailed,
    /// The reply to the command that was handed on.
    Reply(Vec<u8>),
    /// No reply came within `RECEIVE_TIMEOUT_SECS`.
    TimedOut,
}

/// What a connection is to do next.
#[derive(Debug)]
pub enum ClientAction {
    /// Write these bytes to the socket, then read from it.
    Write(Vec<u8>),
    /// Hand this frame on for execution and wait for the reply.
    Submit(Vec<u8>),
    /// Read from the socket.
    Read,
    /// Go on waiting for the reply.
    Wait,
}

/// A `ClientEvent` over mathematical byte strings.
pub enum EventModel {
    Accepted,
    Frame(Seq<u8>),
    ReadFailed,
    Reply(Seq<u8>),
    TimedOut,
}

/// A `ClientAction` over mathematical byte strings.
pub enum ActionModel {
    Write(Seq<u8>),
    Submit(Seq<u8>),
    Read,
    Wait,
}

impl View for ClientEvent {
    type V = EventModel;

    open spec fn view(&self) -> EventModel {
        match *self {
            ClientEvent::Accepted => EventModel::Accepted,
            ClientEvent::Frame(bytes) => EventModel::Frame(bytes@),
            ClientEvent::ReadFailed => EventModel::ReadFailed,
            ClientEvent::Reply(bytes) => EventModel::Reply(bytes@),
            ClientEvent::TimedOut => EventModel::TimedOut,
        }
    }
}

impl View for ClientAction {
    type V = ActionModel;

    open spec fn view(&self) -> ActionModel {
        match *self {
            ClientAction::Write(bytes) => ActionModel::Write(bytes@),
            ClientAction::Submit(bytes) => ActionModel::Submit(bytes@),
            ClientAction::Read => ActionModel::Read,
            ClientAction::Wait => ActionModel::Wait,
        }
    }
}

/// The state of a connection after `event`.
///
/// A fresh connection is greeted whatever comes first. An idle one hands on
/// each frame that holds bytes. A waiting one takes the reply or the
/// timeout and is idle again; nothing else moves it.
pub open spec fn next_state(state: ClientState, event: EventModel) -> ClientState {
    match state {
        ClientState::Fresh => ClientState::Idle,
        ClientState::Idle => match event {
            EventModel::Frame(bytes) => if bytes.len() > 0 {
                ClientState::Waiting
            } else {
                ClientState::Idle
            },
            _ => ClientState::Idle,
        },
        ClientState::Waiting => match event {
            EventModel::Reply(_) => ClientState::Idle,
            EventModel::TimedOut => ClientState::Idle,
            _ => ClientState::Waiting,
        },
    }
}

/// What a connection in `state` does on `event`.
///
/// The greeting `+OK` is written once, before any frame is handed on. A
/// reply is written as it came; a timeout is answered with
/// `-ReceiveTimeout`. The command goes on running after a timeout.
pub open spec fn next_action(state: ClientState, event: EventModel) -> ActionModel {
    match state {
        ClientState::Fresh => ActionModel::Write(ok_line()),
        ClientState::Idle => match event {
            EventModel::Frame(bytes) => if bytes.len() > 0 {
                ActionModel::Submit(bytes)
            } else {
                ActionModel::Read
            },
            _ => ActionModel::Read,
        },
        ClientState::Waiting => match event {
            EventModel::Reply(bytes) => ActionModel::Write(bytes),
            EventModel::TimedOut => ActionModel::Write(timeout_line()),
            _ => ActionModel::Wait,
        },
    }
}

/// One connection: its number and where it stands.
#[derive(Debug)]
pub struct Client {
    id: u64,
    state: ClientState,
}

impl Client {
    pub closed spec fn spec_id(&self) -> u64 {
        self.id
    }

    pub closed spec fn spec_state(&self) -> ClientState {
        self.state
    }

    /// A connection that was accepted and not yet greeted.
    pub fn new(id: u64) -> (client: Self)
        ensures
            client.spec_id() == id,
            client.spec_state() == ClientState::Fresh,
    {
        Client { id, state: ClientState::Fresh }
    }

    #[verifier::when_used_as_spec(spec_id)]
    pub fn id(&self) -> (id: u64)
        ensures
            id == self.spec_id(),
    {
        self.id
    }

    #[verifier::when_used_as_spec(spec_state)]
    pub fn state(&self) -> (state: ClientState)
        ensures
            state == self.spec_state(),
    {
        self.state
    }

    /// Takes `event` and says what to do next.
    pub fn step(&mut self, event: ClientEvent) -> (action: ClientAction)
        ensures
            final(self).id() == old(self).id(),
            final(self).state() == next_state(old(self).state(), event@),
            action@ == next_action(old(self).state(), event@),
    {
        match self.state {
            ClientState::Fresh => {
                self.state = ClientState::Idle;
                ClientAction::Write(ok_line_bytes())
            },
            ClientState::Idle => match event {
                ClientEvent::Frame(bytes) => {
                    if bytes.len() > 0 {
                        self.state = ClientState::Waiting;
                        ClientAction::Submit(bytes)
                    } else {
                        ClientAction::Read
                    }
                },
                _ => ClientAction::Read,
            },
            ClientState::Waiting => match event {
                ClientEvent::Reply(bytes) => {
                    self.state = ClientState::Idle;
                    ClientAction::Write(bytes)
                },
                ClientEvent::TimedOut => {
                    self.state = ClientState::Idle;
                    ClientAction::Write(timeout_line_bytes())
                },
                _ => ClientAction::Wait,
            },
        }
    }
}

/// A connection is greeted once: no event brings it back to where it was
/// when it was accepted, and only there is the greeting written unasked.
pub proof fn lemma_greeted_once(state: ClientState, event: EventModel)
    ensures
        next_state(state, event) != ClientState::Fresh,
        state == ClientState::Fresh ==> next_action(state, event) == ActionModel::Write(ok_line()),
        next_action(state, event) is Submit ==> state == ClientState::Idle,
{
}

/// A connection has one command under way at most: a frame is handed on
/// only by an idle connection, which then waits, and a waiting connection
/// reads nothing until the reply or the timeout has been written.
pub proof fn lemma_one_command_at_a_time(state: ClientState, event: EventModel)
    ensures
        next_action(state, event) is Submit ==> next_state(state, event) == ClientState::Waiting,
        state == ClientState::Waiting ==> !(next_action(state, event) is Submit) && !(next_action(
            state,
            event,
        ) is Read),
        state == ClientState::Waiting && next_state(state, event) == ClientState::Idle
            ==> next_action(state, event) is Write,
{
}

/// The connections of a server.
pub struct Server {
    client_seq: u64,
    port: String,
    connections: Vec<u64>,
}

impl Server {
    /// The number that the connections are counted from.
    pub closed spec fn seq(&self) -> u64 {
        self.client_seq
    }

    /// The numbers of the connections, oldest first.
    pub closed spec fn clients(&self) -> Seq<u64> {
        self.connections@
    }

    pub closed spec fn spec_port(&self) -> String {
        self.port
    }

    /// A server for `port` that has no connection yet.
    pub fn new(port: String) -> (server: Self)
        ensures
            server.seq() == 0,
            server.clients() == Seq::<u64>::empty(),
            server.spec_port() == port,
    {
        Server { client_seq: 0, port, connections: Vec::new() }
    }

    pub fn port(&self) -> (port: &String)
        ensures
            *port == self.spec_port(),
    {
        &self.port
    }

    /// How many connections were taken.
    pub fn connection_count(&self) -> (n: usize)
        ensures
            n == self.clients().len(),
    {
        self.connections.len()
    }

    /// Takes a connection: gives it the number after the server's own,
    /// which stays as it is, and keeps the connection's number.
    pub fn new_connection(&mut self) -> (client: Client)
        ensures
            client.id() == if old(self).seq() < u64::MAX {
                old(self).seq() + 1
            } else {
                u64::MAX as int
            },
            client.state() == ClientState::Fresh,
            final(self).seq() == old(self).seq(),
            final(self).spec_port() == old(self).spec_port(),
            final(self).clients() == old(self).clients().push(client.id()),
    {
        let client_id = match self.client_seq.checked_add(1) {
            Some(n) => n,
            None => u64::MAX,
        };
        self.connections.push(client_id);
        Client::new(client_id)
    }
}

} // verus!

