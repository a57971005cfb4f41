use tikv_redis::executor::{
    append_plan, carry_out, get_range_reply, getset_plan, serve, set_range_plan, strlen_reply,
    Executor, Plan,
};
use tikv_redis::redis_server::{DBError, Operation, DB};
use tikv_redis::simple_mem_db::SimpleMemDB;

fn frame(words: &[&str]) -> Vec<u8> {
    let mut out = format!("*{}\r\n", words.len());
    for word in words {
        out += &format!("${}\r\n{}\r\n", word.len(), word);
    }
    out.into_bytes()
}

fn run<E: DB>(db: &mut E, words: &[&str]) -> String {
    String::from_utf8(serve(db, frame(words))).unwrap()
}

fn parsed(raw: &[u8]) -> Option<Operation> {
    let mut executor = Executor::new(raw.to_vec());
    match executor.parse() {
        Ok(()) => Some(executor.operation().clone()),
        Err(_) => {
            assert!(matches!(executor.operation(), Operation::NotParsed));
            None
        }
    }
}

#[test]
fn a_new_executor_holds_no_command() {
    let executor = Executor::new(frame(&["get", "a"]));
    assert!(matches!(executor.operation(), Operation::NotParsed));
}

#[test]
fn verbs_are_read_without_regard_to_case() {
    assert!(matches!(parsed(&frame(&["GET", "k"])), Some(Operation::Get(k)) if k == b"k"));
    assert!(matches!(parsed(&frame(&["gEt", "k"])), Some(Operation::Get(k)) if k == b"k"));
    assert!(matches!(parsed(&frame(&["strlen", "k"])), Some(Operation::StrLen(k)) if k == b"k"));
}

#[test]
fn every_verb_is_read_with_its_arguments() {
    assert!(matches!(
        parsed(&frame(&["set", "k", "v"])),
        Some(Operation::SetValue(k, v, false)) if k == b"k" && v == b"v"
    ));
    assert!(matches!(
        parsed(&frame(&["setnx", "k", "v"])),
        Some(Operation::SetValue(k, v, true)) if k == b"k" && v == b"v"
    ));
    assert!(matches!(
        parsed(&frame(&["getset", "k", "v"])),
        Some(Operation::GetSet(k, v)) if k == b"k" && v == b"v"
    ));
    assert!(matches!(
        parsed(&frame(&["append", "k", "v"])),
        Some(Operation::Append(k, v)) if k == b"k" && v == b"v"
    ));
    assert!(matches!(
        parsed(&frame(&["setrange", "k", "12", "data"])),
        Some(Operation::SetRange(k, 12, d)) if k == b"k" && d == b"data"
    ));
    assert!(matches!(
        parsed(&frame(&["getrange", "k", "-3", "+7"])),
        Some(Operation::GetRange(k, -3, 7)) if k == b"k"
    ));
    assert!(matches!(
        parsed(&frame(&["mget", "a", "b", "c"])),
        Some(Operation::Mget(keys)) if keys == vec![b"a".to_vec(), b"b".to_vec(), b"c".to_vec()]
    ));
    assert!(matches!(
        parsed(&frame(&["mset", "a", "1", "b", "2"])),
        Some(Operation::Mset(kvs))
            if kvs == vec![(b"a".to_vec(), b"1".to_vec()), (b"b".to_vec(), b"2".to_vec())]
    ));
}

#[test]
fn an_unknown_verb_is_not_parsed() {
    assert!(matches!(parsed(&frame(&["del", "k"])), Some(Operation::NotParsed)));
    assert!(matches!(parsed(&frame(&["", "k"])), Some(Operation::NotParsed)));
    let mut db = SimpleMemDB::new();
    assert_eq!(run(&mut db, &["del", "k"]), "-UNKNOWN COMMAND\r\n");
}

#[test]
fn a_frame_without_a_command_fails_the_parse() {
    assert!(parsed(b"").is_none());
    assert!(parsed(b"*1\r\n$3").is_none());
    assert!(parsed(b"\r\n\r\n").is_none());
    assert!(parsed(b"*x\r\n$3\r\nget\r\n$1\r\nk\r\n").is_none());
    assert!(parsed(b"*65536\r\n$3\r\nget\r\n$1\r\nk\r\n").is_none());
    assert!(parsed(b"\r\n$3\r\nget\r\n$1\r\nk\r\n").is_none());
    let mut db = SimpleMemDB::new();
    assert_eq!(String::from_utf8(serve(&mut db, b"nonsense".to_vec())).unwrap(), "-UNKNOWN COMMAND\r\n");
}

#[test]
fn the_count_line_may_carry_any_number_of_stars() {
    assert!(matches!(parsed(b"***2\r\n$3\r\nget\r\n$1\r\nk\r\n"), Some(Operation::Get(_))));
    assert!(matches!(parsed(b"2\r\n$3\r\nget\r\n$1\r\nk\r\n"), Some(Operation::Get(_))));
    assert!(matches!(parsed(b"*65535\r\n$3\r\nget\r\n$1\r\nk\r\n"), Some(Operation::Get(_))));
}

#[test]
fn a_missing_argument_fails_the_parse() {
    assert!(parsed(&frame(&["get"])).is_none());
    assert!(parsed(&frame(&["strlen"])).is_none());
    assert!(parsed(&frame(&["set", "k"])).is_none());
    assert!(parsed(&frame(&["getset", "k"])).is_none());
    assert!(parsed(&frame(&["append", "k"])).is_none());
    assert!(parsed(&frame(&["setrange", "k", "1"])).is_none());
    assert!(parsed(&frame(&["getrange", "k", "1"])).is_none());
    assert!(parsed(&frame(&["mset", "k"])).is_none());
    assert!(parsed(&frame(&["mset", "a", "1", "b"])).is_none());
}

#[test]
fn a_malformed_number_fails_the_parse() {
    assert!(parsed(&frame(&["setrange", "k", "x", "d"])).is_none());
    assert!(parsed(&frame(&["setrange", "k", "-1", "d"])).is_none());
    assert!(parsed(&frame(&["setrange", "k", "", "d"])).is_none());
    assert!(parsed(&frame(&["setrange", "k", "99999999999999999999999", "d"])).is_none());
    assert!(parsed(&frame(&["getrange", "k", "a", "1"])).is_none());
    assert!(parsed(&frame(&["getrange", "k", "1", "b"])).is_none());
    assert!(parsed(&frame(&["getrange", "k", "2147483648", "1"])).is_none());
    let mut db = SimpleMemDB::new();
    assert_eq!(run(&mut db, &["getrange", "k", "a", "1"]), "-UNKNOWN COMMAND\r\n");
}

#[test]
fn an_empty_last_argument_is_lost_with_the_white_space() {
    assert!(parsed(&frame(&["set", "k", ""])).is_none());
    assert!(matches!(
        parsed(&frame(&["set", "k", "v "])),
        Some(Operation::SetValue(k, v, false)) if k == b"k" && v == b"v"
    ));
    assert!(matches!(
        parsed(&frame(&["set", "", "v"])),
        Some(Operation::SetValue(k, v, false)) if k == b"" && v == b"v"
    ));
}

#[test]
fn white_space_around_a_frame_is_dropped() {
    assert!(matches!(
        parsed(b"  *2\r\n$3\r\nget\r\n$1\r\nk\r\n\r\n \t"),
        Some(Operation::Get(k)) if k == b"k"
    ));
}

#[test]
fn bytes_behind_the_last_line_break_are_passed_over() {
    let mut raw = frame(&["mget", "a", "b"]);
    raw.extend_from_slice(&[0u8; 16]);
    assert!(matches!(
        parsed(&raw),
        Some(Operation::Mget(keys)) if keys == vec![b"a".to_vec(), b"b".to_vec()]
    ));
}

#[test]
fn lists_without_items_are_read_as_empty() {
    assert!(matches!(parsed(&frame(&["mget"])), Some(Operation::Mget(keys)) if keys.is_empty()));
    assert!(matches!(parsed(&frame(&["mset"])), Some(Operation::Mset(kvs)) if kvs.is_empty()));
    let mut db = SimpleMemDB::new();
    assert_eq!(run(&mut db, &["mget"]), "*0\r\n");
    assert_eq!(run(&mut db, &["mset"]), "+OK\r\n");
}

#[test]
fn a_command_that_is_not_served_says_so() {
    let mut db = SimpleMemDB::new();
    let executor = Executor::for_operation(Operation::Other);
    assert_eq!(executor.exec_command(&mut db), b"-NOT SUPPORTED\r\n".to_vec());
    let executor = Executor::for_operation(Operation::NotParsed);
    assert_eq!(executor.exec_command(&mut db), b"-UNKNOWN COMMAND\r\n".to_vec());
    let executor = Executor::for_operation(Operation::SetValue(b"k".to_vec(), b"".to_vec(), true));
    assert_eq!(executor.exec_command(&mut db), b"+OK\r\n".to_vec());
    let executor = Executor::for_operation(Operation::Get(b"k".to_vec()));
    assert_eq!(executor.exec_command(&mut db), b"*1\r\n$0\r\n\r\n".to_vec());
}

#[test]
fn commands_can_be_called_by_name() {
    let mut db = SimpleMemDB::new();
    assert_eq!(Executor::set(&mut db, &vec![]), b"+OK\r\n".to_vec());
    assert_eq!(
        Executor::gen_multi_reply(&vec![b"a".to_vec()]),
        b"*1\r\n$1\r\na\r\n".to_vec()
    );
}

#[test]
fn set_then_get_returns_the_value() {
    let mut db = SimpleMemDB::new();
    for (key, value) in [("k", "v"), ("k", "other"), ("long key", "x"), ("e", "")] {
        assert_eq!(
            Executor::set(&mut db, &vec![(key.as_bytes().to_vec(), value.as_bytes().to_vec())]),
            b"+OK\r\n".to_vec()
        );
        assert_eq!(
            String::from_utf8(Executor::get(&db, &vec![key.as_bytes().to_vec()])).unwrap(),
            format!("*1\r\n${}\r\n{}\r\n", value.len(), value)
        );
    }
}

#[test]
fn setnx_writes_like_set() {
    let mut db = SimpleMemDB::new();
    assert_eq!(run(&mut db, &["set", "k", "old"]), "+OK\r\n");
    assert_eq!(run(&mut db, &["setnx", "k", "new"]), "+OK\r\n");
    assert_eq!(run(&mut db, &["get", "k"]), "*1\r\n$3\r\nnew\r\n");
}

#[test]
fn mget_fails_as_a_whole_where_a_key_is_missing() {
    let mut db = SimpleMemDB::new();
    assert_eq!(run(&mut db, &["mset", "a", "1", "c", "3"]), "+OK\r\n");
    assert_eq!(run(&mut db, &["mget", "a", "b", "c"]), "-FAILED\r\n");
    assert_eq!(run(&mut db, &["mget", "b"]), "-FAILED\r\n");
    assert_eq!(run(&mut db, &["mget", "c", "a", "c"]), "*3\r\n$1\r\n3\r\n$1\r\n1\r\n$1\r\n3\r\n");
}

#[test]
fn mset_writes_in_order() {
    let mut db = SimpleMemDB::new();
    assert_eq!(run(&mut db, &["mset", "a", "1", "a", "2"]), "+OK\r\n");
    assert_eq!(run(&mut db, &["get", "a"]), "*1\r\n$1\r\n2\r\n");
}

#[test]
fn getset_returns_the_prior_value_and_stores_the_new_one() {
    let mut db = SimpleMemDB::new();
    assert_eq!(run(&mut db, &["set", "k", "v1"]), "+OK\r\n");
    assert_eq!(run(&mut db, &["getset", "k", "v2"]), "+v1\r\n");
    assert_eq!(run(&mut db, &["get", "k"]), "*1\r\n$2\r\nv2\r\n");
    assert_eq!(run(&mut db, &["getset", "fresh", "v3"]), "+v3\r\n");
    assert_eq!(run(&mut db, &["get", "fresh"]), "*1\r\n$2\r\nv3\r\n");
}

#[test]
fn append_does_not_create_a_key() {
    let mut db = SimpleMemDB::new();
    assert_eq!(run(&mut db, &["append", "k", "x"]), "-FAILED NOT FOUND\r\n");
    assert_eq!(run(&mut db, &["get", "k"]), "-FAILED\r\n");
    assert_eq!(run(&mut db, &["set", "k", "old"]), "+OK\r\n");
    assert_eq!(run(&mut db, &["append", "k", "+suffix"]), "+OK\r\n");
    assert_eq!(run(&mut db, &["get", "k"]), "*1\r\n$10\r\nold+suffix\r\n");
}

#[test]
fn strlen_counts_bytes() {
    let mut db = SimpleMemDB::new();
    assert_eq!(run(&mut db, &["strlen", "k"]), "-FAILED NOT FOUND\r\n");
    assert_eq!(Executor::set(&mut db, &vec![(b"k".to_vec(), b"".to_vec())]), b"+OK\r\n".to_vec());
    assert_eq!(run(&mut db, &["strlen", "k"]), "+0\r\n");
    assert_eq!(run(&mut db, &["set", "k", "0123456789ab"]), "+OK\r\n");
    assert_eq!(run(&mut db, &["strlen", "k"]), "+12\r\n");
    assert_eq!(run(&mut db, &["set", "k", "\u{e4}\u{f6}"]), "+OK\r\n");
    assert_eq!(run(&mut db, &["strlen", "k"]), "+4\r\n");
}

#[test]
fn getrange_on_a_missing_key_fails() {
    let mut db = SimpleMemDB::new();
    assert_eq!(run(&mut db, &["getrange", "k", "0", "1"]), "-FAILED NOT FOUND\r\n");
}

#[test]
fn setrange_leaves_the_written_value() {
    let mut db = SimpleMemDB::new();
    assert_eq!(run(&mut db, &["set", "me", "18696192030"]), "+OK\r\n");
    assert_eq!(run(&mut db, &["setrange", "me", "4", "00"]), "+11\r\n");
    assert_eq!(run(&mut db, &["get", "me"]), "*1\r\n$11\r\n18690092030\r\n");
    assert_eq!(run(&mut db, &["setrange", "me", "11", "++++++"]), "+17\r\n");
    assert_eq!(run(&mut db, &["get", "me"]), "*1\r\n$17\r\n18690092030++++++\r\n");
    assert_eq!(run(&mut db, &["setrange", "me", "15", "abc"]), "+18\r\n");
    assert_eq!(run(&mut db, &["get", "me"]), "*1\r\n$18\r\n18690092030++++abc\r\n");
    assert_eq!(run(&mut db, &["setrange", "empty", "5", "hahhaha"]), "+12\r\n");
    assert_eq!(run(&mut db, &["get", "empty"]), "*1\r\n$12\r\n\0\0\0\0\0hahhaha\r\n");
}

#[test]
fn replies_are_built_from_what_a_read_returned() {
    assert_eq!(strlen_reply(Ok(b"abc".to_vec())), b"+3\r\n".to_vec());
    assert_eq!(strlen_reply(Err(DBError::NotFound)), b"-FAILED NOT FOUND\r\n".to_vec());
    assert_eq!(strlen_reply(Err(DBError::Other)), b"-FAILED BY ERROR\r\n".to_vec());
    assert_eq!(
        strlen_reply(Err(DBError::AlreadyExited("k".to_string()))),
        b"-FAILED BY ERROR\r\n".to_vec()
    );
    assert_eq!(get_range_reply(Ok(b"abcdef".to_vec()), 1, 3), b"+bc\r\n".to_vec());
    assert_eq!(get_range_reply(Err(DBError::NotFound), 1, 3), b"-FAILED NOT FOUND\r\n".to_vec());
    assert_eq!(get_range_reply(Err(DBError::Other), 1, 3), b"-FAILED BY ERROR\r\n".to_vec());
}

fn write_of(plan: Plan) -> Option<(Vec<u8>, Vec<u8>)> {
    match plan {
        Plan::Write(value, reply) => Some((value, reply)),
        Plan::Stop(_) => None,
    }
}

fn stop_of(plan: Plan) -> Option<Vec<u8>> {
    match plan {
        Plan::Write(_, _) => None,
        Plan::Stop(reply) => Some(reply),
    }
}

#[test]
fn plans_are_made_from_what_a_read_returned() {
    assert_eq!(
        write_of(getset_plan(Ok(b"old".to_vec()), b"new".to_vec())),
        Some((b"new".to_vec(), b"+old\r\n".to_vec()))
    );
    assert_eq!(
        write_of(getset_plan(Err(DBError::NotFound), b"new".to_vec())),
        Some((b"new".to_vec(), b"+new\r\n".to_vec()))
    );
    assert_eq!(
        stop_of(getset_plan(Err(DBError::Other), b"new".to_vec())),
        Some(b"-FAILED BY ERROR\r\n".to_vec())
    );
    assert_eq!(
        write_of(append_plan(Ok(b"old".to_vec()), b"new".to_vec())),
        Some((b"oldnew".to_vec(), b"+OK\r\n".to_vec()))
    );
    assert_eq!(
        stop_of(append_plan(Err(DBError::NotFound), b"new".to_vec())),
        Some(b"-FAILED NOT FOUND\r\n".to_vec())
    );
    assert_eq!(
        stop_of(append_plan(Err(DBError::Other), b"new".to_vec())),
        Some(b"-FAILED BY ERROR\r\n".to_vec())
    );
    assert_eq!(
        write_of(set_range_plan(Ok(b"hello".to_vec()), 1, b"EL".to_vec())),
        Some((b"hELlo".to_vec(), b"+5\r\n".to_vec()))
    );
    assert_eq!(
        write_of(set_range_plan(Err(DBError::NotFound), 2, b"x".to_vec())),
        Some((b"\0\0x".to_vec(), b"+3\r\n".to_vec()))
    );
    assert_eq!(
        stop_of(set_range_plan(Err(DBError::Other), 2, b"x".to_vec())),
        Some(b"-FAILED BY ERROR\r\n".to_vec())
    );
}

/// A backend that reads well and refuses every write.
struct ReadOnly(SimpleMemDB);

impl DB for ReadOnly {
    fn raw_put(&mut self, _key: Vec<u8>, _value: Vec<u8>) -> Result<Vec<u8>, DBError> {
        Err(DBError::Other)
    }

    fn raw_get(&self, key: Vec<u8>) -> Result<Vec<u8>, DBError> {
        self.0.raw_get(key)
    }
}

#[test]
fn a_write_that_fails_gives_a_failure_line() {
    let mut inner = SimpleMemDB::new();
    assert_eq!(run(&mut inner, &["set", "k", "v"]), "+OK\r\n");
    let mut db = ReadOnly(inner);
    assert_eq!(run(&mut db, &["get", "k"]), "*1\r\n$1\r\nv\r\n");
    assert_eq!(run(&mut db, &["set", "k", "w"]), "-FAILED\r\n");
    assert_eq!(run(&mut db, &["mset", "a", "1", "b", "2"]), "-FAILED\r\n");
    assert_eq!(run(&mut db, &["getset", "k", "w"]), "-FAILED BY ERROR\r\n");
    assert_eq!(run(&mut db, &["getset", "none", "w"]), "-FAILED BY ERROR\r\n");
    assert_eq!(run(&mut db, &["append", "k", "w"]), "-FAILED BY ERROR\r\n");
    assert_eq!(run(&mut db, &["append", "none", "w"]), "-FAILED NOT FOUND\r\n");
    assert_eq!(run(&mut db, &["setrange", "k", "0", "w"]), "-FAILED BY ERROR\r\n");
    assert_eq!(run(&mut db, &["get", "k"]), "*1\r\n$1\r\nv\r\n");
    assert_eq!(
        carry_out(&mut db, b"k".to_vec(), Plan::Stop(b"+x\r\n".to_vec())),
        b"+x\r\n".to_vec()
    );
    assert_eq!(
        carry_out(&mut db, b"k".to_vec(), Plan::Write(b"v".to_vec(), b"+x\r\n".to_vec())),
        b"-FAILED BY ERROR\r\n".to_vec()
    );
}

#[test]
fn the_memory_backend_keeps_what_is_put() {
    let mut db = SimpleMemDB::new();
    assert!(matches!(db.raw_get(b"k".to_vec()), Err(DBError::NotFound)));
    assert_eq!(db.raw_put(b"k".to_vec(), b"v".to_vec()).unwrap(), b"Ok".to_vec());
    assert_eq!(db.raw_put(b"j".to_vec(), b"w".to_vec()).unwrap(), b"Ok".to_vec());
    assert_eq!(db.raw_get(b"k".to_vec()).unwrap(), b"v".to_vec());
    assert_eq!(db.raw_put(b"k".to_vec(), b"x".to_vec()).unwrap(), b"Ok".to_vec());
    assert_eq!(db.raw_get(b"k".to_vec()).unwrap(), b"x".to_vec());
    assert_eq!(db.raw_get(b"j".to_vec()).unwrap(), b"w".to_vec());
    assert!(matches!(db.raw_get(b"".to_vec()), Err(DBError::NotFound)));
    let copy = db.clone();
    assert_eq!(db.raw_put(b"k".to_vec(), b"y".to_vec()).unwrap(), b"Ok".to_vec());
    assert_eq!(copy.raw_get(b"k".to_vec()).unwrap(), b"x".to_vec());
    db.txn_put();
    db.txn_get();
}
