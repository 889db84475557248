use kvs::KvsError;
use kvs::record::{decode_bson, LogRecord};
use kvs::store::value_in;
use kvs::KvStore;

fn empty() -> KvStore {
    KvStore::open(Vec::new()).unwrap()
}

fn reopen(store: &KvStore) -> KvStore {
    KvStore::open(store.log().bytes().clone()).unwrap()
}

fn put(key: &str, val: &str) -> Vec<u8> {
    LogRecord::Put((key.to_owned(), val.to_owned()))
        .to_bytes()
        .unwrap()
}

fn rm(key: &str) -> Vec<u8> {
    LogRecord::Rm(key.to_owned()).to_bytes().unwrap()
}

fn s(text: &str) -> String {
    text.to_owned()
}

#[test]
fn set_then_get() {
    let mut store = empty();
    assert_eq!(store.get(s("k")), Ok(None));
    assert_eq!(store.set(s("k"), s("v")), Ok(()));
    assert_eq!(store.get(s("k")), Ok(Some(s("v"))));
    assert_eq!(store.get(s("other")), Ok(None));
    assert_eq!(store.set(s(""), s("")), Ok(()));
    assert_eq!(store.get(s("")), Ok(Some(s(""))));
}

#[test]
fn overwrite_wins() {
    let mut store = empty();
    assert_eq!(store.set(s("k"), s("a")), Ok(()));
    assert_eq!(store.set(s("k"), s("b")), Ok(()));
    assert_eq!(store.get(s("k")), Ok(Some(s("b"))));
}

#[test]
fn remove_then_get() {
    let mut store = empty();
    assert_eq!(store.set(s("k"), s("v")), Ok(()));
    assert_eq!(store.remove(s("k")), Ok(()));
    assert_eq!(store.get(s("k")), Ok(None));
}

#[test]
fn remove_missing_fails_and_writes_nothing() {
    let mut store = empty();
    assert_eq!(store.remove(s("k")), Err(KvsError::KeyNotFound));
    assert_eq!(store.log().len(), 0);
    assert_eq!(store.set(s("k"), s("v")), Ok(()));
    assert_eq!(store.remove(s("j")), Err(KvsError::KeyNotFound));
    assert_eq!(store.remove(s("k")), Ok(()));
    let before = store.log().bytes().clone();
    assert_eq!(store.remove(s("k")), Err(KvsError::KeyNotFound));
    assert_eq!(store.log().bytes(), &before);
}

#[test]
fn reopened_store_holds_the_same() {
    let mut store = empty();
    for (key, val) in [("a", "1"), ("b", "2"), ("c", "3"), ("a", "4"), ("d", "")] {
        assert_eq!(store.set(s(key), s(val)), Ok(()));
    }
    assert_eq!(store.remove(s("b")), Ok(()));
    assert_eq!(store.set(s("b"), s("5")), Ok(()));
    assert_eq!(store.remove(s("c")), Ok(()));
    let mut again = reopen(&store);
    assert_eq!(again.log().bytes(), store.log().bytes());
    for key in ["a", "b", "c", "d", "e", ""] {
        assert_eq!(again.get(s(key)), store.get(s(key)));
    }
    assert_eq!(again.get(s("a")), Ok(Some(s("4"))));
    assert_eq!(again.get(s("b")), Ok(Some(s("5"))));
    assert_eq!(again.get(s("c")), Ok(None));
    assert_eq!(again.get(s("d")), Ok(Some(s(""))));
}

#[test]
fn index_points_at_the_latest_record() {
    let mut store = empty();
    assert_eq!(store.offsets("a"), None);
    assert_eq!(store.set(s("a"), s("1")), Ok(()));
    assert_eq!(store.offsets("a"), Some((0, 33)));
    assert_eq!(store.set(s("b"), s("2")), Ok(()));
    assert_eq!(store.set(s("a"), s("3")), Ok(()));
    assert_eq!(store.offsets("a"), Some((66, 99)));
    assert_eq!(store.offsets("b"), Some((33, 66)));
    assert_eq!(store.remove(s("b")), Ok(()));
    assert_eq!(store.offsets("b"), None);
    assert_eq!(store.log().len(), 99 + 15);
    let again = reopen(&store);
    assert_eq!(again.offsets("a"), Some((66, 99)));
    assert_eq!(again.offsets("b"), None);
    let log = store.log().bytes();
    assert_eq!(value_in(&log[66..99]), Ok(s("3")));
    assert_eq!(&log[66..99], &put("a", "3")[..]);
}

#[test]
fn log_grows_by_each_record() {
    let mut store = empty();
    let mut expected = Vec::new();
    assert_eq!(store.set(s("a"), s("1")), Ok(()));
    expected.extend(put("a", "1"));
    assert_eq!(store.log().len(), expected.len() as u64);
    assert_eq!(store.set(s("a"), s("22")), Ok(()));
    expected.extend(put("a", "22"));
    assert_eq!(store.log().len(), expected.len() as u64);
    assert_eq!(store.get(s("a")), Ok(Some(s("22"))));
    assert_eq!(store.log().len(), expected.len() as u64);
    assert_eq!(store.remove(s("a")), Ok(()));
    expected.extend(rm("a"));
    assert_eq!(store.log().len(), expected.len() as u64);
    assert_eq!(store.remove(s("a")), Err(KvsError::KeyNotFound));
    assert_eq!(store.log().len(), expected.len() as u64);
    assert_eq!(store.log().bytes(), &expected);
    assert_eq!(expected.len(), 33 + 34 + 15);
}

#[test]
fn scan_stops_at_the_end_of_the_log() {
    let mut store = empty();
    assert_eq!(store.set(s("a"), s("1")), Ok(()));
    assert_eq!(store.set(s("bb"), s("two")), Ok(()));
    assert_eq!(store.remove(s("a")), Ok(()));
    let log = store.log().bytes().clone();
    let mut pos = 0;
    let mut records = Vec::new();
    while let Some((record, count)) = decode_bson(&log, pos).unwrap() {
        records.push(record);
        pos += count;
    }
    assert_eq!(pos, log.len());
    assert_eq!(
        records,
        vec![
            LogRecord::Put((s("a"), s("1"))),
            LogRecord::Put((s("bb"), s("two"))),
            LogRecord::Rm(s("a")),
        ]
    );
}

#[test]
fn end_to_end() {
    let mut store = empty();
    assert_eq!(store.set(s("a"), s("1")), Ok(()));
    assert_eq!(store.set(s("b"), s("2")), Ok(()));
    assert_eq!(store.set(s("a"), s("3")), Ok(()));
    assert_eq!(store.remove(s("b")), Ok(()));
    let mut store = reopen(&store);
    assert_eq!(store.get(s("a")), Ok(Some(s("3"))));
    assert_eq!(store.get(s("b")), Ok(None));
    assert_eq!(store.remove(s("b")), Err(KvsError::KeyNotFound));
}

#[test]
fn store_is_built_from_the_bytes_of_a_log() {
    let mut log = put("a", "1");
    log.extend(put("b", "2"));
    log.extend(rm("a"));
    log.extend(rm("zz"));
    log.extend(put("b", "3"));
    let mut store = KvStore::open(log.clone()).unwrap();
    assert_eq!(store.get(s("a")), Ok(None));
    assert_eq!(store.get(s("b")), Ok(Some(s("3"))));
    assert_eq!(store.get(s("zz")), Ok(None));
    assert_eq!(store.log().bytes(), &log);
}

#[test]
fn log_that_is_cut_short_is_corrupt() {
    let mut log = put("a", "1");
    log.extend(put("b", "2"));
    for cut in 1..log.len() {
        if cut == 33 {
            assert!(KvStore::open(log[..cut].to_vec()).is_ok());
        } else {
            assert_eq!(
                KvStore::open(log[..cut].to_vec()).err(),
                Some(KvsError::Corrupt)
            );
        }
    }
    assert_eq!(
        KvStore::open(vec![1, 2, 3]).err(),
        Some(KvsError::Corrupt)
    );
    log.push(0);
    assert_eq!(KvStore::open(log).err(), Some(KvsError::Corrupt));
}

#[test]
fn value_is_read_from_the_record_that_sets_it() {
    assert_eq!(value_in(&put("k", "v")), Ok(s("v")));
    assert_eq!(value_in(&rm("k")), Err(KvsError::UnexpectedRecord));
    assert_eq!(value_in(&[]), Err(KvsError::EndOfBytes));
    assert_eq!(value_in(&[1, 2, 3]), Err(KvsError::Corrupt));
}

#[test]
fn value_that_is_too_large_leaves_the_store() {
    let mut store = empty();
    assert_eq!(store.set(s("k"), s("v")), Ok(()));
    let before = store.log().bytes().clone();
    let long = "a".repeat(0x7fff_ffff);
    assert_eq!(store.set(s("k"), long), Err(KvsError::TooLarge));
    assert_eq!(store.log().bytes(), &before);
    assert_eq!(store.get(s("k")), Ok(Some(s("v"))));
}
