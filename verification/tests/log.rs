use kvs::{read_with_offset, InDiskLogV1};
use kvs::record::LogRecord;

#[test]
fn test_read_offset() {
    let data = vec![0x0, 0x1, 0x2, 0x3, 0x4, 0x5, 0x6, 0x7, 0x8, 0x9];
    let mock = data.clone();
    let out = read_with_offset(&mock, 0, 10);
    assert_eq!(out, &data[0..10]);
    let out = read_with_offset(&mock, 3, 7);
    assert_eq!(out, &data[3..7]);
}

#[test]
fn read_stops_where_the_log_ends() {
    let data = vec![1u8, 2, 3, 4];
    assert_eq!(read_with_offset(&data, 2, 9), vec![3, 4]);
    assert_eq!(read_with_offset(&data, 4, 9), Vec::<u8>::new());
    assert_eq!(read_with_offset(&data, 7, 9), Vec::<u8>::new());
    assert_eq!(read_with_offset(&data, 2, 2), Vec::<u8>::new());
    assert_eq!(read_with_offset(&data, 0, u64::MAX), data);
    assert_eq!(read_with_offset(&[], 0, 0), Vec::<u8>::new());
}

#[test]
fn log_answers_where_the_record_stands() {
    let mut log = InDiskLogV1::new(Vec::new());
    assert_eq!(log.len(), 0);
    let first = LogRecord::Put(("a".to_owned(), "1".to_owned()))
        .to_bytes()
        .unwrap();
    let second = LogRecord::Put(("b".to_owned(), "22".to_owned()))
        .to_bytes()
        .unwrap();
    assert_eq!(log.set("a", "1"), Ok((0, first.len() as u64)));
    assert_eq!(
        log.set("b", "22"),
        Ok((first.len() as u64, (first.len() + second.len()) as u64))
    );
    assert_eq!(log.len(), (first.len() + second.len()) as u64);
    assert_eq!(log.get(0, first.len() as u64), first);
    assert_eq!(log.get(first.len() as u64, log.len()), second);
    let mut both = first.clone();
    both.extend(second.clone());
    assert_eq!(log.bytes(), &both);
}

#[test]
fn log_appends_what_removes_a_key() {
    let mut log = InDiskLogV1::new(vec![15, 0, 0, 0, 2, b'R', b'm', 0, 2, 0, 0, 0, b'a', 0, 0]);
    assert_eq!(log.rm("b"), Ok(()));
    assert_eq!(
        log.bytes(),
        &vec![
            15, 0, 0, 0, 2, b'R', b'm', 0, 2, 0, 0, 0, b'a', 0, 0, 15, 0, 0, 0, 2, b'R', b'm', 0,
            2, 0, 0, 0, b'b', 0, 0
        ]
    );
    assert_eq!(
        log.append_record(LogRecord::Rm("c".to_owned())),
        Ok((30, 45))
    );
}
