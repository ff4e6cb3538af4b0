use crate_spec::error::CrateSpecError;
use crate_spec::utils::strtab::StringTable;

#[test]
fn new_table_holds_the_empty_string_at_zero() {
    let mut t = StringTable::new();
    assert_eq!(t.total_bytes(), 4);
    assert_eq!(t.insert_str(String::new()), 0);
    assert_eq!(t.str_by_off(&0).unwrap(), "");
    assert_eq!(t.to_bytes(), vec![0u8, 0, 0, 0]);
    assert!(t.contains_str(&String::new()));
}

#[test]
fn insert_is_idempotent_and_offsets_are_stable() {
    let mut t = StringTable::new();
    let foo = t.insert_str("foo".to_string());
    let bar = t.insert_str("bar".to_string());
    assert_eq!(foo, 4);
    assert_eq!(bar, 11);
    assert_eq!(t.insert_str("foo".to_string()), foo);
    assert_eq!(t.insert_str("bar".to_string()), bar);
    assert_eq!(t.insert_str(String::new()), 0);
    assert_eq!(t.total_bytes(), 18);
    assert_eq!(t.str_by_off(&foo).unwrap(), "foo");
    assert_eq!(t.str_by_off(&bar).unwrap(), "bar");
    assert_eq!(t.off_by_str(&"bar".to_string()).unwrap(), 11);
}

#[test]
fn to_bytes_writes_length_prefixed_entries_in_offset_order() {
    let mut t = StringTable::new();
    t.insert_str("ab".to_string());
    t.insert_str("é".to_string());
    assert_eq!(
        t.to_bytes(),
        vec![0, 0, 0, 0, 2, 0, 0, 0, b'a', b'b', 2, 0, 0, 0, 0xc3, 0xa9]
    );
}

#[test]
fn read_bytes_gives_back_what_to_bytes_wrote() {
    let mut t = StringTable::new();
    t.insert_str("name".to_string());
    t.insert_str("1.0.0".to_string());
    let bytes = t.to_bytes();
    let mut u = StringTable::new();
    u.read_bytes(&bytes).unwrap();
    assert_eq!(u.to_bytes(), bytes);
    assert_eq!(u.total_bytes(), bytes.len() as u32);
    assert_eq!(u.str_by_off(&4).unwrap(), "name");
    assert_eq!(u.str_by_off(&12).unwrap(), "1.0.0");
    assert_eq!(u.insert_str("name".to_string()), 4);
    assert_eq!(u.insert_str("new".to_string()), 21);
}

#[test]
fn read_bytes_of_nothing_leaves_the_table() {
    let mut t = StringTable::new();
    t.read_bytes(&[]).unwrap();
    assert_eq!(t.str_by_off(&0).unwrap(), "");
    assert_eq!(t.to_bytes(), vec![0u8, 0, 0, 0]);
}

#[test]
fn unknown_offset_is_a_decode_error() {
    let mut t = StringTable::new();
    t.insert_str("foo".to_string());
    for off in [1u32, 3, 5, 11, 100] {
        match t.str_by_off(&off) {
            Err(CrateSpecError::DecodeError(m)) => assert_eq!(m, "unknown offset"),
            other => panic!("offset {}: expected a decode error, got {:?}", off, other),
        }
    }
}

#[test]
fn unknown_string_has_no_offset() {
    let t = StringTable::new();
    assert!(!t.contains_str(&"x".to_string()));
    assert!(matches!(t.off_by_str(&"x".to_string()), Err(CrateSpecError::Other(_))));
}

#[test]
fn truncated_table_is_a_decode_error() {
    let mut t = StringTable::new();
    assert!(matches!(t.read_bytes(&[0, 0, 0]), Err(CrateSpecError::DecodeError(_))));
    assert!(matches!(
        t.read_bytes(&[0, 0, 0, 0, 3, 0, 0, 0, b'a', b'b']),
        Err(CrateSpecError::DecodeError(_))
    ));
    // the entry before the one at fault was read: it is the one that was there
    assert_eq!(t.to_bytes(), vec![0u8, 0, 0, 0]);
}

#[test]
fn what_was_inserted_stays_when_bytes_are_read() {
    let mut t = StringTable::new();
    assert_eq!(t.insert_str("abc".to_string()), 4);
    t.read_bytes(&StringTable::new().to_bytes()).unwrap();
    assert!(t.contains_str(&"abc".to_string()));
    assert_eq!(t.off_by_str(&"abc".to_string()).unwrap(), 4);
    assert_eq!(t.str_by_off(&4).unwrap(), "abc");
    assert_eq!(t.str_by_off(&0).unwrap(), "");
    // the bytes are counted up to the end of what was read
    assert_eq!(t.total_bytes(), 4);
    assert_eq!(t.to_bytes(), vec![0, 0, 0, 0, 3, 0, 0, 0, b'a', b'b', b'c']);
}

#[test]
fn an_entry_that_is_read_takes_the_place_of_the_one_at_its_offset() {
    let mut t = StringTable::new();
    assert_eq!(t.insert_str("foo".to_string()), 4);
    let mut other = StringTable::new();
    assert_eq!(other.insert_str("barbaz".to_string()), 4);
    assert_eq!(other.insert_str("foo".to_string()), 14);
    t.read_bytes(&other.to_bytes()).unwrap();
    assert_eq!(t.str_by_off(&4).unwrap(), "barbaz");
    assert_eq!(t.str_by_off(&14).unwrap(), "foo");
    assert_eq!(t.off_by_str(&"foo".to_string()).unwrap(), 14);
    assert_eq!(t.off_by_str(&"barbaz".to_string()).unwrap(), 4);
    assert_eq!(t.insert_str("foo".to_string()), 14);
    assert_eq!(t.total_bytes(), 21);
    assert_eq!(t.to_bytes(), other.to_bytes());
}

#[test]
fn the_entries_before_the_one_at_fault_are_read() {
    let mut t = StringTable::new();
    assert!(matches!(
        t.read_bytes(&[2, 0, 0, 0, b'a', b'b', 9, 0, 0, 0, b'x']),
        Err(CrateSpecError::DecodeError(_))
    ));
    assert!(t.contains_str(&"ab".to_string()));
    assert!(t.contains_str(&String::new()));
    assert_eq!(t.str_by_off(&0).unwrap(), "ab");
    assert_eq!(t.off_by_str(&String::new()).unwrap(), 0);
    assert_eq!(t.total_bytes(), 6);
    assert!(!t.contains_str(&"x".to_string()));
}

#[test]
fn entries_are_written_in_ascending_order_of_offset() {
    let mut t = StringTable::new();
    // the empty string again, at another offset
    t.read_bytes(&[1, 0, 0, 0, b'q', 0, 0, 0, 0]).unwrap();
    assert_eq!(t.off_by_str(&String::new()).unwrap(), 5);
    assert_eq!(t.insert_str(String::new()), 5);
    assert_eq!(t.insert_str("zz".to_string()), 9);
    assert_eq!(t.to_bytes(), vec![1, 0, 0, 0, b'q', 0, 0, 0, 0, 2, 0, 0, 0, b'z', b'z']);
}

#[test]
fn table_with_invalid_utf8_is_a_decode_error() {
    let mut t = StringTable::new();
    assert!(matches!(
        t.read_bytes(&[0, 0, 0, 0, 2, 0, 0, 0, 0xff, 0xfe]),
        Err(CrateSpecError::DecodeError(_))
    ));
}

#[test]
fn default_table_is_a_new_table() {
    let t = StringTable::default();
    assert_eq!(t.to_bytes(), StringTable::new().to_bytes());
}
