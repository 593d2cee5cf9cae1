//! Tests for the bounded output buffer and the text buffer.

use surena_game::ptr_vec::{PtrVec, Storage, StrBuf};

#[test]
fn storage_backs_a_ptr_vec() {
    let mut storage: Storage<i32> = Storage::new(3);
    let mut ptr_vec = storage.get_ptr_vec();
    assert!(ptr_vec.is_empty());
    ptr_vec.push(42);
    assert_eq!(3, ptr_vec.capacity());
    assert_eq!(1, ptr_vec.len());
    storage.put(ptr_vec);
    assert_eq!(&[42], storage.items().as_slice());
}

#[test]
fn push_sequence_fills_slots_in_order() {
    let mut v: PtrVec<u32> = PtrVec::new(4);
    for x in [10, 20, 30, 40] {
        v.push(x);
    }
    assert_eq!(4, v.len());
    assert!(v.is_full());
    assert_eq!(10, *v.get(0));
    assert_eq!(20, *v.get(1));
    assert_eq!(30, *v.get(2));
    assert_eq!(40, *v.get(3));
}

#[test]
fn set_overwrites_written_slot() {
    let mut v: PtrVec<u8> = PtrVec::new(2);
    v.push(1);
    v.push(2);
    v.set(0, 9);
    assert_eq!(9, *v.get(0));
    assert_eq!(2, *v.get(1));
}

#[test]
fn extend_from_slice_appends_all() {
    let mut v: PtrVec<u8> = PtrVec::new(5);
    v.push(7);
    let local = vec![1, 3, 4];
    v.extend_from_slice(&local);
    assert_eq!(4, v.len());
    assert_eq!(vec![7, 1, 3, 4], v.into_vec());
}

#[test]
fn resize_grows_with_fill_value() {
    let mut v: PtrVec<u8> = PtrVec::new(5);
    v.push(1);
    v.push(2);
    v.resize(5, 9);
    assert_eq!(5, v.len());
    assert_eq!(vec![1, 2, 9, 9, 9], v.into_vec());
}

#[test]
fn resize_shrinks_and_keeps_prefix() {
    let mut v: PtrVec<u8> = PtrVec::new(4);
    v.push(1);
    v.push(2);
    v.push(3);
    v.resize(1, 0);
    assert_eq!(1, v.len());
    assert_eq!(vec![1], v.into_vec());
}

#[test]
fn resize_to_same_length_changes_nothing() {
    let mut v: PtrVec<u8> = PtrVec::new(4);
    v.push(8);
    v.resize(1, 0);
    assert_eq!(vec![8], v.into_vec());
}

#[test]
fn str_buf_write_appends_bytes() {
    let mut buf = StrBuf::new(14);
    assert!(buf.write_bytes(b"example string").is_ok());
    assert_eq!(14, buf.len());
    assert!(buf.is_full());
    assert_eq!(b"example string".to_vec(), buf.into_vec());
}

#[test]
fn str_buf_rejects_terminator_byte_without_partial_write() {
    let mut buf = StrBuf::new(10);
    assert!(buf.write_bytes(b"ab").is_ok());
    assert!(buf.write_bytes(b"cd\0ef").is_err());
    assert_eq!(2, buf.len());
    assert_eq!(b"ab".to_vec(), buf.into_vec());
}

#[test]
fn str_buf_rejects_overfull_write_without_partial_write() {
    let mut buf = StrBuf::new(3);
    assert!(buf.write_bytes(b"ab").is_ok());
    assert!(buf.write_bytes(b"cd").is_err());
    assert_eq!(2, buf.len());
    assert_eq!(b"ab".to_vec(), buf.into_vec());
}

#[test]
fn str_buf_write_str_matches_write_bytes() {
    let mut buf = StrBuf::new(12);
    assert!(buf.write_str("Hello World!").is_ok());
    assert_eq!(b"Hello World!".to_vec(), buf.into_vec());
    let mut small = StrBuf::new(3);
    assert!(small.write_str("text").is_err());
    assert!(small.is_empty());
}

#[test]
fn str_buf_empty_write_is_ok() {
    let mut buf = StrBuf::new(0);
    assert!(buf.write_bytes(b"").is_ok());
    assert!(buf.is_empty());
}
