use backend::checksum::{file_checksum, interfaces_change, InterfacesChange};

#[test]
fn checksum_is_sha1_in_hex() {
    assert_eq!(file_checksum(""), "da39a3ee5e6b4b0d3255bfef95601890afd80709");
    assert_eq!(file_checksum("abc"), "a9993e364706816aba3e25717850c26c9cd0d89d");
    assert_eq!(file_checksum("héllo"), "35b5ea45c5e41f78b46a937cc74d41dfea920890");
}

#[test]
fn same_content_same_checksum() {
    let a = file_checksum("export interface Product {}");
    let b = file_checksum("export interface Product {}");
    let c = file_checksum("export interface Rating {}");
    assert_eq!(a, b);
    assert_ne!(a, c);
    assert_eq!(a.len(), 40);
}

#[test]
fn interfaces_change_cases() {
    let p = Some(String::from("aa"));
    let q = Some(String::from("bb"));
    assert_eq!(interfaces_change(&p, &p.clone()), InterfacesChange::Unchanged);
    assert_eq!(interfaces_change(&p, &q), InterfacesChange::Updated);
    assert_eq!(interfaces_change(&None, &q), InterfacesChange::Created);
    assert_eq!(interfaces_change(&p, &None), InterfacesChange::Failed);
    assert_eq!(interfaces_change(&None, &None), InterfacesChange::Failed);
}
