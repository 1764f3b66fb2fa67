use empire::mpi::constants::{MPI_MAX_INFO_KEY, MPI_MAX_INFO_VAL};
use empire::mpi::info::{
    Info, MPI_Info, MPI_Info_create, MPI_Info_delete, MPI_Info_dup, MPI_Info_free, MPI_Info_get,
    MPI_Info_get_nkeys, MPI_Info_get_nthkey, MPI_Info_get_valuelen, MPI_Info_set,
};
use empire::mpi::status::Error as Status;

fn text(s: &str) -> String {
    String::from(s)
}

#[test]
fn info_keeps_values_and_the_order_of_keys() {
    let mut info = Info::new();
    assert_eq!(info.len(), 0);
    assert_eq!(info.set(text("host"), text("a")), Status::MPI_SUCCESS);
    assert_eq!(info.set(text("wdir"), text("/tmp")), Status::MPI_SUCCESS);
    assert_eq!(info.set(text("arch"), text("x")), Status::MPI_SUCCESS);
    assert_eq!(info.len(), 3);
    assert_eq!(info.get("host"), Some("a"));
    assert_eq!(info.get("wdir"), Some("/tmp"));
    assert_eq!(info.get("none"), None);
    assert_eq!(info.get_nthkey(0), "host");
    assert_eq!(info.get_nthkey(1), "wdir");
    assert_eq!(info.get_nthkey(2), "arch");
    assert_eq!(info.set(text("host"), text("b")), Status::MPI_SUCCESS);
    assert_eq!(info.len(), 3);
    assert_eq!(info.get("host"), Some("b"));
    assert_eq!(info.get_nthkey(0), "host");
}

#[test]
fn info_delete_keeps_the_order_of_the_rest() {
    let mut info = Info::new();
    for key in ["a", "b", "c", "d"] {
        assert_eq!(info.set(text(key), text("v")), Status::MPI_SUCCESS);
    }
    assert_eq!(info.delete("b"), Status::MPI_SUCCESS);
    assert_eq!(info.len(), 3);
    assert_eq!(info.get("b"), None);
    assert_eq!(info.get_nthkey(0), "a");
    assert_eq!(info.get_nthkey(1), "c");
    assert_eq!(info.get_nthkey(2), "d");
    assert_eq!(info.delete("b"), Status::MPI_ERR_INFO_NOKEY);
    assert_eq!(info.delete("z"), Status::MPI_ERR_INFO_NOKEY);
    assert_eq!(info.len(), 3);
    assert_eq!(info.set(text("b"), text("w")), Status::MPI_SUCCESS);
    assert_eq!(info.get_nthkey(3), "b");
}

#[test]
fn info_refuses_keys_and_values_that_are_too_long() {
    let mut info = Info::new();
    let long_key = "k".repeat(MPI_MAX_INFO_KEY + 1);
    let long_value = "v".repeat(MPI_MAX_INFO_VAL + 1);
    assert_eq!(info.set(long_key.clone(), text("v")), Status::MPI_ERR_INFO_KEY);
    assert_eq!(info.set(long_key, long_value.clone()), Status::MPI_ERR_INFO_KEY);
    assert_eq!(info.set(text("k"), long_value), Status::MPI_ERR_INFO_VALUE);
    assert_eq!(info.len(), 0);
    assert_eq!(info.get("k"), None);
    let key = "k".repeat(MPI_MAX_INFO_KEY);
    let value = "v".repeat(MPI_MAX_INFO_VAL);
    assert_eq!(info.set(key.clone(), value.clone()), Status::MPI_SUCCESS);
    assert_eq!(info.get(&key), Some(value.as_str()));
    let wide = "\u{e9}".repeat(MPI_MAX_INFO_KEY / 2 + 1);
    assert_eq!(info.set(wide, text("v")), Status::MPI_ERR_INFO_KEY);
}

#[test]
fn info_duplicate_is_independent() {
    let mut info = Info::new();
    info.set(text("a"), text("1"));
    info.set(text("b"), text("2"));
    let mut copy = info.duplicate();
    assert_eq!(copy.len(), 2);
    assert_eq!(copy.get_nthkey(0), "a");
    assert_eq!(copy.get_nthkey(1), "b");
    assert_eq!(copy.get("b"), Some("2"));
    copy.delete("a");
    copy.set(text("b"), text("3"));
    assert_eq!(info.get("a"), Some("1"));
    assert_eq!(info.get("b"), Some("2"));
    assert_eq!(info.len(), 2);
}

#[test]
fn info_handles_hold_a_dictionary_or_the_null_info() {
    let null = MPI_Info::null();
    assert!(null.is_null());
    assert!(null.get().is_none());
    let fresh = MPI_Info::new();
    assert!(!fresh.is_null());
    assert_eq!(fresh.unwrap().len(), 0);
    let mut copy = null.clone();
    assert!(copy.is_null());
    *copy.get_mut() = Some(Info::new());
    assert!(!copy.is_null());
    assert_eq!(copy.unwrap_mut().set(text("k"), text("v")), Status::MPI_SUCCESS);
    assert_eq!(copy.unwrap().get("k"), Some("v"));
    assert!(null.is_null());
    copy.free();
    assert!(copy.handle.is_none());
}

#[test]
fn info_operations_go_through_the_handle() {
    let (status, mut info) = MPI_Info_create();
    assert_eq!(status, Status::MPI_SUCCESS);
    assert_eq!(MPI_Info_set(&mut info, "host", "node7"), Status::MPI_SUCCESS);
    assert_eq!(MPI_Info_set(&mut info, "wdir", ""), Status::MPI_SUCCESS);
    assert_eq!(MPI_Info_get_nkeys(&info), (Status::MPI_SUCCESS, 2));
    assert_eq!(MPI_Info_get(&info, "host", 16), (Status::MPI_SUCCESS, Some(b"node7\0".to_vec())));
    assert_eq!(MPI_Info_get(&info, "host", 5), (Status::MPI_SUCCESS, Some(b"node7\0".to_vec())));
    assert_eq!(MPI_Info_get(&info, "wdir", 0), (Status::MPI_SUCCESS, Some(vec![0])));
    assert_eq!(MPI_Info_get(&info, "none", 16), (Status::MPI_SUCCESS, None));
    assert_eq!(MPI_Info_get_valuelen(&info, "host"), (Status::MPI_SUCCESS, Some(5)));
    assert_eq!(MPI_Info_get_valuelen(&info, "none"), (Status::MPI_SUCCESS, None));
    assert_eq!(MPI_Info_get_nthkey(&info, 1), (Status::MPI_SUCCESS, b"wdir\0".to_vec()));
    assert_eq!(MPI_Info_delete(&mut info, "host"), Status::MPI_SUCCESS);
    assert_eq!(MPI_Info_delete(&mut info, "host"), Status::MPI_ERR_INFO_NOKEY);
    assert_eq!(MPI_Info_get_nthkey(&info, 0), (Status::MPI_SUCCESS, b"wdir\0".to_vec()));
    assert_eq!(
        MPI_Info_set(&mut info, &"k".repeat(MPI_MAX_INFO_KEY + 1), "v"),
        Status::MPI_ERR_INFO_KEY
    );
}

#[test]
fn info_dup_and_free() {
    let (_, mut info) = MPI_Info_create();
    MPI_Info_set(&mut info, "a", "1");
    let (status, mut copy) = MPI_Info_dup(&info);
    assert_eq!(status, Status::MPI_SUCCESS);
    MPI_Info_set(&mut copy, "b", "2");
    assert_eq!(MPI_Info_get_nkeys(&info), (Status::MPI_SUCCESS, 1));
    assert_eq!(MPI_Info_get_nkeys(&copy), (Status::MPI_SUCCESS, 2));
    assert_eq!(MPI_Info_free(&mut copy), Status::MPI_SUCCESS);
    assert!(copy.is_null());
    let (_, null_copy) = MPI_Info_dup(&MPI_Info::null());
    assert!(null_copy.is_null());
}
