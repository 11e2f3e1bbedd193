use kreep::credential::{Credential, CredentialIndexer};
use kreep::storage::{Record, Storage, StoreError};

fn fresh_path(name: &str) -> String {
    let nanos = std::time::SystemTime::now()
        .duration_since(std::time::UNIX_EPOCH)
        .unwrap()
        .as_nanos();
    format!("/tmp/kreep_test_{}_{}", name, nanos)
}

fn fresh_credential(user: &str, password: &str) -> Credential {
    Credential::new(user, password).expect("secure random source should be available")
}

fn fixed_credential(id_byte: u8, user: &str, password: &str) -> Credential {
    Credential {
        id: vec![id_byte; 16],
        user: user.to_string(),
        password: password.to_string(),
        api_key: vec![0x5a; 32],
    }
}

#[test]
fn codec_round_trip() {
    let c = fixed_credential(7, "alice", "s3cret");
    let bytes = c.encode();
    let back = Credential::decode(bytes.as_slice()).expect("own layout should decode");
    assert_eq!(back.id, c.id);
    assert_eq!(back.user, c.user);
    assert_eq!(back.password, c.password);
    assert_eq!(back.api_key, c.api_key);
}

#[test]
fn codec_round_trip_empty_and_unicode() {
    let empty = fixed_credential(1, "", "");
    let bytes = empty.encode();
    let back = Credential::decode(bytes.as_slice()).expect("own layout should decode");
    assert_eq!(back.user, "");
    assert_eq!(back.password, "");

    let uni = fixed_credential(2, "ûser ✓", "päss ☃");
    let bytes = uni.encode();
    let back = Credential::decode(bytes.as_slice()).expect("own layout should decode");
    assert_eq!(back.user, "ûser ✓");
    assert_eq!(back.password, "päss ☃");
}

#[test]
fn codec_rejects_mangled_bytes() {
    assert!(Credential::decode(&[]).is_none());
    assert!(Credential::decode(&[0u8; 23]).is_none());
    let c = fixed_credential(9, "alice", "s3cret");
    let bytes = c.encode();
    assert!(Credential::decode(&bytes[..bytes.len() - 1]).is_none());
    let mut bent = bytes.clone();
    bent[16] = 0xff;
    assert!(Credential::decode(bent.as_slice()).is_none());
    // A username length that is not valid UTF-8 on its span.
    let mut bad_utf8 = bytes.clone();
    bad_utf8[24] = 0xff;
    assert!(Credential::decode(bad_utf8.as_slice()).is_none());
}

#[test]
fn index_uniqueness_two_records() {
    let path = fresh_path("two_records");
    let mut st = Storage::open(path.as_str(), CredentialIndexer).expect("open");
    let a = fresh_credential("alice", "pw_a");
    let b = fresh_credential("bob", "pw_b");
    let (ida, idb) = (a.id.clone(), b.id.clone());
    st.set(a).expect("set");
    st.set(b).expect("set");
    assert_eq!(st.len(), 2);
    let got_a = st.get(&ida).expect("get").expect("present");
    let got_b = st.get(&idb).expect("get").expect("present");
    assert_eq!(got_a.user, "alice");
    assert_eq!(got_b.user, "bob");
    let mut it = st.iter().expect("iter");
    let mut users: Vec<String> = Vec::new();
    while let Some(item) = it.next() {
        users.push(item.expect("decodes").user);
    }
    users.sort();
    assert_eq!(users, vec!["alice".to_string(), "bob".to_string()]);
}

#[test]
fn upsert_last_writer_wins() {
    let path = fresh_path("upsert");
    let mut st = Storage::open(path.as_str(), CredentialIndexer).expect("open");
    let first = fixed_credential(3, "alice", "old_pw");
    let second = fixed_credential(3, "alice", "new_pw");
    st.set(first).expect("set");
    st.set(second).expect("set");
    assert_eq!(st.len(), 1);
    let got = st.get(&vec![3u8; 16]).expect("get").expect("present");
    assert_eq!(got.password, "new_pw");
}

#[test]
fn removal_semantics() {
    let path = fresh_path("removal");
    let mut st = Storage::open(path.as_str(), CredentialIndexer).expect("open");
    let c = fixed_credential(4, "alice", "pw");
    let id = c.id.clone();
    assert_eq!(st.remove(&id).expect("remove"), false);
    assert_eq!(st.len(), 0);
    st.set(c).expect("set");
    assert_eq!(st.len(), 1);
    assert_eq!(st.remove(&id).expect("remove"), true);
    assert_eq!(st.len(), 0);
    assert!(st.get(&id).expect("get").is_none());
}

#[test]
fn update_applies_both_mutators_in_order() {
    let path = fresh_path("update_order");
    let mut st = Storage::open(path.as_str(), CredentialIndexer).expect("open");
    let c = fixed_credential(5, "alice", "pw");
    let id = c.id.clone();
    st.set(c).expect("set");
    st.update(&id, |mut v: Credential| {
        v.password = format!("{}+f", v.password);
        v
    }).expect("update");
    st.update(&id, |mut v: Credential| {
        v.password = format!("{}+g", v.password);
        v
    }).expect("update");
    let got = st.get(&id).expect("get").expect("present");
    assert_eq!(got.password, "pw+f+g");
    assert_eq!(st.len(), 1);
}

#[test]
fn update_on_absent_index_is_a_no_op() {
    let path = fresh_path("update_absent");
    let mut st = Storage::open(path.as_str(), CredentialIndexer).expect("open");
    st.update(&vec![6u8; 16], |v: Credential| v).expect("update");
    assert_eq!(st.len(), 0);
    assert!(st.get(&vec![6u8; 16]).expect("get").is_none());
}

#[test]
fn durability_across_reopen() {
    let path = fresh_path("reopen");
    {
        let mut st = Storage::open(path.as_str(), CredentialIndexer).expect("open");
        st.set(fixed_credential(8, "alice", "pw")).expect("set");
    }
    let st = Storage::open(path.as_str(), CredentialIndexer).expect("reopen");
    let got = st.get(&vec![8u8; 16]).expect("get").expect("present");
    assert_eq!(got.user, "alice");
}

#[test]
fn open_fails_on_impossible_location() {
    assert!(Storage::<Credential, CredentialIndexer>::open(
        "/dev/null/not_a_directory",
        CredentialIndexer,
    ).is_err());
}

#[test]
fn corrupted_record_reports_format_error() {
    let path = fresh_path("corrupt");
    {
        let db = sled::open(path.as_str()).expect("raw open");
        db.insert(vec![9u8; 16], vec![0xffu8, 0x00, 0x01]).expect("raw insert");
        db.flush().expect("flush");
    }
    let st = Storage::<Credential, CredentialIndexer>::open(path.as_str(), CredentialIndexer)
        .expect("open");
    assert!(matches!(st.get(&vec![9u8; 16]), Err(StoreError::Format)));
    let mut it = st.iter().expect("iter");
    let first = it.next().expect("one element");
    assert!(matches!(first, Err(StoreError::Format)));
    assert!(it.next().is_none());
}
