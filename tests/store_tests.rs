use my_redis::dispatch::{handle_request, handle_request_sharded, HandlerError, Request, Response};
use my_redis::shard::{hash_key, new_sharded_db, shard_for};
use my_redis::store::{bytes_eq, Store};

fn b(s: &str) -> Vec<u8> {
    s.as_bytes().to_vec()
}

#[test]
fn get_of_unset_key_is_absent() {
    let mut db = Store::new();
    assert_eq!(db.get(&b("foo")), None);
    db.set(b("bar"), b("1"));
    assert_eq!(db.get(&b("foo")), None);
}

#[test]
fn set_then_get_returns_value() {
    let mut db = Store::new();
    db.set(b("foo"), b("bar"));
    assert_eq!(db.get(&b("foo")), Some(b("bar")));
}

#[test]
fn last_writer_wins() {
    let mut db = Store::new();
    db.set(b("k"), b("v1"));
    db.set(b("k"), b("v2"));
    db.set(b("other"), b("x"));
    assert_eq!(db.get(&b("k")), Some(b("v2")));
    assert_eq!(db.get(&b("other")), Some(b("x")));
}

#[test]
fn empty_key_and_value() {
    let mut db = Store::new();
    db.set(b(""), b(""));
    assert_eq!(db.get(&b("")), Some(Vec::new()));
}

#[test]
fn bytes_eq_compares_content() {
    assert!(bytes_eq(&b("abc"), &b("abc")));
    assert!(!bytes_eq(&b("abc"), &b("abd")));
    assert!(!bytes_eq(&b("ab"), &b("abc")));
}

#[test]
fn hash_key_exact_values() {
    assert_eq!(hash_key(&b("")), 0);
    assert_eq!(hash_key(&b("a")), 97);
    assert_eq!(hash_key(&b("ab")), 3105);
}

#[test]
fn shard_for_is_deterministic() {
    assert_eq!(shard_for(&b("ab"), 4), 1);
    for n in 1..10usize {
        let first = shard_for(&b("some key"), n);
        assert!(first < n);
        assert_eq!(shard_for(&b("some key"), n), first);
    }
    assert_eq!(shard_for(&b("anything"), 1), 0);
}

#[test]
fn sharded_db_reads_and_writes_across_shards() {
    let mut db = new_sharded_db(4);
    let keys = ["a", "b", "c", "d", "e", "f", "g", "h"];
    for k in keys.iter() {
        assert_eq!(db.get(&b(k)), None);
    }
    for (i, k) in keys.iter().enumerate() {
        db.set(b(k), vec![i as u8]);
    }
    for (i, k) in keys.iter().enumerate() {
        assert_eq!(db.get(&b(k)), Some(vec![i as u8]));
    }
    db.set(b("a"), b("again"));
    assert_eq!(db.get(&b("a")), Some(b("again")));
}

#[test]
fn into_shards_keeps_keys_in_their_shard() {
    let mut db = new_sharded_db(3);
    db.set(b("ab"), b("1"));
    let shards = db.into_shards();
    assert_eq!(shards.len(), 3);
    let i = shard_for(&b("ab"), 3);
    for (j, s) in shards.iter().enumerate() {
        if j == i {
            assert_eq!(s.get(&b("ab")), Some(b("1")));
        } else {
            assert_eq!(s.get(&b("ab")), None);
        }
    }
}

#[test]
fn handle_request_serves_get_and_set() {
    let mut db = Store::new();
    assert!(matches!(
        handle_request(&mut db, Request::Get { key: b("x") }),
        Ok(Response::Null)
    ));
    assert!(matches!(
        handle_request(&mut db, Request::Put { key: b("x"), value: b("1") }),
        Ok(Response::Okay)
    ));
    match handle_request(&mut db, Request::Get { key: b("x") }) {
        Ok(Response::Bulk(v)) => assert_eq!(v, b("1")),
        _ => panic!("expected a bulk value"),
    }
}

#[test]
fn handle_request_refuses_other_commands() {
    let mut db = Store::new();
    db.set(b("x"), b("1"));
    let r = handle_request(&mut db, Request::Unsupported { name: "PUBLISH".to_string() });
    assert!(matches!(r, Err(HandlerError::Unimplemented)));
    assert_eq!(db.get(&b("x")), Some(b("1")));
}

#[test]
fn two_connections_share_one_store() {
    let mut db = new_sharded_db(4);
    // connection A writes x
    assert!(matches!(
        handle_request_sharded(&mut db, Request::Put { key: b("x"), value: b("1") }),
        Ok(Response::Okay)
    ));
    // connection B reads x
    match handle_request_sharded(&mut db, Request::Get { key: b("x") }) {
        Ok(Response::Bulk(v)) => assert_eq!(v, b("1")),
        _ => panic!("expected a bulk value"),
    }
    // connection A reads y, never written
    assert!(matches!(
        handle_request_sharded(&mut db, Request::Get { key: b("y") }),
        Ok(Response::Null)
    ));
    assert!(matches!(
        handle_request_sharded(&mut db, Request::Unsupported { name: "DEL".to_string() }),
        Err(HandlerError::Unimplemented)
    ));
}

#[test]
fn request_shard_follows_key() {
    let g = Request::Get { key: b("ab") };
    let p = Request::Put { key: b("ab"), value: b("v") };
    let u = Request::Unsupported { name: "PING".to_string() };
    assert_eq!(g.shard(4), 1);
    assert_eq!(p.shard(4), 1);
    assert_eq!(u.shard(4), 0);
}
