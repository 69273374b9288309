use jackal::backend::{make_file, parent_path, File};
use jackal::contract::{handle, init, query};
use jackal::messaging::{query_messages, Message};
use jackal::msg::{ContractError, Env, HandleAnswer, HandleMsg, InitMsg, QueryAnswer, QueryMsg};
use jackal::numstr::dec_string;
use jackal::ordered_set::OrderedSet;
use jackal::store::Store;
use jackal::viewing_key::ViewingKey;

fn mock_env(sender: &str) -> Env {
    Env { block_height: 12_345, block_time: 1_571_797_419, sender: sender.to_string() }
}

fn init_for_test(store: &mut Store, address: String) -> ViewingKey {
    let msg = InitMsg { prng_seed: String::from("lets init bro") };
    let env = mock_env("creator");
    let _res = init(store, env, msg).unwrap();

    let env = mock_env(&address);
    let msg = HandleMsg::InitAddress {
        contents: String::from("{}"),
        entropy: String::from("Entropygoeshereboi"),
    };
    let handle_response = handle(store, env, msg).unwrap();

    match handle_response.data.unwrap() {
        HandleAnswer::CreateViewingKey { key } => key,
        _ => panic!("Unexpected result from handle"),
    }
}

/// Ownership supremacy on concrete values: the owner reads and writes
/// regardless of the grant lists, even after every grant is revoked.
#[test]
fn owner_always_reads_and_writes() {
    let mut f = File::new("owner", "data");
    assert!(f.can_read("owner".to_string()));
    assert!(f.can_write("owner".to_string()));
    f.allow_read("other".to_string());
    f.allow_write("other".to_string());
    assert!(f.can_read("owner".to_string()));
    assert!(f.can_write("owner".to_string()));
    f.disallow_read("other".to_string());
    f.disallow_write("other".to_string());
    assert!(f.can_read("owner".to_string()));
    assert!(f.can_write("owner".to_string()));
    assert!(!f.can_read("other".to_string()));
    assert!(!f.can_write("other".to_string()));
}

/// Grant idempotence on concrete values: granting the same account
/// twice equals granting it once.
#[test]
fn grant_twice_single_occurrence() {
    let mut store = Store::new();
    let vk = init_for_test(&mut store, String::from("anyone"));

    let env = mock_env("anyone");
    let msg = HandleMsg::Create {
        contents: String::from("c"),
        path: String::from("anyone/f.txt"),
        pkey: String::new(),
        skey: String::new(),
    };
    handle(&mut store, env, msg).unwrap();

    for _ in 0..2 {
        let env = mock_env("anyone");
        let msg = HandleMsg::AllowRead {
            path: String::from("anyone/f.txt"),
            message: String::from("shared"),
            address_list: vec![String::from("alice")],
        };
        handle(&mut store, env, msg).unwrap();
    }

    let query_res = query(
        &store,
        QueryMsg::GetContents {
            path: String::from("anyone/f.txt"),
            behalf: "anyone".to_string(),
            key: vk.to_string(),
        },
    );
    let value = match query_res.unwrap() {
        QueryAnswer::File(f) => f,
        _ => panic!("Unexpected query answer"),
    };
    let mut expected = File::new("anyone", "c");
    expected.allow_read("alice".to_string());
    assert_eq!(expected, value.file);
}

/// Revocation rotation on concrete values: the rotated namespace is a
/// fresh identifier and the old tree is no longer reachable, while a
/// re-initialized account starts empty at the new generation.
#[test]
fn revocation_rotates_namespace() {
    let mut store = Store::new();
    let vk = init_for_test(&mut store, String::from("acct"));

    let env = mock_env("acct");
    let msg = HandleMsg::Create {
        contents: String::from("secret notes"),
        path: String::from("acct/notes.txt"),
        pkey: String::new(),
        skey: String::new(),
    };
    handle(&mut store, env, msg).unwrap();

    let ns_before = match query(&store, QueryMsg::YouUpBro { address: "acct".to_string() }) {
        Ok(QueryAnswer::WalletInfo(w)) => w.namespace,
        _ => panic!("Unexpected query answer"),
    };
    assert_eq!(ns_before, "acct0".to_string());

    let env = mock_env("acct");
    handle(&mut store, env, HandleMsg::ForgetMe {}).unwrap();

    let after = match query(&store, QueryMsg::YouUpBro { address: "acct".to_string() }) {
        Ok(QueryAnswer::WalletInfo(w)) => w,
        _ => panic!("Unexpected query answer"),
    };
    assert_eq!(after.namespace, "acct1".to_string());
    assert_ne!(after.namespace, ns_before);
    assert_eq!(after.init, false);

    // the entry created before the rotation is unreachable under the
    // new namespace
    let query_res = query(
        &store,
        QueryMsg::GetContents {
            path: String::from("acct/notes.txt"),
            behalf: "acct".to_string(),
            key: vk.to_string(),
        },
    );
    assert!(matches!(query_res, Err(ContractError::NotFound { .. })));
}

/// Mailbox ownership binding: a log whose sentinel names another
/// account answers no one but that account.
#[test]
fn mailbox_binding_rejects_wrong_account() {
    let mut store = Store::new();

    // a log keyed under bob's address but bound (by sentinel) to alice
    store.mailboxes.insert(
        "MESSAGES_RECEIVED0".to_string(),
        "bob".to_string(),
        vec![Message::new("hello".to_string(), "alice".to_string())],
    );
    let res = query_messages(&store, &"bob".to_string());
    assert!(matches!(res, Err(ContractError::Unauthorized { .. })));

    // a correctly bound log answers its owner
    store.mailboxes.insert(
        "MESSAGES_RECEIVED0".to_string(),
        "carol".to_string(),
        vec![Message::new("hi".to_string(), "carol".to_string())],
    );
    let res = query_messages(&store, &"carol".to_string());
    assert!(res.is_ok());

    // an account with no log at all gets a structural error, not a grant
    let res = query_messages(&store, &"dave".to_string());
    assert!(matches!(res, Err(ContractError::InvalidState { .. })));
}

/// Move semantics on concrete values: the destination carries the
/// original contents and owner, and the source is gone.
#[test]
fn move_keeps_contents_and_owner() {
    let mut store = Store::new();
    let vk = init_for_test(&mut store, String::from("anyone"));

    let env = mock_env("anyone");
    let msg = HandleMsg::Create {
        contents: String::from("payload"),
        path: String::from("anyone/a.txt"),
        pkey: String::new(),
        skey: String::new(),
    };
    handle(&mut store, env, msg).unwrap();

    let env = mock_env("anyone");
    let msg = HandleMsg::Move {
        old_path: String::from("anyone/a.txt"),
        new_path: String::from("anyone/b.txt"),
    };
    handle(&mut store, env, msg).unwrap();

    let old_q = query(
        &store,
        QueryMsg::GetContents {
            path: String::from("anyone/a.txt"),
            behalf: "anyone".to_string(),
            key: vk.to_string(),
        },
    );
    assert!(matches!(old_q, Err(ContractError::NotFound { .. })));

    let new_q = query(
        &store,
        QueryMsg::GetContents {
            path: String::from("anyone/b.txt"),
            behalf: "anyone".to_string(),
            key: vk.to_string(),
        },
    );
    let value = match new_q.unwrap() {
        QueryAnswer::File(f) => f,
        _ => panic!("Unexpected query answer"),
    };
    assert_eq!(value.file.get_contents(), "payload");
    assert_eq!(value.file, make_file("anyone", "payload"));
}

/// Scenario: a granted reader with a valid token reads the file; the
/// same reader with a wrong token is turned away.
#[test]
fn scenario_shared_read_with_token() {
    let mut store = Store::new();
    let _vk_x = init_for_test(&mut store, String::from("X"));
    let vk_y = init_for_test(&mut store, String::from("Y"));

    let env = mock_env("X");
    let msg = HandleMsg::Create {
        contents: String::from("c1"),
        path: String::from("X/a/"),
        pkey: String::new(),
        skey: String::new(),
    };
    handle(&mut store, env, msg).unwrap();

    let env = mock_env("X");
    let msg = HandleMsg::Create {
        contents: String::from("c2"),
        path: String::from("X/a/f.txt"),
        pkey: String::new(),
        skey: String::new(),
    };
    handle(&mut store, env, msg).unwrap();

    let env = mock_env("X");
    let msg = HandleMsg::AllowRead {
        path: String::from("X/a/f.txt"),
        message: String::from("X has shared X/a/f.txt"),
        address_list: vec![String::from("Y")],
    };
    handle(&mut store, env, msg).unwrap();

    // Y reads with a valid token
    let ok_q = query(
        &store,
        QueryMsg::GetContents {
            path: String::from("X/a/f.txt"),
            behalf: "Y".to_string(),
            key: vk_y.to_string(),
        },
    );
    let value = match ok_q.unwrap() {
        QueryAnswer::File(f) => f,
        _ => panic!("Unexpected query answer"),
    };
    assert_eq!(value.file.get_contents(), "c2");

    // Y with a wrong token is turned away before authorization
    let bad_q = query(
        &store,
        QueryMsg::GetContents {
            path: String::from("X/a/f.txt"),
            behalf: "Y".to_string(),
            key: "not the right token".to_string(),
        },
    );
    assert!(bad_q.is_err());

    // Scenario continued: after a read reset, Y's valid token no longer
    // helps.
    let env = mock_env("X");
    let msg = HandleMsg::ResetRead {
        path: String::from("X/a/f.txt"),
        message: String::from("X has reset read access"),
        notify: false,
    };
    handle(&mut store, env, msg).unwrap();

    let reset_q = query(
        &store,
        QueryMsg::GetContents {
            path: String::from("X/a/f.txt"),
            behalf: "Y".to_string(),
            key: vk_y.to_string(),
        },
    );
    assert!(matches!(reset_q, Err(ContractError::Unauthorized { .. })));
}

/// Scenario: a message to an account that never initialized lazily
/// creates a bound mailbox; clearing leaves a sentinel-only log.
#[test]
fn scenario_send_then_clear() {
    let mut store = Store::new();
    let msg = InitMsg { prng_seed: String::from("lets init bro") };
    let env = mock_env("creator");
    init(&mut store, env, msg).unwrap();

    let env = mock_env("S");
    let msg = HandleMsg::SendMessage { to: "R".to_string(), contents: "hi".to_string() };
    handle(&mut store, env, msg).unwrap();

    // the mailbox was auto-created: a sentinel bound to R, then the
    // message from S
    assert_eq!(2, Message::len(&store, &"R".to_string()));
    let msgs = query_messages(&store, &"R".to_string()).unwrap().messages;
    assert_eq!(msgs[0].get_owner(), "R");
    assert_eq!(msgs[1].get_owner(), "S");
    assert_eq!(msgs[1].get_contents(), "hi");

    // R comes online and clears: a fresh generation holds only the
    // sentinel
    let env = mock_env("R");
    let msg = HandleMsg::InitAddress {
        contents: String::from("{}"),
        entropy: String::from("Entropygoeshereboi"),
    };
    handle(&mut store, env, msg).unwrap();

    let env = mock_env("R");
    handle(&mut store, env, HandleMsg::DeleteAllMessages {}).unwrap();

    assert_eq!(1, Message::len(&store, &"R".to_string()));
    let msgs = query_messages(&store, &"R".to_string()).unwrap().messages;
    assert_eq!(msgs[0].get_owner(), "R");
}

/// Each error kind on an input that produces it.
#[test]
fn error_kinds() {
    let mut store = Store::new();
    let _vk = init_for_test(&mut store, String::from("anyone"));

    // AlreadyInitialized
    let env = mock_env("anyone");
    let msg = HandleMsg::InitAddress {
        contents: String::from("{}"),
        entropy: String::from("e"),
    };
    assert!(matches!(
        handle(&mut store, env, msg),
        Err(ContractError::AlreadyInitialized)
    ));

    // NotFound: creating under a parent that does not exist
    let env = mock_env("anyone");
    let msg = HandleMsg::Create {
        contents: String::from("c"),
        path: String::from("anyone/missing/f.txt"),
        pkey: String::new(),
        skey: String::new(),
    };
    assert!(matches!(
        handle(&mut store, env, msg),
        Err(ContractError::NotFound { .. })
    ));

    // Unauthorized: a stranger creating in anyone's root
    let env = mock_env("stranger");
    let msg = HandleMsg::Create {
        contents: String::from("c"),
        path: String::from("anyone/f.txt"),
        pkey: String::new(),
        skey: String::new(),
    };
    assert!(matches!(
        handle(&mut store, env, msg),
        Err(ContractError::Unauthorized { .. })
    ));

    // InvalidState: appending to a log that was never created
    let m = Message::new("x".to_string(), "someone".to_string());
    let r = m.store_message(&mut store, &"nobody".to_string());
    assert!(matches!(r, Err(ContractError::InvalidState { .. })));
}

/// A reset on an entry with empty grant lists is a harmless no-op.
#[test]
fn reset_on_empty_lists() {
    let mut store = Store::new();
    let vk = init_for_test(&mut store, String::from("anyone"));

    let env = mock_env("anyone");
    let msg = HandleMsg::Create {
        contents: String::from("c"),
        path: String::from("anyone/f.txt"),
        pkey: String::new(),
        skey: String::new(),
    };
    handle(&mut store, env, msg).unwrap();

    let env = mock_env("anyone");
    let msg = HandleMsg::ResetRead {
        path: String::from("anyone/f.txt"),
        message: String::from("reset"),
        notify: true,
    };
    handle(&mut store, env, msg).unwrap();

    let query_res = query(
        &store,
        QueryMsg::GetContents {
            path: String::from("anyone/f.txt"),
            behalf: "anyone".to_string(),
            key: vk.to_string(),
        },
    );
    let value = match query_res.unwrap() {
        QueryAnswer::File(f) => f,
        _ => panic!("Unexpected query answer"),
    };
    assert_eq!(value.file, File::new("anyone", "c"));
}

/// The ordered set keeps insertion order and drops duplicates.
#[test]
fn ordered_set_basics() {
    let mut s = OrderedSet::new();
    s.push("b".to_string());
    s.push("a".to_string());
    s.push("b".to_string());
    assert_eq!(s.len(), 2);
    assert_eq!(s.get(0).unwrap(), &"b".to_string());
    assert_eq!(s.get(1).unwrap(), &"a".to_string());
    assert!(s.contains(&"a".to_string()));
    s.remove("b".to_string());
    assert_eq!(s.len(), 1);
    assert_eq!(s.get(0).unwrap(), &"a".to_string());
    assert!(!s.contains(&"b".to_string()));
    s.remove("b".to_string());
    assert_eq!(s.len(), 1);
}

/// Decimal rendering and parent paths on exact values.
#[test]
fn path_and_number_helpers() {
    assert_eq!(dec_string(0), "0".to_string());
    assert_eq!(dec_string(7), "7".to_string());
    assert_eq!(dec_string(90210), "90210".to_string());
    assert_eq!(parent_path("anyone/test/pepe.jpg".to_string()), "anyone/test/".to_string());
    assert_eq!(parent_path("anyone/test/".to_string()), "anyone/".to_string());
    assert_eq!(parent_path("anyone/".to_string()), "".to_string());
    assert_eq!(parent_path("anyone".to_string()), "".to_string());
}

/// The token derivation depends on its context: different entropy,
/// sender or block give different keys, and every key carries the
/// issuance prefix.
#[test]
fn token_depends_on_context() {
    let seed: Vec<u8> = vec![1, 2, 3];
    let a = ViewingKey::new(&mock_env("anyone"), seed.as_slice(), "entropy-one");
    let b = ViewingKey::new(&mock_env("anyone"), seed.as_slice(), "entropy-two");
    let c = ViewingKey::new(&mock_env("other"), seed.as_slice(), "entropy-one");
    let again = ViewingKey::new(&mock_env("anyone"), seed.as_slice(), "entropy-one");
    assert_ne!(a, b);
    assert_ne!(a, c);
    assert_eq!(a, again);
    assert!(a.to_string().starts_with("anubis_key_"));
    assert!(a.check_viewing_key(a.to_hashed().as_slice()));
    assert!(!b.check_viewing_key(a.to_hashed().as_slice()));
}
