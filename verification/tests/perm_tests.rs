use jackal::backend::File;
use jackal::contract::{handle, init, query};
use jackal::msg::{Env, HandleAnswer, HandleMsg, InitMsg, QueryAnswer, QueryMsg, FileResponse};
use jackal::store::Store;
use jackal::viewing_key::ViewingKey;

fn mock_env(sender: &str) -> Env {
    Env { block_height: 12_345, block_time: 1_571_797_419, sender: sender.to_string() }
}

fn init_for_test(store: &mut Store, address: String) -> ViewingKey {
    let msg = InitMsg { prng_seed: String::from("lets init bro") };
    let env = mock_env("creator");
    let _res = init(store, env, msg).unwrap();

    let env = mock_env(&address);
    let msg = HandleMsg::InitAddress {
        contents: String::from("root contents"),
        entropy: String::from("Entropygoeshereboi"),
    };
    let handle_response = handle(store, env, msg).unwrap();

    match handle_response.data.unwrap() {
        HandleAnswer::CreateViewingKey { key } => key,
        _ => panic!("Unexpected result from handle"),
    }
}

fn file_answer(r: Result<QueryAnswer, jackal::msg::ContractError>) -> FileResponse {
    match r.unwrap() {
        QueryAnswer::File(f) => f,
        _ => panic!("Unexpected query answer"),
    }
}

#[test]
fn change_owner_and_move_test() {
    let mut store = Store::new();
    let _vk = init_for_test(&mut store, String::from("anyone"));
    let vk2 = init_for_test(&mut store, String::from("alice"));

    // Create 3 folders (test/ meme_folder/ junior/)
    let env = mock_env("anyone");
    let msg = HandleMsg::CreateMulti {
        contents_list: vec![
            String::from("<content inside test/>"),
            String::from("<content inside meme_folder/>"),
            String::from("<content inside junior/>"),
        ],
        path_list: vec![
            String::from("anyone/test/"),
            String::from("anyone/meme_folder/"),
            String::from("anyone/junior/"),
        ],
        pkey_list: vec![String::new(), String::new(), String::new()],
        skey_list: vec![String::new(), String::new(), String::new()],
    };
    let _res = handle(&mut store, env, msg).unwrap();

    // Create 2 Files bunny1.png and bunny2.png
    let env = mock_env("anyone");
    let msg = HandleMsg::CreateMulti {
        contents_list: vec![String::from("bunny1"), String::from("bunny2")],
        path_list: vec![
            String::from("anyone/test/bunny1.png"),
            String::from("anyone/test/bunny2.png"),
        ],
        pkey_list: vec![String::new(), String::new()],
        skey_list: vec![String::new(), String::new()],
    };
    let _res = handle(&mut store, env, msg).unwrap();

    // Give ownership of bunny1.png to alice
    let env = mock_env("anyone");
    let msg = HandleMsg::ChangeOwner {
        path: String::from("anyone/test/bunny1.png"),
        message: String::from("anyone has given you ownership of anyone/test/bunny1.png"),
        new_owner: String::from("alice"),
    };
    let _res = handle(&mut store, env, msg).unwrap();

    // Get bunny1 with alice's viewing key to ensure alice is now owner
    let query_res = query(
        &store,
        QueryMsg::GetContents {
            path: String::from("anyone/test/bunny1.png"),
            behalf: "alice".to_string(),
            key: vk2.to_string(),
        },
    );
    let value = file_answer(query_res);
    println!("alice owns bunny1:\n {:#?}", value.file);

    // alice cannot move bunny1 to anyone/meme_folder
    let env = mock_env("alice");
    let msg = HandleMsg::Move {
        old_path: String::from("anyone/test/bunny1.png"),
        new_path: String::from("anyone/meme_folder/bunny1.png"),
    };
    let res = handle(&mut store, env, msg);
    assert!(res.is_err());
    println!("Alice fails to move bunny1 to anyone/meme_folder:\n {:#?}", res);

    // make a folder inside of alice's root directory for her new bunny
    let env = mock_env("alice");
    let msg = HandleMsg::Create {
        contents: "bunnys go here".to_string(),
        path: String::from("alice/bunny_home/"),
        pkey: String::new(),
        skey: String::new(),
    };
    let _res = handle(&mut store, env, msg).unwrap();
    println!("Successfully created alice/bunny_home/:\n {:#?}", _res);

    // Get alice/bunny_home/ with Alice's viewing key to ensure it exists
    let query_res = query(
        &store,
        QueryMsg::GetContents {
            path: String::from("alice/bunny_home/"),
            behalf: "alice".to_string(),
            key: vk2.to_string(),
        },
    );
    let value = file_answer(query_res);
    println!("alice/bunny_home:\n {:#?}", value.file);

    // now alice can move bunny1 into alice/bunny_home/
    let env = mock_env("alice");
    let msg = HandleMsg::Move {
        old_path: String::from("anyone/test/bunny1.png"),
        new_path: String::from("alice/bunny_home/bunny1.png"),
    };
    let res = handle(&mut store, env, msg).unwrap();
    println!("Alice successfully moves bunny1 to alice/bunny_home/:\n {:#?}", res);

    // Get bunny1 with alice's viewing key to ensure it is in alice/bunny_home
    let query_res = query(
        &store,
        QueryMsg::GetContents {
            path: String::from("alice/bunny_home/bunny1.png"),
            behalf: "alice".to_string(),
            key: vk2.to_string(),
        },
    );
    let value = file_answer(query_res);
    println!("bunny1 is in alice/bunny_home:\n {:#?}", value);

    // 'anyone/test/bunny1.png' is no longer there
    let query_res = query(
        &store,
        QueryMsg::GetContents {
            path: String::from("anyone/test/bunny1.png"),
            behalf: "alice".to_string(),
            key: vk2.to_string(),
        },
    );
    assert!(query_res.is_err());
    println!(
        "Confirming that 'anyone/test/bunny1.png' no longer contains a file:\n{:#?}",
        query_res
    );
}

#[test]
fn alice_moving_within_anyone_rootfolder() {
    let mut store = Store::new();
    let _vk = init_for_test(&mut store, String::from("anyone"));
    let vk2 = init_for_test(&mut store, String::from("alice"));

    // Create 2 folders (test/, junior/)
    let env = mock_env("anyone");
    let msg = HandleMsg::CreateMulti {
        contents_list: vec![
            String::from("<content inside test/>"),
            String::from("<content inside junior/>"),
        ],
        path_list: vec![String::from("anyone/test/"), String::from("anyone/junior/")],
        pkey_list: vec![String::new(), String::new()],
        skey_list: vec![String::new(), String::new()],
    };
    let _res = handle(&mut store, env, msg).unwrap();

    // Create bunny.png
    let env = mock_env("anyone");
    let msg = HandleMsg::Create {
        contents: String::from("bunny"),
        path: String::from("anyone/test/bunny.png"),
        pkey: String::new(),
        skey: String::new(),
    };
    let _res = handle(&mut store, env, msg).unwrap();

    // Give ownership of bunny.png to alice
    let env = mock_env("anyone");
    let msg = HandleMsg::ChangeOwner {
        path: String::from("anyone/test/bunny.png"),
        message: String::from("anyone has given you ownership of anyone/test/bunny.png"),
        new_owner: String::from("alice"),
    };
    let _res = handle(&mut store, env, msg).unwrap();

    // Get bunny with alice's viewing key to ensure alice is now owner
    let query_res = query(
        &store,
        QueryMsg::GetContents {
            path: String::from("anyone/test/bunny.png"),
            behalf: "alice".to_string(),
            key: vk2.to_string(),
        },
    );
    let value = file_answer(query_res);
    println!("alice owns bunny:\n {:#?}", value.file);

    // alice cannot move bunny to anyone/junior yet
    let env = mock_env("alice");
    let msg = HandleMsg::Move {
        old_path: String::from("anyone/test/bunny.png"),
        new_path: String::from("anyone/junior/bunny.png"),
    };
    let res = handle(&mut store, env, msg);
    assert!(res.is_err());
    println!("Alice fails to move bunny to anyone/junior:\n {:#?}", res);

    // add alice to write permissions of anyone/junior/
    let env = mock_env("anyone");
    let msg = HandleMsg::AllowWrite {
        path: "anyone/junior/".to_string(),
        message: String::from("anyone has given you write access to [anyone/junior/]"),
        address_list: vec!["alice".to_string()],
    };
    let _res = handle(&mut store, env, msg).unwrap();

    // Get anyone/junior/ with alice's viewing key to ensure she has write access
    let query_res = query(
        &store,
        QueryMsg::GetContents {
            path: String::from("anyone/junior/"),
            behalf: "alice".to_string(),
            key: vk2.to_string(),
        },
    );
    let value = file_answer(query_res);
    println!("alice has write access to anyone/junior/:\n {:#?}", value.file);

    // alice again tries to move bunny to anyone/junior, and succeeds
    let env = mock_env("alice");
    let msg = HandleMsg::Move {
        old_path: String::from("anyone/test/bunny.png"),
        new_path: String::from("anyone/junior/bunny.png"),
    };
    let res = handle(&mut store, env, msg).unwrap();
    println!("Alice successfully moves bunny to anyone/junior:\n {:#?}", res);

    // Get bunny with alice's viewing key to ensure it is in anyone/junior
    let query_res = query(
        &store,
        QueryMsg::GetContents {
            path: String::from("anyone/junior/bunny.png"),
            behalf: "alice".to_string(),
            key: vk2.to_string(),
        },
    );
    let value = file_answer(query_res);
    println!("bunny is in anyone/junior:\n {:#?}", value.file);

    // 'anyone/test/bunny.png' is no longer there
    let query_res = query(
        &store,
        QueryMsg::GetContents {
            path: String::from("anyone/test/bunny.png"),
            behalf: "alice".to_string(),
            key: vk2.to_string(),
        },
    );
    assert!(query_res.is_err());
    println!(
        "Confirming that 'anyone/test/bunny.png' no longer contains a file:\n{:#?}",
        query_res
    );
}

#[test]
fn permission_test() {
    let mut store = Store::new();
    let vk = init_for_test(&mut store, String::from("anyone"));
    let vk2 = init_for_test(&mut store, String::from("alice"));

    // Create Folder Test
    let env = mock_env("anyone");
    let msg = HandleMsg::Create {
        contents: String::from("<content of test/ folder>"),
        path: String::from("anyone/test/"),
        pkey: String::new(),
        skey: String::new(),
    };
    let _res = handle(&mut store, env, msg).unwrap();

    // Create File
    let env = mock_env("anyone");
    let msg = HandleMsg::Create {
        contents: String::from("I'm sad"),
        path: String::from("anyone/pepe.jpg"),
        pkey: String::new(),
        skey: String::new(),
    };
    let _res = handle(&mut store, env, msg).unwrap();

    // Allow WRITE for Alice, Bob and Charlie
    let env = mock_env("anyone");
    let msg = HandleMsg::AllowWrite {
        path: String::from("anyone/test/"),
        message: String::from("anyone has given you write access to [anyone/test/]"),
        address_list: vec![
            String::from("alice"),
            String::from("bob"),
            String::from("charlie"),
        ],
    };
    let _res = handle(&mut store, env, msg).unwrap();

    // Allow READ for Alice, Bob and Charlie
    let env = mock_env("anyone");
    let msg = HandleMsg::AllowRead {
        path: String::from("anyone/test/"),
        message: String::from("anyone has given you read access to [ anyone/test ]"),
        address_list: vec![
            String::from("alice"),
            String::from("bob"),
            String::from("charlie"),
        ],
    };
    let _res = handle(&mut store, env, msg).unwrap();

    // Get File with Alice's viewing key
    let query_res = query(
        &store,
        QueryMsg::GetContents {
            path: String::from("anyone/test/"),
            behalf: "alice".to_string(),
            key: vk2.to_string(),
        },
    );
    assert!(query_res.is_ok());
    let value = file_answer(query_res);
    println!("alice has full permissions to anyone/test/:\n {:#?}", value.file);

    // Disallow WRITE for Alice, Bob and Charlie
    let env = mock_env("anyone");
    let msg = HandleMsg::DisallowWrite {
        path: String::from("anyone/test/"),
        message: String::from("anyone has revoked write access to [anyone/test/]"),
        notify: true,
        address_list: vec![
            String::from("alice"),
            String::from("bob"),
            String::from("charlie"),
        ],
    };
    let _res = handle(&mut store, env, msg).unwrap();

    // Disallow READ for Alice, Bob and Charlie
    let env = mock_env("anyone");
    let msg = HandleMsg::DisallowRead {
        path: String::from("anyone/test/"),
        message: String::from("anyone has revoked read access to [ anyone/test ]"),
        notify: true,
        address_list: vec![
            String::from("alice"),
            String::from("bob"),
            String::from("charlie"),
        ],
    };
    let _res = handle(&mut store, env, msg).unwrap();

    // Get File with anyone's viewing key
    let query_res = query(
        &store,
        QueryMsg::GetContents {
            path: String::from("anyone/test/"),
            behalf: "anyone".to_string(),
            key: vk.to_string(),
        },
    );
    let value = file_answer(query_res);
    let test = File::new("anyone", "<content of test/ folder>");
    assert_eq!(test, value.file);
    println!("permissions disallowed for anyone/test/:\n {:#?}", value.file);
}

#[test]
fn test_owner_change() {
    let mut store = Store::new();
    let vk_anyone = init_for_test(&mut store, String::from("anyone"));
    let vk_alice = init_for_test(&mut store, String::from("alice"));

    // Create File
    let env = mock_env("anyone");
    let msg = HandleMsg::Create {
        contents: String::from("Rainbows"),
        path: String::from("anyone/test/"),
        pkey: String::new(),
        skey: String::new(),
    };
    let _res = handle(&mut store, env, msg).unwrap();

    // Get File with viewing key to see the owner
    let query_res = query(
        &store,
        QueryMsg::GetContents {
            path: String::from("anyone/test/"),
            behalf: "anyone".to_string(),
            key: vk_anyone.to_string(),
        },
    );
    let value = file_answer(query_res);
    println!("See owner --> {:#?}", value.file);

    // Change owner
    let env = mock_env("anyone");
    let msg = HandleMsg::ChangeOwner {
        path: String::from("anyone/test/"),
        message: String::from("anyone has given you ownership of anyone/test/"),
        new_owner: String::from("alice"),
    };
    let _res = handle(&mut store, env, msg).unwrap();

    // Now alice can query "anyone/test/"
    let query_res = query(
        &store,
        QueryMsg::GetContents {
            path: String::from("anyone/test/"),
            behalf: "alice".to_string(),
            key: vk_alice.to_string(),
        },
    );
    let value = file_answer(query_res);
    println!("Only alice can query 'anyone/test/' See owner --> {:#?}", value.file);

    // Query File as anyone will fail
    let query_res = query(
        &store,
        QueryMsg::GetContents {
            path: String::from("anyone/test/"),
            behalf: "anyone".to_string(),
            key: vk_anyone.to_string(),
        },
    );
    assert!(query_res.is_err());

    // alice can add anyone to allow_read
    let env = mock_env("alice");
    let msg = HandleMsg::AllowRead {
        path: String::from("anyone/test/"),
        message: String::from("alice has given you read access to [ anyone/test ]"),
        address_list: vec![String::from("anyone")],
    };
    let _res = handle(&mut store, env, msg).unwrap();

    // Now anyone can also read the file
    let query_res = query(
        &store,
        QueryMsg::GetContents {
            path: String::from("anyone/test/"),
            behalf: "anyone".to_string(),
            key: vk_anyone.to_string(),
        },
    );
    let value = file_answer(query_res);
    println!("alice added anyone to allow_read, and now anyone can also read the file. See allow_read list --> {:#?}", value.file);

    // alice can change owner back to anyone
    let env = mock_env("alice");
    let msg = HandleMsg::ChangeOwner {
        path: String::from("anyone/test/"),
        message: String::from("alice has given you ownership of anyone/test/"),
        new_owner: String::from("anyone"),
    };
    let _res = handle(&mut store, env, msg).unwrap();

    let query_res = query(
        &store,
        QueryMsg::GetContents {
            path: String::from("anyone/test/"),
            behalf: "anyone".to_string(),
            key: vk_anyone.to_string(),
        },
    );
    let value = file_answer(query_res);
    println!("alice gave ownership back to anyone --> {:#?}", value.file);
}

#[test]
fn more_tests_write_perms_and_notify() {
    let mut store = Store::new();
    let _vk = init_for_test(&mut store, String::from("anyone"));
    let vk2 = init_for_test(&mut store, String::from("alice"));
    let vk3 = init_for_test(&mut store, String::from("bob"));

    // Create file
    let env = mock_env("anyone");
    let msg = HandleMsg::Create {
        contents: String::from("pepe"),
        path: String::from("anyone/pepe.jpg"),
        pkey: String::new(),
        skey: String::new(),
    };
    let _res = handle(&mut store, env, msg).unwrap();

    // Create 3 Files: phrog1.png, phrog2.png, phrog3.png
    let env = mock_env("anyone");
    let msg = HandleMsg::CreateMulti {
        contents_list: vec![
            String::from("phrog1"),
            String::from("phrog2"),
            String::from("phrog3"),
        ],
        path_list: vec![
            String::from("anyone/phrog1.png"),
            String::from("anyone/phrog2.png"),
            String::from("anyone/phrog3.png"),
        ],
        pkey_list: vec![String::new(), String::new(), String::new()],
        skey_list: vec![String::new(), String::new(), String::new()],
    };
    let _res = handle(&mut store, env, msg).unwrap();

    // Add alice and bob to pepe.jpg's allow write permissions
    let env = mock_env("anyone");
    let msg = HandleMsg::AllowWrite {
        path: String::from("anyone/pepe.jpg"),
        message: String::from("anyone has given you write access to [ anyone/pepe.jpg ]"),
        address_list: vec![String::from("alice"), String::from("bob")],
    };
    let _res = handle(&mut store, env, msg).unwrap();

    // Add alice and bob to phrog1.png's allow write permissions
    let env = mock_env("anyone");
    let msg = HandleMsg::AllowWrite {
        path: String::from("anyone/phrog1.png"),
        message: String::from("anyone has given you write access to [ anyone/phrog1.png ]"),
        address_list: vec![String::from("alice"), String::from("bob")],
    };
    let _res = handle(&mut store, env, msg).unwrap();

    // Add alice and bob to phrog2.png's allow write permissions
    let env = mock_env("anyone");
    let msg = HandleMsg::AllowWrite {
        path: String::from("anyone/phrog2.png"),
        message: String::from("anyone has given you write access to [ anyone/phrog2.png ]"),
        address_list: vec![String::from("alice"), String::from("bob")],
    };
    let _res = handle(&mut store, env, msg).unwrap();

    // Disallow WRITE for alice and bob
    let env = mock_env("anyone");
    let msg = HandleMsg::DisallowWrite {
        path: String::from("anyone/pepe.jpg"),
        message: String::from("anyone has revoked write access to [ anyone/pepe.jpg ]"),
        notify: true,
        address_list: vec![String::from("alice"), String::from("bob")],
    };
    let _res = handle(&mut store, env, msg).unwrap();

    // Disallow WRITE for alice and bob, without notifying
    let env = mock_env("anyone");
    let msg = HandleMsg::DisallowWrite {
        path: String::from("anyone/phrog1.png"),
        message: String::from("anyone has revoked write access to [ anyone/phrog1.png ]"),
        notify: false,
        address_list: vec![String::from("alice"), String::from("bob")],
    };
    let _res = handle(&mut store, env, msg).unwrap();

    // Disallow WRITE for alice and bob
    let env = mock_env("anyone");
    let msg = HandleMsg::DisallowWrite {
        path: String::from("anyone/phrog2.png"),
        message: String::from("anyone has revoked write access to [ anyone/phrog2.png ]"),
        notify: true,
        address_list: vec![String::from("alice"), String::from("bob")],
    };
    let _res = handle(&mut store, env, msg).unwrap();

    // Add alice and bob to phrog3.png's allow write permissions
    let env = mock_env("anyone");
    let msg = HandleMsg::AllowWrite {
        path: String::from("anyone/phrog3.png"),
        message: String::from("anyone has given you write access to [ anyone/phrog3.png ]"),
        address_list: vec![String::from("alice"), String::from("bob")],
    };
    let _res = handle(&mut store, env, msg).unwrap();

    // Reset Write
    let env = mock_env("anyone");
    let msg = HandleMsg::ResetWrite {
        path: String::from("anyone/phrog3.png"),
        message: String::from("anyone has reset write access to anyone/phrog3.png"),
        notify: true,
    };
    let _res = handle(&mut store, env, msg).unwrap();

    // Change Owner
    let env = mock_env("anyone");
    let msg = HandleMsg::ChangeOwner {
        path: String::from("anyone/phrog3.png"),
        message: String::from("anyone has given you ownership of anyone/phrog3.png"),
        new_owner: String::from("alice"),
    };
    let _res = handle(&mut store, env, msg).unwrap();

    // Query Messages for alice
    let query_res = query(
        &store,
        QueryMsg::GetMessages { behalf: "alice".to_string(), key: vk2.to_string() },
    )
    .unwrap();
    match &query_res {
        QueryAnswer::Messages(value) => println!("Alice's messages --> {:#?}", value.messages),
        _ => panic!("Unexpected query answer"),
    }

    // Query Messages for bob
    let query_res = query(
        &store,
        QueryMsg::GetMessages { behalf: "bob".to_string(), key: vk3.to_string() },
    )
    .unwrap();
    match &query_res {
        QueryAnswer::Messages(value) => println!("Bob's messages --> {:#?}", value.messages),
        _ => panic!("Unexpected query answer"),
    }

    // delete all messages for alice
    let env = mock_env("alice");
    let msg = HandleMsg::DeleteAllMessages {};
    let res = handle(&mut store, env, msg).unwrap();
    assert_eq!(0, res.messages.len());

    // delete all messages for bob
    let env = mock_env("bob");
    let msg = HandleMsg::DeleteAllMessages {};
    let res = handle(&mut store, env, msg).unwrap();
    assert_eq!(0, res.messages.len());

    // Query Messages for alice now just shows the sentinel
    let query_res = query(
        &store,
        QueryMsg::GetMessages { behalf: "alice".to_string(), key: vk2.to_string() },
    )
    .unwrap();
    match &query_res {
        QueryAnswer::Messages(value) => {
            println!("Alice's messages after deletion --> {:#?}", value.messages)
        },
        _ => panic!("Unexpected query answer"),
    }

    // Query Messages for bob now just shows the sentinel
    let query_res = query(
        &store,
        QueryMsg::GetMessages { behalf: "bob".to_string(), key: vk3.to_string() },
    )
    .unwrap();
    match &query_res {
        QueryAnswer::Messages(value) => {
            println!("Bob's messages after deletion --> {:#?}", value.messages)
        },
        _ => panic!("Unexpected query answer"),
    }
}
