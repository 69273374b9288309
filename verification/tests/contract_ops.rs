use jackal::contract::{handle, init, query};
use jackal::msg::{Env, HandleAnswer, HandleMsg, InitMsg, QueryAnswer, QueryMsg, FileResponse,
    WalletInfoResponse};
use jackal::store::Store;
use jackal::viewing_key::ViewingKey;

fn mock_env(sender: &str) -> Env {
    Env { block_height: 12_345, block_time: 1_571_797_419, sender: sender.to_string() }
}

fn init_for_test(store: &mut Store, address: String) -> ViewingKey {
    // Init Contract
    let msg = InitMsg { prng_seed: String::from("lets init bro") };
    let env = mock_env("creator");
    let _res = init(store, env, msg).unwrap();

    // Init Address and Create ViewingKey
    let env = mock_env(&address);
    let msg = HandleMsg::InitAddress {
        contents: String::from("{}"),
        entropy: String::from("Entropygoeshereboi"),
    };
    let handle_response = handle(store, env, msg).unwrap();

    match handle_response.data.unwrap() {
        HandleAnswer::CreateViewingKey { key } => key,
        _ => panic!("Unexpected result from handle"),
    }
}

fn file_answer(r: Result<QueryAnswer, jackal::msg::ContractError>) -> FileResponse {
    match r.unwrap() {
        QueryAnswer::File(f) => f,
        _ => panic!("Unexpected query answer"),
    }
}

fn wallet_answer(r: Result<QueryAnswer, jackal::msg::ContractError>) -> WalletInfoResponse {
    match r.unwrap() {
        QueryAnswer::WalletInfo(w) => w,
        _ => panic!("Unexpected query answer"),
    }
}

#[test]
fn double_init_address_test() {
    let mut store = Store::new();

    // Init Contract
    let msg = InitMsg { prng_seed: String::from("lets init bro") };
    let env = mock_env("creator");
    let _res = init(&mut store, env, msg).unwrap();

    // Init Address
    let env = mock_env("anyone");
    let msg = HandleMsg::InitAddress {
        contents: String::from("{}"),
        entropy: String::from("Entropygoeshereboi"),
    };
    let handle_response = handle(&mut store, env, msg).unwrap();
    let vk = match handle_response.data.unwrap() {
        HandleAnswer::CreateViewingKey { key } => key,
        _ => panic!("Unexpected result from handle"),
    };
    println!("{:?}", &vk);

    // Init Address Again
    let env = mock_env("anyone");
    let msg = HandleMsg::InitAddress {
        contents: String::from("{}"),
        entropy: String::from("Entropygoeshereboi"),
    };
    let handle_response = handle(&mut store, env, msg);
    assert!(handle_response.is_err());
    println!("{:#?}", handle_response);
}

#[test]
fn test_node_setup() {
    let mut store = Store::new();
    let _vk = init_for_test(&mut store, String::from("anyone"));

    let query_res = query(&store, QueryMsg::GetNodeListSize {}).unwrap();
    let size: u64 = match query_res {
        QueryAnswer::NodeListSize(s) => s,
        _ => panic!("Unexpected query answer"),
    };
    println!("{:#?}", &size);

    let env = mock_env("anyone");
    let msg = HandleMsg::InitNode {
        ip: String::from("192.168.0.1"),
        address: String::from("secret123456789"),
    };
    let _res = handle(&mut store, env, msg).unwrap();

    let query_res = query(&store, QueryMsg::GetNodeListSize {}).unwrap();
    let size: u64 = match query_res {
        QueryAnswer::NodeListSize(s) => s,
        _ => panic!("Unexpected query answer"),
    };
    println!("{:#?}", &size);

    let s = size - 1;

    let query_res = query(&store, QueryMsg::GetNodeIP { index: s }).unwrap();
    let ip: String = match query_res {
        QueryAnswer::NodeIp(ip) => ip,
        _ => panic!("Unexpected query answer"),
    };
    println!("{:#?}", &ip);
}

#[test]
fn test_create_viewing_key() {
    let mut store = Store::new();

    // init
    let msg = InitMsg { prng_seed: String::from("lets init bro") };
    let env = mock_env("anyone");
    let _res = init(&mut store, env, msg).unwrap();

    // create viewingkey
    let env = mock_env("anyone");
    let create_vk_msg = HandleMsg::CreateViewingKey {
        entropy: "supbro".to_string(),
        padding: None,
    };
    let handle_response = handle(&mut store, env, create_vk_msg).unwrap();

    let vk = match handle_response.data.unwrap() {
        HandleAnswer::CreateViewingKey { key } => key,
        _ => panic!("Unexpected result from handle"),
    };
    let test_key =
        ViewingKey("anubis_key_u25NSWPI5+wpGW7WP6eXtcBpA4RmyZ1CrJRvYFWDNQM=".to_string());
    assert_eq!(vk, test_key);
}

#[test]
fn test_create_file() {
    let mut store = Store::new();
    let vk = init_for_test(&mut store, String::from("anyone"));
    let vk2 = init_for_test(&mut store, String::from("alice"));

    // Create folder
    let env = mock_env("anyone");
    let msg = HandleMsg::Create {
        contents: String::from("I'm sad"),
        path: String::from("anyone/test/"),
        pkey: String::from("test"),
        skey: String::from("test"),
    };
    let _res = handle(&mut store, env, msg).unwrap();

    // Create File
    let env = mock_env("anyone");
    let msg = HandleMsg::Create {
        contents: String::from("I'm lonely"),
        path: String::from("anyone/pepe.jpg"),
        pkey: String::from("test"),
        skey: String::from("test"),
    };
    let _res = handle(&mut store, env, msg).unwrap();

    // anyone attempts to create a file in a folder that doesn't exist
    let env = mock_env("anyone");
    let msg = HandleMsg::Create {
        contents: String::from("Abdul"),
        path: String::from("Stacy/crazy_man.jpg"),
        pkey: String::from("test"),
        skey: String::from("test"),
    };
    let res = handle(&mut store, env, msg);
    assert!(res.is_err());
    println!("{:#?}", res);

    // Dave attempts to create a file in anyone's directory
    let env = mock_env("Dave");
    let msg = HandleMsg::Create {
        contents: String::from("Hasbullah"),
        path: String::from("anyone/silly_man.jpg"),
        pkey: String::from("test"),
        skey: String::from("test"),
    };
    let res = handle(&mut store, env, msg);
    assert!(res.is_err());
    println!("{:#?}", res);

    // anyone queries their own file with their viewing key
    let query_res = query(
        &store,
        QueryMsg::GetContents {
            path: String::from("anyone/pepe.jpg"),
            behalf: "anyone".to_string(),
            key: vk.to_string(),
        },
    );
    let value = file_answer(query_res);
    println!(" anyone/pepe.jpg:\n {:#?}", value.file);

    // wrong viewing key
    let query_res = query(
        &store,
        QueryMsg::GetContents {
            path: String::from("anyone/pepe.jpg"),
            behalf: "anyone".to_string(),
            key: "wrong_key".to_string(),
        },
    );
    assert!(query_res.is_err());
    println!("{:#?}", query_res);

    // alice has no read permission yet
    let query_res = query(
        &store,
        QueryMsg::GetContents {
            path: String::from("anyone/pepe.jpg"),
            behalf: "alice".to_string(),
            key: vk2.to_string(),
        },
    );
    assert!(query_res.is_err());
    println!("{:#?}", query_res);

    // Add alice and bob to the file's read permissions
    let env = mock_env("anyone");
    let msg = HandleMsg::AllowRead {
        path: String::from("anyone/pepe.jpg"),
        message: String::from("anyone has given you read access to [ anyone/pepe.jpg ]"),
        address_list: vec![String::from("alice"), String::from("bob")],
    };
    let _res = handle(&mut store, env, msg).unwrap();

    // alice's query will now succeed
    let query_res = query(
        &store,
        QueryMsg::GetContents {
            path: String::from("anyone/pepe.jpg"),
            behalf: "alice".to_string(),
            key: vk2.to_string(),
        },
    );
    let value = file_answer(query_res);
    println!("alice successfully queries the file:\n{:#?}", value.file);

    // Query the file to show read permissions before resetting
    let query_res = query(
        &store,
        QueryMsg::GetContents {
            path: String::from("anyone/pepe.jpg"),
            behalf: "anyone".to_string(),
            key: vk.to_string(),
        },
    );
    let value = file_answer(query_res);
    println!("Before Reset --> {:#?}", value.file);

    // Reset Read
    let env = mock_env("anyone");
    let msg = HandleMsg::ResetRead {
        path: String::from("anyone/pepe.jpg"),
        message: String::from("anyone has reset read access to anyone/pepe.jpg"),
        notify: true,
    };
    let _res = handle(&mut store, env, msg).unwrap();

    // Query File
    let query_res = query(
        &store,
        QueryMsg::GetContents {
            path: String::from("anyone/pepe.jpg"),
            behalf: "anyone".to_string(),
            key: vk.to_string(),
        },
    );
    let value = file_answer(query_res);
    println!("After Reset --> {:#?}", value.file);

    // querying the file as alice will now fail
    let query_res = query(
        &store,
        QueryMsg::GetContents {
            path: String::from("anyone/pepe.jpg"),
            behalf: "alice".to_string(),
            key: vk2.to_string(),
        },
    );
    assert!(query_res.is_err());
    println!(
        "alice's query will now fail because she was removed from allow read list:\n{:#?}",
        query_res
    );
}

#[test]
fn test_remove_file() {
    let mut store = Store::new();
    let vk = init_for_test(&mut store, String::from("anyone"));
    let vk2 = init_for_test(&mut store, String::from("alice"));

    // Create File No. 1
    let env = mock_env("anyone");
    let msg = HandleMsg::Create {
        contents: String::from("I'm sad"),
        path: String::from("anyone/pepe.jpg"),
        pkey: String::from("test"),
        skey: String::from("test"),
    };
    let _res = handle(&mut store, env, msg).unwrap();

    // Create File No. 2
    let env = mock_env("anyone");
    let msg = HandleMsg::Create {
        contents: String::from("I'm lonely"),
        path: String::from("anyone/hasbullah.jpg"),
        pkey: String::from("test"),
        skey: String::from("test"),
    };
    let _res = handle(&mut store, env, msg).unwrap();

    // Create File No. 3
    let env = mock_env("anyone");
    let msg = HandleMsg::Create {
        contents: String::from("I'm happy now :)"),
        path: String::from("anyone/sunshine.jpg"),
        pkey: String::from("test"),
        skey: String::from("test"),
    };
    let _res = handle(&mut store, env, msg).unwrap();

    // anyone queries their own file with their viewing key
    let query_res = query(
        &store,
        QueryMsg::GetContents {
            path: String::from("anyone/pepe.jpg"),
            behalf: "anyone".to_string(),
            key: vk.to_string(),
        },
    );
    let value = file_answer(query_res);
    println!(" anyone/pepe.jpg:\n {:#?}", value.file);

    // Some random user tries to remove anyone's file no. 1
    let env = mock_env("random user");
    let msg = HandleMsg::Remove { path: String::from("anyone/pepe.jpg") };
    let res = handle(&mut store, env, msg);
    assert!(res.is_err());
    println!("random user failed to remove file:\n{:#?}", res);

    // anyone tries to remove a file that doesn't exist
    let env = mock_env("anyone");
    let msg = HandleMsg::Remove { path: String::from("anyone/DoesNotExist") };
    let res = handle(&mut store, env, msg);
    assert!(res.is_err());
    println!("Failed to remove a file that doesn't exist:\n{:#?}", res);

    // Remove file no. 1
    let env = mock_env("anyone");
    let msg = HandleMsg::Remove { path: String::from("anyone/pepe.jpg") };
    let res = handle(&mut store, env, msg).unwrap();
    println!("Removed file:\n{:#?}", res);

    // anyone tries to query the deleted file
    let query_res = query(
        &store,
        QueryMsg::GetContents {
            path: String::from("anyone/pepe.jpg"),
            behalf: "anyone".to_string(),
            key: vk.to_string(),
        },
    );
    assert!(query_res.is_err());
    println!(" Querying deleted file failed:\n {:#?}", query_res);

    // remove files no. 2 and 3
    let env = mock_env("anyone");
    let msg = HandleMsg::RemoveMulti {
        path_list: vec![
            String::from("anyone/hasbullah.jpg"),
            String::from("anyone/sunshine.jpg"),
        ],
    };
    let res = handle(&mut store, env, msg).unwrap();
    println!("Successfully removed 2 files:\n{:#?}", res);

    // Create a file to be given to a new owner who can then delete it
    let env = mock_env("anyone");
    let msg = HandleMsg::Create {
        contents: String::from("King pepe"),
        path: String::from("anyone/King_pepe.jpg"),
        pkey: String::from("test"),
        skey: String::from("test"),
    };
    let _res = handle(&mut store, env, msg).unwrap();

    let env = mock_env("anyone");
    let msg = HandleMsg::ChangeOwner {
        path: String::from("anyone/King_pepe.jpg"),
        message: String::from("anyone has given you ownership of anyone/King_pepe.jpg"),
        new_owner: String::from("alice"),
    };
    let _res = handle(&mut store, env, msg).unwrap();

    // anyone tries to remove a file that doesn't belong to them anymore
    let env = mock_env("anyone");
    let msg = HandleMsg::Remove { path: String::from("anyone/King_pepe.jpg") };
    let res = handle(&mut store, env, msg);
    assert!(res.is_err());
    println!(
        "anyone failed to remove a file that doesn't belong to them anymore:\n{:#?}",
        res
    );

    // alice can remove the file now because it belongs to her
    let env = mock_env("alice");
    let msg = HandleMsg::Remove { path: String::from("anyone/King_pepe.jpg") };
    let res = handle(&mut store, env, msg).unwrap();
    println!(
        "Alice successfully removed the file that she just received from anyone:\n{:#?}",
        res
    );

    // alice tries to query the deleted file
    let query_res = query(
        &store,
        QueryMsg::GetContents {
            path: String::from("anyone/King_pepe.jpg"),
            behalf: "alice".to_string(),
            key: vk2.to_string(),
        },
    );
    assert!(query_res.is_err());
    println!(
        " Querying the file that alice just deleted will fail:\n {:#?}",
        query_res
    );
}

#[test]
fn test_multi_file() {
    let mut store = Store::new();

    let vk = init_for_test(&mut store, String::from("anyone"));

    // Create folder test/
    let env = mock_env("anyone");
    let msg = HandleMsg::Create {
        contents: String::from("<content inside test/ folder>"),
        path: String::from("anyone/test/"),
        pkey: String::from("test"),
        skey: String::from("test"),
    };
    let _res = handle(&mut store, env, msg).unwrap();

    // Create Files
    let env = mock_env("anyone");
    let msg = HandleMsg::CreateMulti {
        contents_list: vec![String::from("I'm sad"), String::from("I'm sad2")],
        path_list: vec![
            String::from("anyone/test/pepe.jpg"),
            String::from("anyone/test/pepe2.jpg"),
        ],
        pkey_list: vec![String::from("test"), String::from("test")],
        skey_list: vec![String::from("test"), String::from("test")],
    };
    let _res = handle(&mut store, env, msg).unwrap();

    // Remove Multi File
    let env = mock_env("anyone");
    let msg = HandleMsg::RemoveMulti {
        path_list: vec![
            String::from("anyone/test/pepe.jpg"),
            String::from("anyone/test/pepe2.jpg"),
        ],
    };
    let _res = handle(&mut store, env, msg).unwrap();

    // Get File
    let query_res = query(
        &store,
        QueryMsg::GetContents {
            path: String::from("anyone/test/pepe.jpg"),
            behalf: "anyone".to_string(),
            key: vk.to_string(),
        },
    );
    assert!(query_res.is_err());

    // Get WalletInfo with viewing key
    let query_res = query(
        &store,
        QueryMsg::GetWalletInfo { behalf: "anyone".to_string(), key: vk.to_string() },
    );
    let value = wallet_answer(query_res);
    println!("{:#?}", value);
}

#[test]
fn test_you_up_bro() {
    let mut store = Store::new();
    let _vk = init_for_test(&mut store, String::from("anyone"));

    let msg = QueryMsg::YouUpBro { address: String::from("anyone") };
    let query_res = query(&store, msg);
    let value = wallet_answer(query_res);
    assert_eq!(value.init, true);

    let msg = QueryMsg::YouUpBro { address: String::from("yeet") };
    let query_res = query(&store, msg);
    let value = wallet_answer(query_res);
    assert_eq!(value.init, false);
}

#[test]
fn forget_me_test() {
    let mut store = Store::new();
    let vk = init_for_test(&mut store, String::from("anyone"));

    // Create File
    let env = mock_env("anyone");
    let msg = HandleMsg::Create {
        contents: String::from("content of meme/ folder "),
        path: String::from("anyone/meme/"),
        pkey: String::from("public key"),
        skey: String::from("secret key"),
    };
    let _res = handle(&mut store, env, msg).unwrap();

    // Create Multi File
    let env = mock_env("anyone");
    let msg = HandleMsg::CreateMulti {
        contents_list: vec![String::from("I'm sad"), String::from("I'm sad2")],
        path_list: vec![
            String::from("anyone/meme/pepe.jpg"),
            String::from("anyone/meme/pepe2.jpg"),
        ],
        pkey_list: vec![String::from("test"), String::from("test")],
        skey_list: vec![String::from("test"), String::from("test")],
    };
    let _res = handle(&mut store, env, msg).unwrap();

    // Get WalletInfo with viewing key
    let query_res = query(
        &store,
        QueryMsg::GetWalletInfo { behalf: "anyone".to_string(), key: vk.to_string() },
    );
    let wallet = wallet_answer(query_res);
    println!("{:#?}", wallet);

    // Get File with viewing key
    let query_res = query(
        &store,
        QueryMsg::GetContents {
            path: String::from("anyone/meme/"),
            behalf: "anyone".to_string(),
            key: vk.to_string(),
        },
    );
    let file = file_answer(query_res);
    println!("{:#?}", file);

    // Forget Abt Me! It's not you, It's me
    let env = mock_env("anyone");
    let msg = HandleMsg::ForgetMe {};
    let _res = handle(&mut store, env, msg).unwrap();

    // Try and get the file with viewing key again
    let query_res = query(
        &store,
        QueryMsg::GetContents {
            path: String::from("anyone/meme/"),
            behalf: "anyone".to_string(),
            key: vk.to_string(),
        },
    );
    assert!(query_res.is_err());
    println!("{:#?}", query_res);

    // Get WalletInfo with viewing key
    let query_res = query(
        &store,
        QueryMsg::GetWalletInfo { behalf: "anyone".to_string(), key: vk.to_string() },
    );
    let value = wallet_answer(query_res);
    assert_eq!(value.init, false);
    assert_eq!(value.namespace, "anyone1".to_string());
    assert_eq!(value.counter, 1);
    println!("{:#?}", value);
}

#[test]
fn move_file_test() {
    let mut store = Store::new();
    let vk = init_for_test(&mut store, String::from("anyone"));

    // Create 3 folders (test/ meme_folder/ pepe/)
    let env = mock_env("anyone");
    let msg = HandleMsg::CreateMulti {
        contents_list: vec![
            String::from("<content inside test/>"),
            String::from("<content inside meme_folder/>"),
            String::from("<content inside pepe/>"),
        ],
        path_list: vec![
            String::from("anyone/test/"),
            String::from("anyone/meme_folder/"),
            String::from("anyone/pepe/"),
        ],
        pkey_list: vec![String::from("test"), String::from("test"), String::from("test")],
        skey_list: vec![String::from("test"), String::from("test"), String::from("test")],
    };
    let _res = handle(&mut store, env, msg).unwrap();

    // Create 2 Files phrog1.png and phrog2.png
    let env = mock_env("anyone");
    let msg = HandleMsg::CreateMulti {
        contents_list: vec![String::from("content 1"), String::from("content 2")],
        path_list: vec![
            String::from("anyone/test/phrog1.png"),
            String::from("anyone/test/phrog2.png"),
        ],
        pkey_list: vec![String::from("test"), String::from("test")],
        skey_list: vec![String::from("test"), String::from("test")],
    };
    let _res = handle(&mut store, env, msg).unwrap();

    // Move phrog1.png from /test/ to /meme_folder/
    let env = mock_env("anyone");
    let msg = HandleMsg::Move {
        old_path: String::from("anyone/test/phrog1.png"),
        new_path: String::from("anyone/meme_folder/phrog1.png"),
    };
    let _res = handle(&mut store, env, msg).unwrap();

    // Ensure 'anyone/test/phrog1.png' is no longer there
    let query_res = query(
        &store,
        QueryMsg::GetContents {
            path: String::from("anyone/test/phrog1.png"),
            behalf: "anyone".to_string(),
            key: vk.to_string(),
        },
    );
    assert!(query_res.is_err());
    println!(
        "Confirming that 'anyone/test/phrog1.png' no longer contains a file:\n{:#?}",
        query_res
    );

    // Dave, who doesn't own the file, tries to move phrog1.png back
    let env = mock_env("Dave");
    let msg = HandleMsg::Move {
        old_path: String::from("anyone/meme_folder/phrog1.png"),
        new_path: String::from("anyone/test/phrog1.png"),
    };
    let res = handle(&mut store, env, msg);
    assert!(res.is_err());
    println!("Dave fails to move phrog1.png:\n{:#?}", res);

    // Move phrog2.png from /test/ to /doesnt_exist/
    let env = mock_env("anyone");
    let msg = HandleMsg::Move {
        old_path: String::from("anyone/test/phrog2.png"),
        new_path: String::from("anyone/doesnt_exist/phrog2.png"),
    };
    let res = handle(&mut store, env, msg);
    assert!(res.is_err());
    println!(
        "Trying to move phrog2.png to a folder that doesn't exist:\n{:#?}",
        res
    );

    // Create 2 Files pepe1.png and pepe2.png
    let env = mock_env("anyone");
    let msg = HandleMsg::CreateMulti {
        contents_list: vec![String::from("content 1"), String::from("content 2")],
        path_list: vec![
            String::from("anyone/test/pepe1.png"),
            String::from("anyone/test/pepe2.png"),
        ],
        pkey_list: vec![String::from("test"), String::from("test")],
        skey_list: vec![String::from("test"), String::from("test")],
    };
    let _res = handle(&mut store, env, msg).unwrap();

    // Move pepe1.png and pepe2.png from /test/ to /pepe/
    let env = mock_env("anyone");
    let msg = HandleMsg::MoveMulti {
        old_path_list: vec![
            String::from("anyone/test/pepe1.png"),
            String::from("anyone/test/pepe2.png"),
        ],
        new_path_list: vec![
            String::from("anyone/pepe/pepe1.png"),
            String::from("anyone/pepe/pepe2.png"),
        ],
    };
    let _res = handle(&mut store, env, msg).unwrap();

    // Get WalletInfo with viewing key
    let query_res = query(
        &store,
        QueryMsg::GetWalletInfo { behalf: "anyone".to_string(), key: vk.to_string() },
    );
    let value = wallet_answer(query_res);
    println!("{:#?}", value);
}
