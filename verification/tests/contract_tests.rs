//! End-to-end exercises of the contract through `init`, `handle` and
//! `query`, with the block height and time a local mock chain reports.

use anubis::contract::{handle, init, query};
use anubis::msg::{HandleAnswer, HandleMsg, InitMsg, QueryAnswer, QueryMsg};
use anubis::state::State;
use anubis::viewing_key::ViewingKey;
use anubis::backend::make_file;

const MOCK_HEIGHT: u64 = 12_345;
const MOCK_TIME: u64 = 1_571_797_419;

fn init_for_test(state: &mut State, address: &str) -> ViewingKey {
    let msg = HandleMsg::InitAddress {
        contents: String::from("{}"),
        entropy: String::from("Entropygoeshereboi"),
    };
    let handle_response = handle(state, &String::from(address), MOCK_HEIGHT, MOCK_TIME, msg);
    match handle_response.unwrap() {
        HandleAnswer::CreateViewingKey { key } => key,
        _ => panic!("Unexpected result from handle"),
    }
}

fn fresh_contract() -> State {
    let msg = InitMsg { prng_seed: String::from("lets init bro") };
    init(String::from("creator"), msg)
}

fn get_file(state: &State, path: &str, behalf: &str, key: &ViewingKey) -> anubis::msg::FileResponse {
    let query_res = query(
        state,
        QueryMsg::GetContents {
            path: String::from(path),
            behalf: String::from(behalf),
            key: key.to_string(),
        },
    );
    match query_res.unwrap() {
        QueryAnswer::File(resp) => resp,
        _ => panic!("unexpected query answer"),
    }
}

fn get_wallet_info(state: &State, behalf: &str, key: &ViewingKey) -> anubis::msg::WalletInfoResponse {
    let query_res = query(
        state,
        QueryMsg::GetWalletInfo { behalf: String::from(behalf), key: key.to_string() },
    );
    match query_res.unwrap() {
        QueryAnswer::WalletInfo(w) => w,
        _ => panic!("unexpected query answer"),
    }
}

#[test]
fn double_init_address_test() {
    let mut deps = fresh_contract();

    // Init Address
    let msg = HandleMsg::InitAddress {
        contents: String::from("{}"),
        entropy: String::from("Entropygoeshereboi"),
    };
    let handle_response = handle(&mut deps, &String::from("anyone"), MOCK_HEIGHT, MOCK_TIME, msg);
    let vk = match handle_response.unwrap() {
        HandleAnswer::CreateViewingKey { key } => key,
        _ => panic!("Unexpected result from handle"),
    };
    println!("{:?}", &vk);

    // Init Address Again
    let msg = HandleMsg::InitAddress {
        contents: String::from("{}"),
        entropy: String::from("Entropygoeshereboi"),
    };
    let handle_response = handle(&mut deps, &String::from("anyone"), MOCK_HEIGHT, MOCK_TIME, msg);
    assert!(handle_response.is_err());
    println!("{:#?}", handle_response);
}

#[test]
fn test_node_setup() {
    let mut deps = fresh_contract();
    let _vk = init_for_test(&mut deps, "anyone");

    let query_res = query(&deps, QueryMsg::GetNodeListSize {}).unwrap();
    let size: u64 = match query_res {
        QueryAnswer::NodeListSize(n) => n,
        _ => panic!("unexpected query answer"),
    };
    println!("{:#?}", &size);

    let msg = HandleMsg::InitNode {
        ip: String::from("192.168.0.1"),
        address: String::from("secret123456789"),
    };
    let _res = handle(&mut deps, &String::from("anyone"), MOCK_HEIGHT, MOCK_TIME, msg).unwrap();

    let query_res = query(&deps, QueryMsg::GetNodeListSize {}).unwrap();
    let size: u64 = match query_res {
        QueryAnswer::NodeListSize(n) => n,
        _ => panic!("unexpected query answer"),
    };
    println!("{:#?}", &size);

    let s = size - 1;

    let query_res = query(&deps, QueryMsg::GetNodeIP { index: s }).unwrap();
    let ip: String = match query_res {
        QueryAnswer::NodeIp(ip) => ip,
        _ => panic!("unexpected query answer"),
    };
    println!("{:#?}", &ip);
}

#[test]
fn test_create_viewing_key() {
    // init
    let msg = InitMsg { prng_seed: String::from("lets init bro") };
    let mut deps = init(String::from("anyone"), msg);

    // create viewingkey
    let create_vk_msg = HandleMsg::CreateViewingKey {
        entropy: "supbro".to_string(),
        padding: None,
    };
    let handle_response =
        handle(&mut deps, &String::from("anyone"), MOCK_HEIGHT, MOCK_TIME, create_vk_msg);
    let vk = match handle_response.unwrap() {
        HandleAnswer::CreateViewingKey { key } => key,
        _ => panic!("Unexpected result from handle"),
    };
    let test_key = ViewingKey("anubis_key_u25NSWPI5+wpGW7WP6eXtcBpA4RmyZ1CrJRvYFWDNQM=".to_string());
    assert_eq!(vk, test_key);
}

#[test]
fn test_create_file() {
    let mut deps = fresh_contract();
    let vk = init_for_test(&mut deps, "anyone");
    let vk2 = init_for_test(&mut deps, "alice");

    // Create folder test/
    let msg = HandleMsg::Create {
        contents: String::from("I'm sad"),
        path: String::from("anyone/test/"),
        pkey: String::from("test"),
        skey: String::from("test"),
    };
    let _res = handle(&mut deps, &String::from("anyone"), MOCK_HEIGHT, MOCK_TIME, msg).unwrap();

    // Create File
    let msg = HandleMsg::Create {
        contents: String::from("I'm lonely"),
        path: String::from("anyone/pepe.jpg"),
        pkey: String::from("test"),
        skey: String::from("test"),
    };
    let _res = handle(&mut deps, &String::from("anyone"), MOCK_HEIGHT, MOCK_TIME, msg).unwrap();

    // anyone attempts to create file in a folder that doesn't exist. Will fail.
    let msg = HandleMsg::Create {
        contents: String::from("Abdul"),
        path: String::from("Stacy/crazy_man.jpg"),
        pkey: String::from("test"),
        skey: String::from("test"),
    };
    let res = handle(&mut deps, &String::from("anyone"), MOCK_HEIGHT, MOCK_TIME, msg);
    assert!(res.is_err());
    println!("{:#?}", res);

    // Dave attempts to create file in anyone's directory. Will fail.
    let msg = HandleMsg::Create {
        contents: String::from("Hasbullah"),
        path: String::from("anyone/silly_man.jpg"),
        pkey: String::from("test"),
        skey: String::from("test"),
    };
    let res = handle(&mut deps, &String::from("Dave"), MOCK_HEIGHT, MOCK_TIME, msg);
    assert!(res.is_err());
    println!("{:#?}", res);

    // anyone queries their own file with their viewing key. Will succeed.
    let value = get_file(&deps, "anyone/pepe.jpg", "anyone", &vk);
    println!(" anyone/pepe.jpg:\n {:#?}", value.file);

    // anyone tries to query their file with the wrong viewing key.
    let query_res = query(
        &deps,
        QueryMsg::GetContents {
            path: String::from("anyone/pepe.jpg"),
            behalf: String::from("anyone"),
            key: "wrong_key".to_string(),
        },
    );
    assert!(query_res.is_err());
    println!("{:#?}", query_res);

    // alice attempts to use her viewing key to query anyone's file.
    let query_res = query(
        &deps,
        QueryMsg::GetContents {
            path: String::from("anyone/pepe.jpg"),
            behalf: String::from("alice"),
            key: vk2.to_string(),
        },
    );
    assert!(query_res.is_err());
    println!("{:#?}", query_res);

    // Add alice and bob to file's allow read permissions
    let msg = HandleMsg::AllowRead {
        path: String::from("anyone/pepe.jpg"),
        address_list: vec![String::from("alice"), String::from("bob")],
    };
    let _res = handle(&mut deps, &String::from("anyone"), MOCK_HEIGHT, MOCK_TIME, msg).unwrap();

    // alice's query will now succeed
    let value = get_file(&deps, "anyone/pepe.jpg", "alice", &vk2);
    println!("alice successfully queries the file:\n{:#?}", value.file);

    // Query File to show read permissions before resetting
    let value = get_file(&deps, "anyone/pepe.jpg", "anyone", &vk);
    println!("Before Reset --> {:#?}", value.file);

    // Reset Read
    let msg = HandleMsg::ResetRead { path: String::from("anyone/pepe.jpg") };
    let _res = handle(&mut deps, &String::from("anyone"), MOCK_HEIGHT, MOCK_TIME, msg).unwrap();

    // Query File
    let value = get_file(&deps, "anyone/pepe.jpg", "anyone", &vk);
    println!("After Reset --> {:#?}", value.file);

    // querying file as alice will now fail
    let query_res = query(
        &deps,
        QueryMsg::GetContents {
            path: String::from("anyone/pepe.jpg"),
            behalf: String::from("alice"),
            key: vk2.to_string(),
        },
    );
    assert!(query_res.is_err());
    println!("alice's query will now fail because she was removed from allow read list:\n{:#?}", query_res);
}

#[test]
fn test_remove_file() {
    let mut deps = fresh_contract();
    let vk = init_for_test(&mut deps, "anyone");
    let vk2 = init_for_test(&mut deps, "alice");

    // Create File No. 1
    let msg = HandleMsg::Create {
        contents: String::from("I'm sad"),
        path: String::from("anyone/pepe.jpg"),
        pkey: String::from("test"),
        skey: String::from("test"),
    };
    let _res = handle(&mut deps, &String::from("anyone"), MOCK_HEIGHT, MOCK_TIME, msg).unwrap();

    // Create File No. 2
    let msg = HandleMsg::Create {
        contents: String::from("I'm lonely"),
        path: String::from("anyone/hasbullah.jpg"),
        pkey: String::from("test"),
        skey: String::from("test"),
    };
    let _res = handle(&mut deps, &String::from("anyone"), MOCK_HEIGHT, MOCK_TIME, msg).unwrap();

    // Create File No. 3
    let msg = HandleMsg::Create {
        contents: String::from("I'm happy now :)"),
        path: String::from("anyone/sunshine.jpg"),
        pkey: String::from("test"),
        skey: String::from("test"),
    };
    let _res = handle(&mut deps, &String::from("anyone"), MOCK_HEIGHT, MOCK_TIME, msg).unwrap();

    // anyone queries their own file with their viewing key. Will succeed.
    let value = get_file(&deps, "anyone/pepe.jpg", "anyone", &vk);
    println!(" anyone/pepe.jpg:\n {:#?}", value.file);

    // Some random user tries to remove anyone's file no. 1. Will fail.
    let msg = HandleMsg::Remove { path: String::from("anyone/pepe.jpg") };
    let res = handle(&mut deps, &String::from("random user"), MOCK_HEIGHT, MOCK_TIME, msg);
    assert!(res.is_err());
    println!("random user failed to remove file:\n{:#?}", res);

    // anyone tries to remove a file that doesn't exist. Will fail.
    let msg = HandleMsg::Remove { path: String::from("anyone/DoesNotExist") };
    let res = handle(&mut deps, &String::from("anyone"), MOCK_HEIGHT, MOCK_TIME, msg);
    assert!(res.is_err());
    println!("Failed to remove a file that doesn't exist:\n{:#?}", res);

    // Remove file no. 1. Will succeed.
    let msg = HandleMsg::Remove { path: String::from("anyone/pepe.jpg") };
    let res = handle(&mut deps, &String::from("anyone"), MOCK_HEIGHT, MOCK_TIME, msg).unwrap();
    println!("Removed file:\n{:#?}", res);

    // anyone tries to query the deleted file. Will fail.
    let query_res = query(
        &deps,
        QueryMsg::GetContents {
            path: String::from("anyone/pepe.jpg"),
            behalf: String::from("anyone"),
            key: vk.to_string(),
        },
    );
    assert!(query_res.is_err());
    println!(" Querying deleted file failed:\n {:#?}", query_res);

    // remove files no. 2 and 3
    let msg = HandleMsg::RemoveMulti {
        path_list: vec![String::from("anyone/hasbullah.jpg"), String::from("anyone/sunshine.jpg")],
    };
    let res = handle(&mut deps, &String::from("anyone"), MOCK_HEIGHT, MOCK_TIME, msg).unwrap();
    println!("Successfully removed 2 files:\n{:#?}", res);

    // Create file to be given to new owner and then that owner can delete
    let msg = HandleMsg::Create {
        contents: String::from("King pepe"),
        path: String::from("anyone/King_pepe.jpg"),
        pkey: String::from("test"),
        skey: String::from("test"),
    };
    let _res = handle(&mut deps, &String::from("anyone"), MOCK_HEIGHT, MOCK_TIME, msg).unwrap();

    let msg = HandleMsg::ChangeOwner {
        path: String::from("anyone/King_pepe.jpg"),
        new_owner: String::from("alice"),
    };
    let _res = handle(&mut deps, &String::from("anyone"), MOCK_HEIGHT, MOCK_TIME, msg).unwrap();

    // anyone tries to remove a file that doesn't belong to them anymore. Will fail
    let msg = HandleMsg::Remove { path: String::from("anyone/King_pepe.jpg") };
    let res = handle(&mut deps, &String::from("anyone"), MOCK_HEIGHT, MOCK_TIME, msg);
    assert!(res.is_err());
    println!("anyone failed to remove a file that doesn't belong to them anymore:\n{:#?}", res);

    // alice can remove the file now because it belongs to her
    let msg = HandleMsg::Remove { path: String::from("anyone/King_pepe.jpg") };
    let res = handle(&mut deps, &String::from("alice"), MOCK_HEIGHT, MOCK_TIME, msg).unwrap();
    println!("Alice successfully removed the file that she just received from anyone:\n{:#?}", res);

    // alice tries to query the deleted file. Will fail.
    let query_res = query(
        &deps,
        QueryMsg::GetContents {
            path: String::from("anyone/King_pepe.jpg"),
            behalf: String::from("alice"),
            key: vk2.to_string(),
        },
    );
    assert!(query_res.is_err());
    println!(" Querying the file that alice just deleted will fail:\n {:#?}", query_res);
}

#[test]
fn test_multi_file() {
    let mut deps = fresh_contract();
    let vk = init_for_test(&mut deps, "anyone");

    // Create folder test/
    let msg = HandleMsg::Create {
        contents: String::from("<content inside test/ folder>"),
        path: String::from("anyone/test/"),
        pkey: String::from("test"),
        skey: String::from("test"),
    };
    let _res = handle(&mut deps, &String::from("anyone"), MOCK_HEIGHT, MOCK_TIME, msg).unwrap();

    // Create File
    let msg = HandleMsg::CreateMulti {
        contents_list: vec![String::from("I'm sad"), String::from("I'm sad2")],
        path_list: vec![String::from("anyone/test/pepe.jpg"), String::from("anyone/test/pepe2.jpg")],
        pkey_list: vec![String::from("test"), String::from("test")],
        skey_list: vec![String::from("test"), String::from("test")],
    };
    let _res = handle(&mut deps, &String::from("anyone"), MOCK_HEIGHT, MOCK_TIME, msg).unwrap();

    // Remove Multi File
    let msg = HandleMsg::RemoveMulti {
        path_list: vec![String::from("anyone/test/pepe.jpg"), String::from("anyone/test/pepe2.jpg")],
    };
    let _res = handle(&mut deps, &String::from("anyone"), MOCK_HEIGHT, MOCK_TIME, msg).unwrap();

    // Get File
    let query_res = query(
        &deps,
        QueryMsg::GetContents {
            path: String::from("anyone/test/pepe.jpg"),
            behalf: String::from("anyone"),
            key: vk.to_string(),
        },
    );
    assert!(query_res.is_err());

    // Get WalletInfo with viewing key
    let value = get_wallet_info(&deps, "anyone", &vk);
    println!("{:#?}", value);
}

#[test]
fn test_you_up_bro() {
    let mut deps = fresh_contract();
    let _vk = init_for_test(&mut deps, "anyone");

    let msg = QueryMsg::YouUpBro { address: String::from("anyone") };
    let query_res = query(&deps, msg).unwrap();
    let value = match query_res {
        QueryAnswer::WalletInfo(w) => w,
        _ => panic!("unexpected query answer"),
    };
    assert_eq!(value.init, true);

    let msg = QueryMsg::YouUpBro { address: String::from("yeet") };
    let query_res = query(&deps, msg).unwrap();
    let value = match query_res {
        QueryAnswer::WalletInfo(w) => w,
        _ => panic!("unexpected query answer"),
    };
    assert_eq!(value.init, false);
}

#[test]
fn forget_me_test() {
    let mut deps = fresh_contract();
    let vk = init_for_test(&mut deps, "anyone");

    // Create File
    let msg = HandleMsg::Create {
        contents: String::from("content of meme/ folder "),
        path: String::from("anyone/meme/"),
        pkey: String::from("public key"),
        skey: String::from("secret key"),
    };
    let _res = handle(&mut deps, &String::from("anyone"), MOCK_HEIGHT, MOCK_TIME, msg).unwrap();

    // Create Multi File
    let msg = HandleMsg::CreateMulti {
        contents_list: vec![String::from("I'm sad"), String::from("I'm sad2")],
        path_list: vec![String::from("anyone/meme/pepe.jpg"), String::from("anyone/meme/pepe2.jpg")],
        pkey_list: vec![String::from("test"), String::from("test")],
        skey_list: vec![String::from("test"), String::from("test")],
    };
    let _res = handle(&mut deps, &String::from("anyone"), MOCK_HEIGHT, MOCK_TIME, msg).unwrap();

    // Get WalletInfo with viewing key
    let wallet = get_wallet_info(&deps, "anyone", &vk);
    println!("{:#?}", wallet);

    // Get File with viewing key
    let file = get_file(&deps, "anyone/meme/", "anyone", &vk);
    println!("{:#?}", file);

    // Forget me
    let msg = HandleMsg::ForgetMe {};
    let _res = handle(&mut deps, &String::from("anyone"), MOCK_HEIGHT, MOCK_TIME, msg).unwrap();

    // Try and get the file with viewing key again
    let query_res = query(
        &deps,
        QueryMsg::GetContents {
            path: String::from("anyone/meme/"),
            behalf: String::from("anyone"),
            key: vk.to_string(),
        },
    );
    assert!(query_res.is_err());
    println!("{:#?}", query_res);

    // Get WalletInfo with viewing key
    let value = get_wallet_info(&deps, "anyone", &vk);
    assert_eq!(value.init, false);
    assert_eq!(value.namespace, "anyone1".to_string());
    assert_eq!(value.counter, 1);
    println!("{:#?}", value);
}

#[test]
fn move_file_test() {
    let mut deps = fresh_contract();
    let vk = init_for_test(&mut deps, "anyone");

    // Create 3 folders (test/ meme_folder/ pepe/)
    let msg = HandleMsg::CreateMulti {
        contents_list: vec![
            String::from("<content inside test/>"),
            String::from("<content inside meme_folder/>"),
            String::from("<content inside pepe/>"),
        ],
        path_list: vec![
            String::from("anyone/test/"),
            String::from("anyone/meme_folder/"),
            String::from("anyone/pepe/"),
        ],
        pkey_list: vec![String::from("test"), String::from("test"), String::from("test")],
        skey_list: vec![String::from("test"), String::from("test"), String::from("test")],
    };
    let _res = handle(&mut deps, &String::from("anyone"), MOCK_HEIGHT, MOCK_TIME, msg).unwrap();

    // Create 2 Files phrog1.png and phrog2.png
    let msg = HandleMsg::CreateMulti {
        contents_list: vec![String::from("content 1"), String::from("content 2")],
        path_list: vec![String::from("anyone/test/phrog1.png"), String::from("anyone/test/phrog2.png")],
        pkey_list: vec![String::from("test"), String::from("test")],
        skey_list: vec![String::from("test"), String::from("test")],
    };
    let _res = handle(&mut deps, &String::from("anyone"), MOCK_HEIGHT, MOCK_TIME, msg).unwrap();

    // Move phrog1.png from /test/ to /meme_folder/
    let msg = HandleMsg::Move {
        old_path: String::from("anyone/test/phrog1.png"),
        new_path: String::from("anyone/meme_folder/phrog1.png"),
    };
    let _res = handle(&mut deps, &String::from("anyone"), MOCK_HEIGHT, MOCK_TIME, msg).unwrap();

    // Try to query "anyone/test/phrog1.png" to ensure it's no longer there
    let query_res = query(
        &deps,
        QueryMsg::GetContents {
            path: String::from("anyone/test/phrog1.png"),
            behalf: String::from("anyone"),
            key: vk.to_string(),
        },
    );
    assert!(query_res.is_err());
    println!("Confirming that 'anyone/test/phrog1.png' no longer contains a file:\n{:#?}", query_res);

    // Dave, who doesn't own the file, tries to move phrog1.png back. Will fail.
    let msg = HandleMsg::Move {
        old_path: String::from("anyone/meme_folder/phrog1.png"),
        new_path: String::from("anyone/test/phrog1.png"),
    };
    let res = handle(&mut deps, &String::from("Dave"), MOCK_HEIGHT, MOCK_TIME, msg);
    assert!(res.is_err());
    println!("Dave fails to move phrog1.png:\n{:#?}", res);

    // Move phrog2.png from /test/ to /doesnt_exist/
    let msg = HandleMsg::Move {
        old_path: String::from("anyone/test/phrog2.png"),
        new_path: String::from("anyone/doesnt_exist/phrog2.png"),
    };
    let res = handle(&mut deps, &String::from("anyone"), MOCK_HEIGHT, MOCK_TIME, msg);
    assert!(res.is_err());
    println!("Trying to move phrog2.png to a folder that doesn't exist:\n{:#?}", res);

    // Create 2 Files pepe1.png and pepe2.png
    let msg = HandleMsg::CreateMulti {
        contents_list: vec![String::from("content 1"), String::from("content 2")],
        path_list: vec![String::from("anyone/test/pepe1.png"), String::from("anyone/test/pepe2.png")],
        pkey_list: vec![String::from("test"), String::from("test")],
        skey_list: vec![String::from("test"), String::from("test")],
    };
    let _res = handle(&mut deps, &String::from("anyone"), MOCK_HEIGHT, MOCK_TIME, msg).unwrap();

    // Move pepe1.png and pepe2.png from /test/ to /pepe/
    let msg = HandleMsg::MoveMulti {
        old_path_list: vec![String::from("anyone/test/pepe1.png"), String::from("anyone/test/pepe2.png")],
        new_path_list: vec![String::from("anyone/pepe/pepe1.png"), String::from("anyone/pepe/pepe2.png")],
    };
    let _res = handle(&mut deps, &String::from("anyone"), MOCK_HEIGHT, MOCK_TIME, msg).unwrap();

    // Get WalletInfo with viewing key
    let value = get_wallet_info(&deps, "anyone", &vk);
    println!("{:#?}", value);
}

#[test]
fn change_owner_and_move_test() {
    let mut deps = fresh_contract();
    let _vk = init_for_test(&mut deps, "anyone");
    let vk2 = init_for_test(&mut deps, "alice");

    // Create 3 folders (test/ meme_folder/ junior/)
    let msg = HandleMsg::CreateMulti {
        contents_list: vec![
            String::from("<content inside test/>"),
            String::from("<content inside meme_folder/>"),
            String::from("<content inside junior/>"),
        ],
        path_list: vec![
            String::from("anyone/test/"),
            String::from("anyone/meme_folder/"),
            String::from("anyone/junior/"),
        ],
        pkey_list: vec![String::from("test"), String::from("test"), String::from("test")],
        skey_list: vec![String::from("test"), String::from("test"), String::from("test")],
    };
    let _res = handle(&mut deps, &String::from("anyone"), MOCK_HEIGHT, MOCK_TIME, msg).unwrap();

    // Create 2 Files bunny1.png and bunny2.png
    let msg = HandleMsg::CreateMulti {
        contents_list: vec![String::from("bunny1"), String::from("bunny2")],
        path_list: vec![String::from("anyone/test/bunny1.png"), String::from("anyone/test/bunny2.png")],
        pkey_list: vec![String::from("test"), String::from("test")],
        skey_list: vec![String::from("test"), String::from("test")],
    };
    let _res = handle(&mut deps, &String::from("anyone"), MOCK_HEIGHT, MOCK_TIME, msg).unwrap();

    // Give ownership of bunny1.png to alice
    let msg = HandleMsg::ChangeOwner {
        path: String::from("anyone/test/bunny1.png"),
        new_owner: String::from("alice"),
    };
    let _res = handle(&mut deps, &String::from("anyone"), MOCK_HEIGHT, MOCK_TIME, msg).unwrap();

    // Get bunny1 with alice's viewing key to ensure alice is now owner
    let value = get_file(&deps, "anyone/test/bunny1.png", "alice", &vk2);
    println!("alice owns bunny1:\n {:#?}", value.file);

    // alice tries to move bunny1 to anyone/meme_folder, which will fail
    let msg = HandleMsg::Move {
        old_path: String::from("anyone/test/bunny1.png"),
        new_path: String::from("anyone/meme_folder/bunny1.png"),
    };
    let res = handle(&mut deps, &String::from("alice"), MOCK_HEIGHT, MOCK_TIME, msg);
    assert!(res.is_err());
    println!("Alice fails to move bunny1 to anyone/meme_folder:\n {:#?}", res);

    // lets make a folder inside of alice's root directory to store her new bunny in
    let msg = HandleMsg::Create {
        contents: "bunnys go here".to_string(),
        path: String::from("alice/bunny_home/"),
        pkey: "test".to_string(),
        skey: "test".to_string(),
    };
    let _res = handle(&mut deps, &String::from("alice"), MOCK_HEIGHT, MOCK_TIME, msg).unwrap();
    println!("Successfully created alice/bunny_home/:\n {:#?}", _res);

    // Get alice/bunny_home/ with Alice's viewing key to ensure it exists
    let value = get_file(&deps, "alice/bunny_home/", "alice", &vk2);
    println!("alice/bunny_home:\n {:#?}", value.file);

    // now alice can move bunny1 into alice/bunny_home/
    let msg = HandleMsg::Move {
        old_path: String::from("anyone/test/bunny1.png"),
        new_path: String::from("alice/bunny_home/bunny1.png"),
    };
    let res = handle(&mut deps, &String::from("alice"), MOCK_HEIGHT, MOCK_TIME, msg).unwrap();
    println!("Alice successfully moves bunny1 to alice/bunny_home/:\n {:#?}", res);

    // Get bunny1 with alice's viewing key to ensure it is in alice/bunny_home
    let value = get_file(&deps, "alice/bunny_home/bunny1.png", "alice", &vk2);
    println!("bunny1 is in alice/bunny_home:\n {:#?}", value);

    // Try to query "anyone/test/bunny1.png" to ensure it's no longer there
    let query_res = query(
        &deps,
        QueryMsg::GetContents {
            path: String::from("anyone/test/bunny1.png"),
            behalf: String::from("alice"),
            key: vk2.to_string(),
        },
    );
    assert!(query_res.is_err());
    println!("Confirming that 'anyone/test/bunny1.png' no longer contains a file:\n{:#?}", query_res);
}

#[test]
fn alice_moving_within_anyone_rootfolder() {
    let mut deps = fresh_contract();
    let _vk = init_for_test(&mut deps, "anyone");
    let vk2 = init_for_test(&mut deps, "alice");

    // Create 2 folders (test/, junior/)
    let msg = HandleMsg::CreateMulti {
        contents_list: vec![
            String::from("<content inside test/>"),
            String::from("<content inside junior/>"),
        ],
        path_list: vec![String::from("anyone/test/"), String::from("anyone/junior/")],
        pkey_list: vec![String::from("test"), String::from("test")],
        skey_list: vec![String::from("test"), String::from("test")],
    };
    let _res = handle(&mut deps, &String::from("anyone"), MOCK_HEIGHT, MOCK_TIME, msg).unwrap();

    // Create bunny.png
    let msg = HandleMsg::Create {
        contents: String::from("bunny"),
        path: String::from("anyone/test/bunny.png"),
        pkey: String::from("test"),
        skey: String::from("test"),
    };
    let _res = handle(&mut deps, &String::from("anyone"), MOCK_HEIGHT, MOCK_TIME, msg).unwrap();

    // Give ownership of bunny.png to alice
    let msg = HandleMsg::ChangeOwner {
        path: String::from("anyone/test/bunny.png"),
        new_owner: String::from("alice"),
    };
    let _res = handle(&mut deps, &String::from("anyone"), MOCK_HEIGHT, MOCK_TIME, msg).unwrap();

    // Get bunny with alice's viewing key to ensure alice is now owner
    let value = get_file(&deps, "anyone/test/bunny.png", "alice", &vk2);
    println!("alice owns bunny:\n {:#?}", value.file);

    // alice tries to move bunny to anyone/junior, which will fail
    let msg = HandleMsg::Move {
        old_path: String::from("anyone/test/bunny.png"),
        new_path: String::from("anyone/junior/bunny.png"),
    };
    let res = handle(&mut deps, &String::from("alice"), MOCK_HEIGHT, MOCK_TIME, msg);
    assert!(res.is_err());
    println!("Alice fails to move bunny to anyone/junior:\n {:#?}", res);

    // add alice to write permissions of anyone/junior/
    let msg = HandleMsg::AllowWrite {
        path: "anyone/junior/".to_string(),
        address_list: vec!["alice".to_string()],
    };
    let _res = handle(&mut deps, &String::from("anyone"), MOCK_HEIGHT, MOCK_TIME, msg).unwrap();

    // alice again tries to move bunny to anyone/junior, will succeed
    let msg = HandleMsg::Move {
        old_path: String::from("anyone/test/bunny.png"),
        new_path: String::from("anyone/junior/bunny.png"),
    };
    let res = handle(&mut deps, &String::from("alice"), MOCK_HEIGHT, MOCK_TIME, msg).unwrap();
    println!("Alice successfully moves bunny to anyone/junior:\n {:#?}", res);

    // Get bunny with alice's viewing key to ensure it is in anyone/junior
    let value = get_file(&deps, "anyone/junior/bunny.png", "alice", &vk2);
    println!("bunny is in anyone/junior:\n {:#?}", value.file);

    // Try to query "anyone/test/bunny.png" to ensure it's no longer there
    let query_res = query(
        &deps,
        QueryMsg::GetContents {
            path: String::from("anyone/test/bunny.png"),
            behalf: String::from("alice"),
            key: vk2.to_string(),
        },
    );
    assert!(query_res.is_err());
    println!("Confirming that 'anyone/test/bunny.png' no longer contains a file:\n{:#?}", query_res);
}

#[test]
fn permission_test() {
    let mut deps = fresh_contract();
    let vk = init_for_test(&mut deps, "anyone");
    let vk2 = init_for_test(&mut deps, "alice");

    // Create Folder Test
    let msg = HandleMsg::Create {
        contents: String::from("<content of test/ folder>"),
        path: String::from("anyone/test/"),
        pkey: String::from("test"),
        skey: String::from("test"),
    };
    let _res = handle(&mut deps, &String::from("anyone"), MOCK_HEIGHT, MOCK_TIME, msg).unwrap();

    // Create File
    let msg = HandleMsg::Create {
        contents: String::from("I'm sad"),
        path: String::from("anyone/pepe.jpg"),
        pkey: String::from("test"),
        skey: String::from("test"),
    };
    let _res = handle(&mut deps, &String::from("anyone"), MOCK_HEIGHT, MOCK_TIME, msg).unwrap();

    // Allow WRITE for Alice, Bob and Charlie
    let msg = HandleMsg::AllowWrite {
        path: String::from("anyone/test/"),
        address_list: vec![String::from("alice"), String::from("bob"), String::from("charlie")],
    };
    let _res = handle(&mut deps, &String::from("anyone"), MOCK_HEIGHT, MOCK_TIME, msg).unwrap();

    // Allow READ for Alice, Bob and Charlie
    let msg = HandleMsg::AllowRead {
        path: String::from("anyone/test/"),
        address_list: vec![String::from("alice"), String::from("bob"), String::from("charlie")],
    };
    let _res = handle(&mut deps, &String::from("anyone"), MOCK_HEIGHT, MOCK_TIME, msg).unwrap();

    // Get File with Alice's viewing key
    let query_res = query(
        &deps,
        QueryMsg::GetContents {
            path: String::from("anyone/test/"),
            behalf: String::from("alice"),
            key: vk2.to_string(),
        },
    );
    assert!(query_res.is_ok());

    // Disallow WRITE for Alice, Bob and Charlie
    let msg = HandleMsg::DisallowWrite {
        path: String::from("anyone/test/"),
        address_list: vec![String::from("alice"), String::from("bob"), String::from("charlie")],
    };
    let _res = handle(&mut deps, &String::from("anyone"), MOCK_HEIGHT, MOCK_TIME, msg).unwrap();

    // Disallow READ for Alice, Bob and Charlie
    let msg = HandleMsg::DisallowRead {
        path: String::from("anyone/test/"),
        address_list: vec![String::from("alice"), String::from("bob"), String::from("charlie")],
    };
    let _res = handle(&mut deps, &String::from("anyone"), MOCK_HEIGHT, MOCK_TIME, msg).unwrap();

    // Get File with Anyone's viewing key
    let value = get_file(&deps, "anyone/test/", "anyone", &vk);
    let test = make_file("anyone", "<content of test/ folder>");
    assert_eq!(test, value.file);
}

#[test]
fn test_owner_change() {
    let mut deps = fresh_contract();
    let vk_anyone = init_for_test(&mut deps, "anyone");
    let vk_alice = init_for_test(&mut deps, "alice");

    // Create File
    let msg = HandleMsg::Create {
        contents: String::from("Rainbows"),
        path: String::from("anyone/test/"),
        pkey: String::from("public key"),
        skey: String::from("secret key"),
    };
    let _res = handle(&mut deps, &String::from("anyone"), MOCK_HEIGHT, MOCK_TIME, msg).unwrap();

    // Get File with viewing key to see the owner
    let value = get_file(&deps, "anyone/test/", "anyone", &vk_anyone);
    println!("See owner --> {:#?}", value.file);

    // Change owner. At the moment, only anyone (the owner) can do this
    let msg = HandleMsg::ChangeOwner {
        path: String::from("anyone/test/"),
        new_owner: String::from("alice"),
    };
    let _res = handle(&mut deps, &String::from("anyone"), MOCK_HEIGHT, MOCK_TIME, msg).unwrap();

    // Now alice can query "anyone/test/" but anyone cannot.
    let value = get_file(&deps, "anyone/test/", "alice", &vk_alice);
    println!("Only alice can query 'anyone/test/' See owner --> {:#?}", value.file);

    // Query File as anyone will fail
    let query_res = query(
        &deps,
        QueryMsg::GetContents {
            path: String::from("anyone/test/"),
            behalf: String::from("anyone"),
            key: vk_anyone.to_string(),
        },
    );
    assert!(query_res.is_err());

    // alice can add Anyone to allow_read
    let msg = HandleMsg::AllowRead {
        path: String::from("anyone/test/"),
        address_list: vec![String::from("anyone")],
    };
    let _res = handle(&mut deps, &String::from("alice"), MOCK_HEIGHT, MOCK_TIME, msg).unwrap();

    // Now anyone can also read file
    let value = get_file(&deps, "anyone/test/", "anyone", &vk_anyone);
    println!("alice added anyone to allow_read, and now anyone can also read the file. See allow_read list --> {:#?}", value.file);

    // alice can change owner back to anyone
    let msg = HandleMsg::ChangeOwner {
        path: String::from("anyone/test/"),
        new_owner: String::from("anyone"),
    };
    let _res = handle(&mut deps, &String::from("alice"), MOCK_HEIGHT, MOCK_TIME, msg).unwrap();

    let value = get_file(&deps, "anyone/test/", "anyone", &vk_anyone);
    println!("alice gave ownership back to anyone --> {:#?}", value.file);
}
