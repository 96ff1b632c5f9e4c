//! Focused behavior checks: the documented sharing scenario, one input
//! per error variant, namespace generations, folder listings, and the
//! node-registry quirks.

use anubis::backend::make_file;
use anubis::contract::{handle, init, query, query_folder_contents};
use anubis::error::FsError;
use anubis::msg::{HandleAnswer, HandleMsg, InitMsg, QueryAnswer, QueryMsg};
use anubis::state::State;
use anubis::viewing_key::ViewingKey;

const HEIGHT: u64 = 12_345;
const TIME: u64 = 1_571_797_419;

fn open_account(state: &mut State, address: &str) -> ViewingKey {
    let msg = HandleMsg::InitAddress {
        contents: String::from("{}"),
        entropy: String::from("Entropygoeshereboi"),
    };
    match handle(state, &String::from(address), HEIGHT, TIME, msg).unwrap() {
        HandleAnswer::CreateViewingKey { key } => key,
        _ => panic!("expected a viewing key"),
    }
}

fn contract() -> State {
    init(String::from("creator"), InitMsg { prng_seed: String::from("lets init bro") })
}

fn run(state: &mut State, sender: &str, msg: HandleMsg) -> Result<HandleAnswer, FsError> {
    handle(state, &String::from(sender), HEIGHT, TIME, msg)
}

fn create(state: &mut State, sender: &str, path: &str, contents: &str) -> Result<HandleAnswer, FsError> {
    run(state, sender, HandleMsg::Create {
        contents: String::from(contents),
        path: String::from(path),
        pkey: String::from("pk"),
        skey: String::from("sk"),
    })
}

fn read(state: &State, path: &str, behalf: &str, key: &ViewingKey) -> Result<QueryAnswer, FsError> {
    query(state, QueryMsg::GetContents {
        path: String::from(path),
        behalf: String::from(behalf),
        key: key.to_string(),
    })
}

#[test]
fn scenario_docs_sharing() {
    let mut state = contract();
    let key_a = open_account(&mut state, "a");
    let key_b = open_account(&mut state, "b");

    create(&mut state, "a", "a/docs/", "docs folder").unwrap();
    create(&mut state, "a", "a/docs/x.txt", "x marks the spot").unwrap();

    // Before the grant, b cannot read the file.
    assert_eq!(read(&state, "a/docs/x.txt", "b", &key_b).unwrap_err(), FsError::Unauthorized);

    run(&mut state, "a", HandleMsg::AllowRead {
        path: String::from("a/docs/x.txt"),
        address_list: vec![String::from("b")],
    })
    .unwrap();

    // After the grant, b reads exactly what was written.
    match read(&state, "a/docs/x.txt", "b", &key_b).unwrap() {
        QueryAnswer::File(resp) => assert_eq!(resp.file.get_contents(), "x marks the spot"),
        _ => panic!("expected a file"),
    }

    run(&mut state, "a", HandleMsg::ResetRead { path: String::from("a/docs/x.txt") }).unwrap();

    // After the reset, b fails the read check again; a still reads.
    assert_eq!(read(&state, "a/docs/x.txt", "b", &key_b).unwrap_err(), FsError::Unauthorized);
    match read(&state, "a/docs/x.txt", "a", &key_a).unwrap() {
        QueryAnswer::File(resp) => assert_eq!(resp.file.get_contents(), "x marks the spot"),
        _ => panic!("expected a file"),
    }
}

#[test]
fn error_variants() {
    let mut state = contract();
    let vk = open_account(&mut state, "anyone");
    let _vk2 = open_account(&mut state, "alice");

    // NotFound: the parent folder does not exist.
    assert_eq!(
        create(&mut state, "anyone", "nowhere/a.txt", "x").unwrap_err(),
        FsError::NotFound,
    );

    // Unauthorized: no write access to someone else's folder.
    assert_eq!(
        create(&mut state, "alice", "anyone/intruder.txt", "x").unwrap_err(),
        FsError::Unauthorized,
    );

    // AlreadyExists: the resolved path is taken.
    create(&mut state, "anyone", "anyone/a.txt", "first").unwrap();
    assert_eq!(
        create(&mut state, "anyone", "anyone/a.txt", "second").unwrap_err(),
        FsError::AlreadyExists,
    );

    // MalformedInput: an empty path.
    assert_eq!(create(&mut state, "anyone", "", "x").unwrap_err(), FsError::MalformedInput);

    // MalformedInput: mismatched multi-operation lists.
    assert_eq!(
        run(&mut state, "anyone", HandleMsg::CreateMulti {
            contents_list: vec![String::from("one")],
            path_list: vec![String::from("anyone/b.txt"), String::from("anyone/c.txt")],
            pkey_list: vec![String::from("pk")],
            skey_list: vec![String::from("sk")],
        })
        .unwrap_err(),
        FsError::MalformedInput,
    );

    // MalformedInput: a folder cannot be moved.
    create(&mut state, "anyone", "anyone/dir/", "d").unwrap();
    assert_eq!(
        run(&mut state, "anyone", HandleMsg::Move {
            old_path: String::from("anyone/dir/"),
            new_path: String::from("anyone/dir2/"),
        })
        .unwrap_err(),
        FsError::MalformedInput,
    );

    // InvalidCredential: a wrong token, and a missing account, answer alike.
    assert_eq!(
        read(&state, "anyone/a.txt", "anyone", &ViewingKey(String::from("wrong"))).unwrap_err(),
        FsError::InvalidCredential,
    );
    assert_eq!(
        read(&state, "anyone/a.txt", "ghost", &vk).unwrap_err(),
        FsError::InvalidCredential,
    );
}

#[test]
fn namespace_generations() {
    let mut state = contract();
    let _vk = open_account(&mut state, "anyone");
    create(&mut state, "anyone", "anyone/keep.txt", "kept").unwrap();

    run(&mut state, "anyone", HandleMsg::ForgetMe {}).unwrap();

    // The identity is reported uninitialized under the new namespace.
    let w = match query(&state, QueryMsg::YouUpBro { address: String::from("anyone") }).unwrap() {
        QueryAnswer::WalletInfo(w) => w,
        _ => panic!("expected wallet info"),
    };
    assert_eq!(w.init, false);
    assert_eq!(w.namespace, String::from("anyone1"));
    assert_eq!(w.counter, 1);

    // A fresh account can be opened under the new namespace, and paths
    // addressed through the identity now land there.
    let vk1 = open_account(&mut state, "anyone");
    create(&mut state, "anyone", "anyone/fresh.txt", "fresh").unwrap();
    match read(&state, "anyone/fresh.txt", "anyone", &vk1).unwrap() {
        QueryAnswer::File(resp) => assert_eq!(resp.file.get_contents(), "fresh"),
        _ => panic!("expected a file"),
    }

    // The old generation's file is no longer addressable.
    assert_eq!(read(&state, "anyone/keep.txt", "anyone", &vk1).unwrap_err(), FsError::NotFound);

    // A second reset moves on to the next generation.
    run(&mut state, "anyone", HandleMsg::ForgetMe {}).unwrap();
    let w = match query(&state, QueryMsg::YouUpBro { address: String::from("anyone") }).unwrap() {
        QueryAnswer::WalletInfo(w) => w,
        _ => panic!("expected wallet info"),
    };
    assert_eq!(w.namespace, String::from("anyone2"));
    assert_eq!(w.counter, 2);
}

#[test]
fn folder_listings() {
    let mut state = contract();
    let _vk = open_account(&mut state, "anyone");
    create(&mut state, "anyone", "anyone/docs/", "folder").unwrap();
    create(&mut state, "anyone", "anyone/docs/one.txt", "1").unwrap();
    create(&mut state, "anyone", "anyone/docs/two.txt", "2").unwrap();
    create(&mut state, "anyone", "anyone/docs/inner/", "nested").unwrap();

    let listing =
        query_folder_contents(&state, &String::from("anyone/docs/"), &String::from("anyone")).unwrap();
    assert_eq!(listing.parent, String::from("anyone/docs/"));
    assert_eq!(listing.folders, vec![String::from("anyone/docs/inner/")]);
    assert_eq!(
        listing.files,
        vec![String::from("anyone/docs/one.txt"), String::from("anyone/docs/two.txt")],
    );

    // Removing a file takes it out of the listing.
    run(&mut state, "anyone", HandleMsg::Remove { path: String::from("anyone/docs/one.txt") })
        .unwrap();
    let listing =
        query_folder_contents(&state, &String::from("anyone/docs/"), &String::from("anyone")).unwrap();
    assert_eq!(listing.files, vec![String::from("anyone/docs/two.txt")]);

    // A reader without access is refused the listing.
    assert_eq!(
        query_folder_contents(&state, &String::from("anyone/docs/"), &String::from("alice"))
            .unwrap_err(),
        FsError::Unauthorized,
    );
}

#[test]
fn duplicate_grants_are_ignored() {
    let mut state = contract();
    let vk = open_account(&mut state, "anyone");
    create(&mut state, "anyone", "anyone/shared.txt", "shared").unwrap();

    // Granting the same reader twice keeps one entry, in insertion order.
    run(&mut state, "anyone", HandleMsg::AllowRead {
        path: String::from("anyone/shared.txt"),
        address_list: vec![String::from("bob"), String::from("bob"), String::from("carol")],
    })
    .unwrap();
    run(&mut state, "anyone", HandleMsg::AllowRead {
        path: String::from("anyone/shared.txt"),
        address_list: vec![String::from("bob")],
    })
    .unwrap();

    let resp = match read(&state, "anyone/shared.txt", "anyone", &vk).unwrap() {
        QueryAnswer::File(resp) => resp,
        _ => panic!("expected a file"),
    };
    assert_eq!(
        resp.file.allow_read_list(),
        &vec![String::from("bob"), String::from("carol")],
    );

    // Revoking removes exactly the named reader.
    run(&mut state, "anyone", HandleMsg::DisallowRead {
        path: String::from("anyone/shared.txt"),
        address_list: vec![String::from("bob")],
    })
    .unwrap();
    let resp = match read(&state, "anyone/shared.txt", "anyone", &vk).unwrap() {
        QueryAnswer::File(resp) => resp,
        _ => panic!("expected a file"),
    };
    assert_eq!(resp.file.allow_read_list(), &vec![String::from("carol")]);
}

#[test]
fn removed_name_can_be_reused() {
    let mut state = contract();
    let vk = open_account(&mut state, "anyone");
    create(&mut state, "anyone", "anyone/tmp.txt", "old").unwrap();
    run(&mut state, "anyone", HandleMsg::Remove { path: String::from("anyone/tmp.txt") }).unwrap();
    create(&mut state, "anyone", "anyone/tmp.txt", "new").unwrap();
    match read(&state, "anyone/tmp.txt", "anyone", &vk).unwrap() {
        QueryAnswer::File(resp) => assert_eq!(resp.file.get_contents(), "new"),
        _ => panic!("expected a file"),
    }
}

#[test]
fn make_file_accessors() {
    let file = make_file("someone", "some payload");
    assert_eq!(file.get_contents(), "some payload");
    assert_eq!(file.owner(), &String::from("someone"));
    assert!(file.allow_read_list().is_empty());
    assert!(file.allow_write_list().is_empty());
    assert_eq!(file.public_key(), &String::new());
    assert_eq!(file.secret_key(), &String::new());
}

#[test]
fn node_registry_listing() {
    let mut state = contract();
    run(&mut state, "operator", HandleMsg::InitNode {
        ip: String::from("10.0.0.1"),
        address: String::from("node-one"),
    })
    .unwrap();
    run(&mut state, "operator", HandleMsg::InitNode {
        ip: String::from("10.0.0.2"),
        address: String::from("node-two"),
    })
    .unwrap();

    match query(&state, QueryMsg::GetNodeListSize {}).unwrap() {
        QueryAnswer::NodeListSize(n) => assert_eq!(n, 2),
        _ => panic!("expected a size"),
    }
    match query(&state, QueryMsg::GetNodeIP { index: 1 }).unwrap() {
        QueryAnswer::NodeIp(ip) => assert_eq!(ip, String::from("10.0.0.2")),
        _ => panic!("expected an ip"),
    }
    assert_eq!(
        query(&state, QueryMsg::GetNodeIP { index: 2 }).unwrap_err(),
        FsError::NotFound,
    );

    // Asking for the whole list returns it in registration order.
    match query(&state, QueryMsg::GetNodeList { size: 5 }).unwrap() {
        QueryAnswer::NodeList(nodes) => {
            assert_eq!(nodes.len(), 2);
            assert_eq!(nodes[0].ip, String::from("10.0.0.1"));
            assert_eq!(nodes[1].address, String::from("node-two"));
        },
        _ => panic!("expected a node list"),
    }

    // A size of zero still answers with the first node, as the registry
    // has always done.
    match query(&state, QueryMsg::GetNodeList { size: 0 }).unwrap() {
        QueryAnswer::NodeList(nodes) => assert_eq!(nodes.len(), 1),
        _ => panic!("expected a node list"),
    }
}
