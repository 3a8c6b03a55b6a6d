use rat::nest::{check_message, hash_directory, BranchRef, CommitRecord, LogEntry, Nest, RatError, Slot};
use rat::refs::Head;
use sha2::Digest;

fn hex(bytes: &[u8]) -> String {
    bytes.iter().map(|b| format!("{:02x}", b)).collect()
}

fn expected_hash(metadata: &str, files: &[&[u8]]) -> String {
    let mut h = sha2::Sha256::new();
    h.update(metadata.as_bytes());
    for f in files {
        h.update(f);
    }
    hex(&h.finalize())
}

fn tree(files: &[&str]) -> Vec<Vec<u8>> {
    files.iter().map(|f| f.as_bytes().to_vec()).collect()
}

#[test]
fn init_points_head_at_main_with_empty_history() {
    let nest = Nest::new();
    assert_eq!(nest.head(), &Head::Symbolic("main".to_string()));
    assert_eq!(nest.head().to_text(), "ref: refs/heads/main");
    assert!(nest.commits().is_empty());
    assert!(nest.branches().is_empty());
    assert_eq!(nest.resolve_head(), None);
    assert_eq!(nest.log(), Ok(vec![]));
}

#[test]
fn first_commit_is_a_root_on_main() {
    let mut nest = Nest::new();
    let c = nest.commit("first", &tree(&["hi"])).unwrap();
    assert_eq!(c.metadata, "parent \n\nfirst");
    assert_eq!(c.hash, expected_hash("parent \n\nfirst", &[b"hi"]));
    assert_eq!(c.hash.len(), 64);
    assert_eq!(c.slot, Slot::Branch("main".to_string()));
    assert_eq!(nest.resolve_head(), Some(c.hash.clone()));
    assert_eq!(
        nest.branches(),
        &vec![BranchRef { name: "main".to_string(), hash: c.hash.clone() }]
    );
    assert_eq!(
        nest.commits(),
        &vec![CommitRecord {
            hash: c.hash.clone(),
            parent: String::new(),
            message: "first".to_string()
        }]
    );
}

#[test]
fn second_commit_chains_and_logs_newest_first() {
    let mut nest = Nest::new();
    let h1 = nest.commit("first", &tree(&["hi"])).unwrap().hash;
    let c2 = nest.commit("second", &tree(&["bye"])).unwrap();
    assert_eq!(c2.metadata, format!("parent {}\n\nsecond", h1));
    assert_eq!(c2.hash, expected_hash(&c2.metadata, &[b"bye"]));
    assert_ne!(c2.hash, h1);
    let log = nest.log().unwrap();
    assert_eq!(
        log,
        vec![
            LogEntry {
                hash: c2.hash.clone(),
                message: "second".to_string(),
                branches: vec!["main".to_string()]
            },
            LogEntry { hash: h1.clone(), message: "first".to_string(), branches: vec![] },
        ]
    );
}

#[test]
fn branch_name_taken_is_refused() {
    let mut nest = Nest::new();
    let h1 = nest.commit("first", &tree(&["hi"])).unwrap().hash;
    let h2 = nest.commit("second", &tree(&["bye"])).unwrap().hash;
    assert_eq!(nest.create_branch("feature", &h1), Ok(()));
    let before = nest.branches().clone();
    assert_eq!(nest.create_branch("feature", &h2), Err(RatError::BranchExists));
    assert_eq!(nest.branches(), &before);
    let feature = nest.branches().iter().find(|b| b.name == "feature").unwrap();
    assert_eq!(feature.hash, h1);
}

#[test]
fn same_content_message_and_parent_give_same_hash() {
    let mut a = Nest::new();
    let mut b = Nest::new();
    let ha = a.commit("msg", &tree(&["x", "y"])).unwrap().hash;
    let hb = b.commit("msg", &tree(&["x", "y"])).unwrap().hash;
    assert_eq!(ha, hb);
    let hc = b.commit("msg", &tree(&["x", "y"])).unwrap().hash;
    assert_ne!(hb, hc);
}

#[test]
fn recommitting_a_checked_out_snapshot_reproduces_its_hash() {
    let mut nest = Nest::new();
    let snapshot = tree(&["hi"]);
    let h1 = nest.commit("first", &snapshot).unwrap().hash;
    let mut direct = Nest::new();
    let from_snapshot = direct.commit("again", &snapshot).unwrap().hash;
    assert_eq!(nest.checkout(&h1), Ok(()));
    let mut fresh = Nest::new();
    let restored = snapshot.clone();
    let again = fresh.commit("again", &restored).unwrap().hash;
    assert_eq!(again, from_snapshot);
}

#[test]
fn checkout_of_unknown_commit_fails() {
    let nest = Nest::new();
    assert_eq!(nest.checkout("abc"), Err(RatError::UnknownCommit));
}

#[test]
fn log_follows_parents_to_the_root() {
    let mut nest = Nest::new();
    let mut hashes = vec![];
    for m in ["one", "two", "three"] {
        hashes.push(nest.commit(m, &tree(&[m])).unwrap().hash);
    }
    let log = nest.log().unwrap();
    let got: Vec<String> = log.iter().map(|e| e.hash.clone()).collect();
    hashes.reverse();
    assert_eq!(got, hashes);
    let messages: Vec<String> = log.iter().map(|e| e.message.clone()).collect();
    assert_eq!(messages, vec!["three", "two", "one"]);
}

#[test]
fn detached_head_commits_move_head_itself() {
    let mut nest = Nest::new();
    let h1 = nest.commit("first", &tree(&["hi"])).unwrap().hash;
    let mut detached =
        Nest::load(Head::Direct(h1.clone()), nest.branches().clone(), nest.commits().clone())
            .unwrap();
    let c = detached.commit("second", &tree(&["bye"])).unwrap();
    assert_eq!(c.slot, Slot::Head);
    assert_eq!(detached.head(), &Head::Direct(c.hash.clone()));
    assert_eq!(detached.branches()[0].hash, h1);
}

#[test]
fn commit_on_unknown_head_is_corrupt_history() {
    let mut nest = Nest::load(Head::Direct("feed".to_string()), vec![], vec![]).unwrap();
    assert_eq!(nest.commit("m", &tree(&[])), Err(RatError::CorruptHistory));
    assert_eq!(nest.log(), Err(RatError::CorruptHistory));
}

#[test]
fn load_refuses_dangling_parent_and_duplicates() {
    let rec = |h: &str, p: &str| CommitRecord {
        hash: h.to_string(),
        parent: p.to_string(),
        message: "m".to_string(),
    };
    let br = |n: &str, h: &str| BranchRef { name: n.to_string(), hash: h.to_string() };
    let head = || Head::Symbolic("main".to_string());
    assert_eq!(
        Nest::load(head(), vec![], vec![rec("a", "missing")]).err(),
        Some(RatError::CorruptHistory)
    );
    assert_eq!(
        Nest::load(head(), vec![], vec![rec("a", ""), rec("a", "")]).err(),
        Some(RatError::CorruptHistory)
    );
    assert_eq!(
        Nest::load(head(), vec![br("x", "a"), br("x", "b")], vec![rec("a", "")]).err(),
        Some(RatError::CorruptHistory)
    );
    let n = Nest::load(head(), vec![br("main", "b")], vec![rec("b", "a"), rec("a", "")]).unwrap();
    let log = n.log().unwrap();
    assert_eq!(log.len(), 2);
    assert_eq!(log[0].hash, "b");
    assert_eq!(log[0].branches, vec!["main".to_string()]);
    assert_eq!(log[1].hash, "a");
}

#[test]
fn branch_to_missing_commit_breaks_log() {
    let mut nest = Nest::new();
    nest.commit("first", &tree(&["hi"])).unwrap();
    let n = Nest::load(
        Head::Symbolic("ghost".to_string()),
        vec![BranchRef { name: "ghost".to_string(), hash: "0000".to_string() }],
        nest.commits().clone(),
    )
    .unwrap();
    assert_eq!(n.log(), Err(RatError::CorruptHistory));
}

#[test]
fn several_branches_on_one_commit_are_listed_in_order() {
    let mut nest = Nest::new();
    let h1 = nest.commit("first", &tree(&["hi"])).unwrap().hash;
    nest.create_branch("a", &h1).unwrap();
    nest.create_branch("b", &h1).unwrap();
    let log = nest.log().unwrap();
    assert_eq!(log[0].branches, vec!["main".to_string(), "a".to_string(), "b".to_string()]);
}

#[test]
fn blank_messages_cancel_the_commit() {
    assert_eq!(check_message(""), Err(RatError::EmptyCommitMessage));
    assert_eq!(check_message(" \n\t\u{3000}"), Err(RatError::EmptyCommitMessage));
    assert_eq!(check_message(" x "), Ok(()));
}

#[test]
fn hash_directory_is_sha256_hex_of_metadata_then_files() {
    assert_eq!(
        hash_directory("abc", &vec![]),
        "ba7816bf8f01cfea414140de5dae2223b00361a396177a9cb410ff61f20015ad"
    );
    assert_eq!(hash_directory("a", &tree(&["b", "c"])), hash_directory("abc", &vec![]));
    assert_eq!(hash_directory("", &vec![]), expected_hash("", &[]));
}
