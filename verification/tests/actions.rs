use imt_cli::invocation::{
    add_plan, create_invocation, docker_mount, docker_run_invocation, find_plan,
    store_command_invocation, update_arguments, update_invocation, ActionError, StoreCommand,
};
use imt_cli::paths::{find_link, find_output_path, join_path, link_target, stage_path, staging};
use imt_cli::messages::{age_line, greeting, list_debug};

fn strings(v: &[&str]) -> Vec<String> {
    v.iter().map(|s| s.to_string()).collect()
}

fn prefix(home: &str, sub: &str) -> Vec<String> {
    strings(&["docker", "run", "-it", "-v"])
        .into_iter()
        .chain(vec![format!("{}/immutag:/root/immutag", home), "immutag:0.0.11".to_string(), sub.to_string()])
        .collect()
}

#[test]
fn mount_shares_the_home_store() {
    assert_eq!(docker_mount("/home/u"), "/home/u/immutag:/root/immutag");
}

#[test]
fn runs_go_through_sudo_docker() {
    let r = docker_run_invocation("/h", "x", Some("s"), &strings(&["a", "b"]));
    assert_eq!(r.program, "sudo");
    let mut expected = prefix("/h", "x");
    expected.extend(strings(&["--store-name", "s", "a", "b"]));
    assert_eq!(r.args, expected);
}

#[test]
fn create_passes_the_mnemonic() {
    let r = create_invocation("/h", &strings(&["word list", "ignored"]), None).ok().unwrap();
    let mut expected = prefix("/h", "create");
    expected.push("word list".to_string());
    assert_eq!(r.args, expected);
    let r = create_invocation("/h", &strings(&["m"]), Some("st")).ok().unwrap();
    let mut expected = prefix("/h", "create");
    expected.extend(strings(&["--store-name", "st", "m"]));
    assert_eq!(r.args, expected);
}

#[test]
fn create_needs_a_mnemonic() {
    assert_eq!(create_invocation("/h", &strings(&[]), None).err(), Some(ActionError::MissingArgument));
}

#[test]
fn add_passes_file_then_tags() {
    let p = add_plan("/h", &strings(&["f.txt", "t1", "t2"]), Some("n")).ok().unwrap();
    assert_eq!(p.file, "f.txt");
    let mut expected = prefix("/h", "add");
    expected.extend(strings(&["--store-name", "n", "f.txt", "t1", "t2"]));
    assert_eq!(p.invocation.args, expected);
    let p = add_plan("/h", &strings(&["only"]), None).ok().unwrap();
    let mut expected = prefix("/h", "add");
    expected.push("only".to_string());
    assert_eq!(p.invocation.args, expected);
}

#[test]
fn add_needs_a_file() {
    assert_eq!(add_plan("/h", &strings(&[]), None).err(), Some(ActionError::NoFileGiven));
    assert_eq!(add_plan("/h", &strings(&["", "tag"]), None).err(), Some(ActionError::NoFileGiven));
}

#[test]
fn update_reads_address_and_file() {
    assert_eq!(
        update_arguments(&strings(&["addr", "file", "more"])).ok(),
        Some(("addr".to_string(), "file".to_string()))
    );
    assert_eq!(update_arguments(&strings(&[])).err(), Some(ActionError::MissingArgument));
    assert_eq!(update_arguments(&strings(&["addr"])).err(), Some(ActionError::MissingArgument));
    assert_eq!(update_arguments(&strings(&["addr", ""])).err(), Some(ActionError::NoFileGiven));
    let r = update_invocation("/h", None, "addr", "file.txt");
    let mut expected = prefix("/h", "update");
    expected.extend(strings(&["addr", "file.txt"]));
    assert_eq!(r.args, expected);
}

#[test]
fn find_links_only_without_addr() {
    let p = find_plan("/h", Some("s"), true);
    let mut expected = prefix("/h", "find");
    expected.extend(strings(&["--store-name", "s", "--addr"]));
    assert_eq!(p.invocation.args, expected);
    assert!(!p.follow_link);
    let p = find_plan("/h", None, false);
    assert_eq!(p.invocation.args, prefix("/h", "find"));
    assert!(p.follow_link);
}

#[test]
fn store_commands_use_their_names() {
    for (c, n) in [
        (StoreCommand::Rollback, "rollback"),
        (StoreCommand::Rollforward, "rollforward"),
        (StoreCommand::WormholeSend, "wormhole-send"),
        (StoreCommand::WormholeRecv, "wormhole-recv"),
    ] {
        let r = store_command_invocation("/h", c, None);
        assert_eq!(r.args, prefix("/h", n));
        let r = store_command_invocation("/h", c, Some("s"));
        let mut expected = prefix("/h", n);
        expected.extend(strings(&["--store-name", "s"]));
        assert_eq!(r.args, expected);
    }
}

#[test]
fn staging_keeps_the_file_name() {
    let s = staging("/home/u", "/tmp/dir/file.txt").unwrap();
    assert_eq!(s.name, "file.txt");
    assert_eq!(s.path, "/home/u/immutag/stage/file.txt");
    assert!(staging("/home/u", "/").is_none());
    assert_eq!(stage_path("/h", "n"), "/h/immutag/stage/n");
}

#[test]
fn find_output_and_link() {
    assert_eq!(find_output_path("/home/u"), "/home/u/immutag/.find_output");
    let l = find_link("/home/u", "/root/immutag/store/abc\n").unwrap();
    assert_eq!(l.target, "/home/u/immutag/store/abc");
    assert_eq!(l.link, "/home/u/immutag/file");
    assert!(find_link("/home/u", "/elsewhere/abc\n").is_none());
    assert!(find_link("/home/u", "/rootabc\n").is_none());
    assert_eq!(link_target(""), "");
    assert_eq!(link_target("ab"), "a");
    assert_eq!(link_target("aé"), "a");
}

#[test]
fn greeting_lines() {
    assert_eq!(greeting(true, &strings(&["a", "b"])), "Bye, [\"a\", \"b\"]");
    assert_eq!(greeting(false, &strings(&[])), "Hello, []");
    assert_eq!(greeting(false, &strings(&["q\"t"])), "Hello, [\"q\\\"t\"]");
    let v = strings(&["x", "y\n"]);
    assert_eq!(list_debug(&v), format!("{:?}", v));
}

#[test]
fn age_line_reads_like_the_tool() {
    let v = strings(&["bob"]);
    assert_eq!(age_line(&v, 30), format!("{:?} is {} years old", v, 30));
    assert_eq!(age_line(&v, -2), "[\"bob\"] is -2 years old");
}

#[test]
fn joining_paths_follows_push() {
    // the link target is the home directory joined with the path the store chose
    let l = find_link("/home/u/", "/root/a.txt\n").unwrap();
    assert_eq!(l.target, "/home/u/a.txt");
    assert_eq!(l.link, "/home/u/immutag/file");
    let l = find_link("", "/root/a.txt\n").unwrap();
    assert_eq!(l.target, "a.txt");
    assert!(find_link("/home/u", "root/a.txt\n").is_none());
    assert!(find_link("/home/u", "").is_none());
}

#[test]
fn join_path_agrees_with_std() {
    let cases = [
        ("/home/u", "a/b"), ("/home/u/", "a"), ("", "a"), ("/h", ""), ("/h", "/abs"),
        ("rel", "x"), ("/h", "é/ü"), ("//", "x"), ("/a", "./b"),
    ];
    for (b, t) in cases.iter() {
        let std = std::path::Path::new(b).join(t).to_string_lossy().into_owned();
        assert_eq!(join_path(b, t), std, "{:?} {:?}", b, t);
    }
}

#[test]
fn find_links_a_nested_store_path() {
    let l = find_link("/home/u", "/root/immutag/stage/a.txt\n").unwrap();
    assert_eq!(l.target, "/home/u/immutag/stage/a.txt");
    assert_eq!(l.link, "/home/u/immutag/file");
}

#[test]
fn staging_keeps_only_the_last_component() {
    let s = staging("/h", "/w/x/notes.txt").unwrap();
    assert_eq!(s.name, "notes.txt");
    assert_eq!(s.path, "/h/immutag/stage/notes.txt");
    assert!(staging("/h", "/w/..").is_none());
}
