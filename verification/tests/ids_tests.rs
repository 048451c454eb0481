use loadgen::asvisor_job;
use loadgen::faastlane_job;
use loadgen::ids::{_ph2random, id_from_draws, random_id};

fn is_random_id(s: &str) -> bool {
    let v: Vec<char> = s.chars().collect();
    v.len() == 9
        && v[..3].iter().all(|c| c.is_ascii_lowercase())
        && v[3..].iter().all(|c| c.is_ascii_digit())
}

#[test]
fn random_ids_have_their_shape() {
    for _ in 0..200 {
        let id = random_id();
        assert!(is_random_id(&id), "{}", id);
    }
}

#[test]
fn random_ids_vary() {
    let ids: Vec<String> = (0..20).map(|_| random_id()).collect();
    assert!(ids.iter().any(|id| id != &ids[0]));
}

#[test]
fn placeholder_becomes_random_id() {
    let s = _ph2random("xyz");
    assert!(is_random_id(&s), "{}", s);
}

#[test]
fn other_strings_are_kept() {
    assert_eq!(_ph2random("abc"), "abc");
    assert_eq!(_ph2random(""), "");
    assert_eq!(_ph2random("xyzz"), "xyzz");
    assert_eq!(_ph2random("xy"), "xy");
}

#[test]
fn asvisor_command_line() {
    let (cmd, args, id) = asvisor_job::get_command_line();
    assert_eq!(cmd, "target/release/asvisor");
    assert_eq!(
        args,
        vec!["--files", "isol_config/parallel_sort_c3.json", "--metrics", "total-dur"]
    );
    assert_eq!(id, "");
}

#[test]
fn faastlane_command_line() {
    let (cmd, args, id) = faastlane_job::get_command_line();
    assert_eq!(cmd, "ctr");
    assert!(is_random_id(&id));
    assert_eq!(
        args,
        vec![
            "run".to_string(),
            "--snapshotter".to_string(),
            "devmapper".to_string(),
            "--runtime".to_string(),
            "io.containerd.kata-fc.v2".to_string(),
            "--rm".to_string(),
            "docker.io/library/word_count_5_10_asstlane_image:latest".to_string(),
            id.clone(),
            "target/release/word_count".to_string(),
        ]
    );
}

#[test]
fn id_is_made_of_the_draws() {
    assert_eq!(id_from_draws(&[97, 122, 109], &[0, 9, 4, 2, 7, 1]), "azm094271");
}

#[test]
fn command_line_for_a_given_container() {
    let (cmd, args, id) = faastlane_job::command_line_for_id("abc123456".to_string());
    assert_eq!(cmd, "ctr");
    assert_eq!(id, "abc123456");
    assert_eq!(args[7], "abc123456");
    assert_eq!(args.len(), 9);
}
