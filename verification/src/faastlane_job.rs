//! The benchmark job that runs the `word_count` workflow in a Kata
//! Firecracker container under a fresh random identifier.

use vstd::prelude::*;
use crate::ids::{is_random_id, random_id, spec_id_from_draws};

verus! {

/// The arguments given to `ctr` for a container named `id`.
pub open spec fn ctr_run_args(id: Seq<char>) -> Seq<Seq<char>> {
    seq![
        "run"@,
        "--snapshotter"@,
        "devmapper"@,
        "--runtime"@,
        "io.containerd.kata-fc.v2"@,
        "--rm"@,
        "docker.io/library/word_count_5_10_asstlane_image:latest"@,
        id,
        "target/release/word_count"@,
    ]
}

/// The command line of a request run in the container named `id`: the
/// program, its arguments, and `id` as the container to clean up afterwards.
pub fn command_line_for_id(id: String) -> (res: (String, Vec<String>, String))
    ensures
        res.0@ == "ctr"@,
        res.1.deep_view() == ctr_run_args(id@),
        res.2 == id,
{
    let command = "ctr".to_owned();
    let args: Vec<String> = vec![
        "run".to_owned(),
        "--snapshotter".to_owned(),
        "devmapper".to_owned(),
        "--runtime".to_owned(),
        "io.containerd.kata-fc.v2".to_owned(),
        "--rm".to_owned(),
        "docker.io/library/word_count_5_10_asstlane_image:latest".to_owned(),
        id.clone(),
        "target/release/word_count".to_owned(),
    ];
    assert(args.deep_view() =~= ctr_run_args(id@));
    (command, args, id)
}

/// The command line of one request: the program, its arguments, and the
/// identifier of the container to clean up afterwards, a fresh random one.
pub fn get_command_line() -> (res: (String, Vec<String>, String))
    ensures
        res.0@ == "ctr"@,
        is_random_id(res.2@),
        exists|letters: Seq<u32>, digits: Seq<u32>|
            letters.len() == 3 && digits.len() == 6 && res.2@ == spec_id_from_draws(letters, digits),
        res.1.deep_view() == ctr_run_args(res.2@),
{
    command_line_for_id(random_id())
}

} // verus!
