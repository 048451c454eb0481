//! The benchmark job that runs the `parallel_sort` workflow with three
//! components on asvisor and reports its total duration.

use vstd::prelude::*;

verus! {

/// The command line of one request: the program, its arguments, and the
/// identifier of the container to clean up afterwards (none: empty).
pub fn get_command_line() -> (res: (String, Vec<String>, String))
    ensures
        res.0@ == "target/release/asvisor"@,
        res.1.deep_view() == seq![
            "--files"@,
            "isol_config/parallel_sort_c3.json"@,
            "--metrics"@,
            "total-dur"@,
        ],
        res.2@ == Seq::<char>::empty(),
{
    let command = "target/release/asvisor".to_owned();
    let args = vec![
        "--files".to_owned(),
        "isol_config/parallel_sort_c3.json".to_owned(),
        "--metrics".to_owned(),
        "total-dur".to_owned(),
    ];
    let id = String::new();
    assert(args.deep_view() =~= seq![
        "--files"@,
        "isol_config/parallel_sort_c3.json"@,
        "--metrics"@,
        "total-dur"@,
    ]);
    (command, args, id)
}

} // verus!
