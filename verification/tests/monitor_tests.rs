use loadgen::cleanup::firecracker_pids;
use loadgen::monitor::{cpu_usage, mem_field, memory_spread};

const TOP: &str = "top - 10:00:00 up 1 day,  1 user,  load average: 0.00, 0.01, 0.05\n\
Tasks: 100 total,   1 running,  99 sleeping,   0 stopped,   0 zombie\n\
%Cpu(s):  1.5 us,  0.5 sy,  0.0 ni, 98.0 id,  0.0 wa,  0.0 hi,  0.0 si,  0.0 st\n\
MiB Mem :  15896.3 total,   8123.4 free,   2345.6 used,   5427.3 buff/cache\n\
MiB Swap:   2048.0 total,   2048.0 free,      0.0 used.  13210.7 avail Mem\n";

#[test]
fn cpu_usage_from_top() {
    assert_eq!(cpu_usage(TOP.as_bytes()), "1.5, 0.5");
}

#[test]
fn cpu_usage_missing() {
    assert_eq!(cpu_usage(b"nothing"), "N/A");
    assert_eq!(cpu_usage(b"%Cpu(s): 1 us"), "N/A");
    assert_eq!(cpu_usage(b" %Cpu(s): 1 us, 2 sy"), "N/A");
}

#[test]
fn cpu_usage_uses_first_marked_line() {
    assert_eq!(cpu_usage(b"%Cpu(s): short\n%Cpu(s): 1 us, 2 sy"), "N/A");
}

#[test]
fn mem_field_from_top() {
    assert_eq!(mem_field(TOP.as_bytes()), Some("2345.6".to_string()));
    assert_eq!(mem_field(b"no memory line"), None);
    assert_eq!(mem_field(b"MiB Mem : 1 total"), None);
}

#[test]
fn spread_of_memory_readings() {
    assert_eq!(memory_spread(&vec![5]), 0);
    assert_eq!(memory_spread(&vec![700, 300, 900, 500]), 600);
}

#[test]
fn firecracker_processes_of_a_container() {
    let ps = "USER PID %CPU\n\
root 1201 0.0 firecracker --id abc123456\n\
root 1202 0.0 other abc123456\n\
root 1203 0.0 firecracker --id zzz000000\n\
root x12 0.0 firecracker abc123456\n\
root -7 0.0 firecracker abc123456\n";
    assert_eq!(firecracker_pids(ps.as_bytes(), "abc123456"), vec![1201, -7]);
    assert_eq!(firecracker_pids(ps.as_bytes(), ""), vec![1201, 1203, -7]);
    assert!(firecracker_pids(b"", "abc").is_empty());
}

#[test]
fn raw_output_is_decoded_leniently() {
    assert_eq!(cpu_usage(b"%Cpu(s): \xff us, 2 sy"), "\u{fffd}, 2");
    assert_eq!(
        firecracker_pids(b"root 77 \xfe firecracker abc\n", "abc"),
        vec![77]
    );
}
