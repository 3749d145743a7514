use sharun::environ::Environment;
use sharun::helper::{export_helper_env, helper_args, helper_script};

const PACKED: [u8; 29] = [
    83, 86, 212, 79, 202, 204, 211, 47, 206, 224, 74, 77, 206, 200, 87, 200, 72, 205, 41, 72, 45,
    82, 80, 82, 113, 80, 226, 2, 0,
];

#[test]
fn helper_script_is_unpacked() {
    assert_eq!(helper_script(&PACKED), Some(b"#!/bin/sh\necho helper \"$@\"\n".to_vec()));
}

#[test]
fn broken_stream_gives_nothing() {
    assert_eq!(helper_script(&[0xff, 0xff, 0xff, 0xff]), None);
    assert_eq!(helper_script(&PACKED[..10]), None);
}

#[test]
fn shell_reads_the_script_from_standard_input() {
    let args: Vec<String> =
        ["lib4bin", "-s", "/usr/bin/ls"].iter().map(|s| s.to_string()).collect();
    assert_eq!(helper_args(&args), vec!["-s", "--", "-s", "/usr/bin/ls"]);
    assert_eq!(helper_args(&vec!["l".to_string()]), vec!["-s", "--"]);
    assert_eq!(helper_args(&Vec::new()), vec!["-s", "--"]);
}

#[test]
fn helper_sees_the_launcher() {
    let mut env = Environment::new();
    env.set("PATH", "/usr/bin");
    export_helper_env(&mut env, "/r/bin", "/r/sharun");
    assert_eq!(env.to_vector(), vec!["PATH=/r/bin:/usr/bin", "SHARUN=/r/sharun"]);
    export_helper_env(&mut env, "/r/bin", "/elsewhere");
    assert_eq!(env.to_vector(), vec!["PATH=/r/bin:/usr/bin", "SHARUN=/r/sharun"]);
}
