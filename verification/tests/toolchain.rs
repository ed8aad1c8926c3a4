use clikeys::toolchain::{
    apply_parallel, clang_macos_sysroot_args, clang_system_include_args, parallel_jobs,
    sanitize_component, wants_native_cpu_flags,
};

#[test]
fn components_are_sanitized() {
    assert_eq!(sanitize_component("x86_64-unknown-linux-gnu"), "x86-64-unknown-linux-gnu");
    assert_eq!(sanitize_component("my crate/v1.0"), "my-crate-v1-0");
    assert_eq!(sanitize_component("AZaz09"), "AZaz09");
    assert_eq!(sanitize_component(""), "");
    assert_eq!(sanitize_component("é@[`{/:"), "-------");
    let all = "!\"#$%&'()*+,-./0123456789:;<=>?@ABCXYZ[\\]^_`abcxyz{|}~";
    let expected: String =
        all.chars().map(|ch| if ch.is_ascii_alphanumeric() { ch } else { '-' }).collect();
    assert_eq!(sanitize_component(all), expected);
}

#[test]
fn include_directories_become_arguments() {
    let dirs = vec!["/usr/lib/gcc/include".to_string(), "/usr/lib/gcc/include-fixed".to_string()];
    assert_eq!(
        clang_system_include_args(&dirs),
        vec!["-isystem", "/usr/lib/gcc/include", "-isystem", "/usr/lib/gcc/include-fixed"]
    );
    assert!(clang_system_include_args(&Vec::new()).is_empty());
}

#[test]
fn the_sdk_root_becomes_arguments() {
    assert_eq!(clang_macos_sysroot_args(Some("/sdk")), vec!["-isysroot", "/sdk"]);
    assert!(clang_macos_sysroot_args(None).is_empty());
}

#[test]
fn the_number_of_jobs_is_chosen() {
    assert_eq!(parallel_jobs(Some("8"), Some(4)), 8);
    assert_eq!(parallel_jobs(Some("+8"), None), 8);
    assert_eq!(parallel_jobs(Some("0"), Some(4)), 4);
    assert_eq!(parallel_jobs(Some("many"), Some(4)), 4);
    assert_eq!(parallel_jobs(Some(""), Some(4)), 4);
    assert_eq!(parallel_jobs(Some("-2"), None), 1);
    assert_eq!(parallel_jobs(None, Some(4)), 4);
    assert_eq!(parallel_jobs(None, None), 1);
    assert_eq!(parallel_jobs(Some("0"), None), 1);
}

#[test]
fn more_than_one_job_is_an_argument() {
    let mut args = vec!["make".to_string()];
    apply_parallel(&mut args, 1);
    assert_eq!(args, vec!["make"]);
    apply_parallel(&mut args, 0);
    assert_eq!(args, vec!["make"]);
    apply_parallel(&mut args, 16);
    assert_eq!(args, vec!["make", "-j16"]);
    apply_parallel(&mut args, 2);
    assert_eq!(args, vec!["make", "-j16", "-j2"]);
}

#[test]
fn the_last_target_cpu_decides() {
    assert!(!wants_native_cpu_flags(None));
    assert!(!wants_native_cpu_flags(Some("")));
    assert!(wants_native_cpu_flags(Some("-Ctarget-cpu=native")));
    assert!(wants_native_cpu_flags(Some("-C\u{1f}target-cpu=native")));
    assert!(wants_native_cpu_flags(Some("target-cpu=native")));
    assert!(!wants_native_cpu_flags(Some("-Ctarget-cpu=haswell")));
    assert!(!wants_native_cpu_flags(Some("-Ctarget-cpu=native\u{1f}-C\u{1f}target-cpu=haswell")));
    assert!(wants_native_cpu_flags(Some("-Ctarget-cpu=haswell\u{1f}-C\u{1f}target-cpu=native")));
    assert!(wants_native_cpu_flags(Some(
        "-Copt-level=3\u{1f}-Ctarget-cpu=native\u{1f}--cfg\u{1f}foo"
    )));
    assert!(!wants_native_cpu_flags(Some("-Ctarget-cpu=native ")));
    assert!(!wants_native_cpu_flags(Some("-Ctarget-cpu=")));
    assert!(!wants_native_cpu_flags(Some("-C target-cpu=native")));
    assert!(!wants_native_cpu_flags(Some("--target-cpu=native")));
    assert!(!wants_native_cpu_flags(Some("-C\u{1f}-C\u{1f}opt-level=3")));
}
