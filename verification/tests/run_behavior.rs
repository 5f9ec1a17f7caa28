use process_runner::process_spec::{MissingField, ProcessSpec, RawSpec, resolve_spec};
use process_runner::registry::ChildRegistry;
use process_runner::spawner::{SpawnError, build_request, build_request_with_dir};
use process_runner::startup::shortcut_file_name;
use process_runner::supervisor::{NamedSpec, SpawnStep, Supervisor};

fn complete_raw(path: &str, args: &str, hide: Option<bool>) -> RawSpec {
    RawSpec { path: Some(path.to_string()), args: Some(args.to_string()), hide }
}

#[test]
fn resolving_rejects_missing_path() {
    let raw = RawSpec { path: None, args: Some(String::new()), hide: None };
    assert_eq!(resolve_spec("p", &raw).unwrap_err(), MissingField::Path);
}

#[test]
fn resolving_rejects_missing_args() {
    let raw = RawSpec { path: Some("/usr/bin/true".to_string()), args: None, hide: Some(true) };
    assert_eq!(resolve_spec("p", &raw).unwrap_err(), MissingField::Args);
}

#[test]
fn resolving_defaults_missing_hide_to_false() {
    let spec = resolve_spec("p", &complete_raw("/usr/bin/true", "", None)).unwrap();
    assert!(!spec.hide);
    let spec = resolve_spec("p", &complete_raw("/usr/bin/true", "", Some(true))).unwrap();
    assert!(spec.hide);
}

#[test]
fn request_carries_hide_flag_and_split_args() {
    let spec = resolve_spec("p", &complete_raw("/usr/bin/true", "-a  -b", Some(true))).unwrap();
    let req = build_request_with_dir(&spec, Some("/usr/bin".to_string())).unwrap();
    assert!(req.no_window);
    assert_eq!(req.path, "/usr/bin/true");
    assert_eq!(req.working_dir, "/usr/bin");
    assert_eq!(req.argv, vec!["-a".to_string(), "-b".to_string()]);
}

#[test]
fn request_of_unhidden_spec_has_no_window_flag_unset() {
    let spec = resolve_spec("p", &complete_raw("/usr/bin/true", "", None)).unwrap();
    let req = build_request_with_dir(&spec, Some("/usr/bin".to_string())).unwrap();
    assert!(!req.no_window);
}

#[test]
fn request_resolves_parent_directory_as_working_dir() {
    let spec = resolve_spec("p", &complete_raw("/usr/bin/true", "", None)).unwrap();
    let req = build_request(&spec).unwrap();
    assert_eq!(req.working_dir, "/usr/bin");
}

#[test]
fn request_rejects_path_without_parent() {
    let spec = ProcessSpec {
        name: "p".to_string(),
        path: "/".to_string(),
        args: String::new(),
        hide: false,
    };
    let err = build_request(&spec).unwrap_err();
    assert!(matches!(err, SpawnError::InvalidPath));
}

#[test]
fn request_rejects_path_with_empty_parent() {
    // A bare file name resolves to an empty parent directory, which is
    // no usable working directory.
    let spec = ProcessSpec {
        name: "p".to_string(),
        path: "file.exe".to_string(),
        args: String::new(),
        hide: false,
    };
    let err = build_request(&spec).unwrap_err();
    assert!(matches!(err, SpawnError::InvalidPath));
}

#[test]
fn request_with_empty_dir_is_rejected() {
    let spec = resolve_spec("p", &complete_raw("/usr/bin/true", "", None)).unwrap();
    let err = build_request_with_dir(&spec, Some(String::new())).unwrap_err();
    assert!(matches!(err, SpawnError::InvalidPath));
}

#[test]
fn registry_drains_in_insertion_order() {
    let mut reg = ChildRegistry::new();
    reg.append(0);
    reg.append(1);
    reg.append(2);
    assert_eq!(reg.len(), 3);
    assert_eq!(reg.drain(), vec![0, 1, 2]);
    assert_eq!(reg.len(), 0);
}

#[test]
fn shortcut_name_appends_extension() {
    assert_eq!(shortcut_file_name("Process Runner"), "Process Runner.lnk");
}

#[test]
fn scenario_mixed_specs_register_only_successes() {
    let mut sup = Supervisor::new();
    let specs = vec![
        NamedSpec { name: "a".to_string(), raw: complete_raw("/usr/bin/true", "", Some(false)) },
        NamedSpec { name: "b".to_string(), raw: complete_raw("/nonexistent/binary", "", None) },
        NamedSpec {
            name: "c".to_string(),
            raw: RawSpec { path: None, args: Some(String::new()), hide: None },
        },
        NamedSpec { name: "d".to_string(), raw: complete_raw("/", "", None) },
        NamedSpec { name: "e".to_string(), raw: complete_raw("/usr/bin/env", "-i", Some(true)) },
    ];
    sup.load(specs);

    // "a" spawns successfully.
    match sup.process_next() {
        SpawnStep::Launch(name, req) => {
            assert_eq!(name, "a");
            assert_eq!(req.path, "/usr/bin/true");
            assert_eq!(req.working_dir, "/usr/bin");
            assert_eq!(req.argv.len(), 0);
            assert!(!req.no_window);
            let h = sup.report_success();
            assert_eq!(h, 0);
        },
        _ => panic!("expected a launch for a"),
    }

    // "b" is attempted and the OS turns it down.
    match sup.process_next() {
        SpawnStep::Launch(name, _req) => {
            assert_eq!(name, "b");
            sup.report_failure(SpawnError::SpawnFailed("no such file".to_string()));
        },
        _ => panic!("expected a launch for b"),
    }

    // "c" is skipped for its missing path; the run goes on.
    match sup.process_next() {
        SpawnStep::Skip(name, reason) => {
            assert_eq!(name, "c");
            assert_eq!(reason, MissingField::Path);
        },
        _ => panic!("expected a skip for c"),
    }

    // "d" is rejected before any OS call: its path has no parent.
    match sup.process_next() {
        SpawnStep::Fail(name, err) => {
            assert_eq!(name, "d");
            assert!(matches!(err, SpawnError::InvalidPath));
        },
        _ => panic!("expected a rejection for d"),
    }

    // "e" still spawns: earlier failures abort nothing.
    match sup.process_next() {
        SpawnStep::Launch(name, req) => {
            assert_eq!(name, "e");
            assert!(req.no_window);
            assert_eq!(req.argv, vec!["-i".to_string()]);
            let h = sup.report_success();
            assert_eq!(h, 1);
        },
        _ => panic!("expected a launch for e"),
    }

    match sup.process_next() {
        SpawnStep::Finished => {},
        _ => panic!("expected the spawning phase to finish"),
    }

    // Exactly the two successes are registered, in spawn order.
    let handles = sup.drain_for_wait();
    assert_eq!(handles, vec![0, 1]);
}

#[test]
fn empty_spec_list_registers_nothing() {
    let mut sup = Supervisor::new();
    sup.load(Vec::new());
    match sup.process_next() {
        SpawnStep::Finished => {},
        _ => panic!("expected an immediate finish"),
    }
    assert_eq!(sup.drain_for_wait(), Vec::<usize>::new());
}
