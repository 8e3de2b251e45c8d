use jsonlines::dispatch::{
    dispatch, exit_code, resolve, Outcome, EXIT_LAUNCH_FAILED, EXIT_NO_MATCH,
};
use jsonlines::text::copy_strings;
use jsonlines::front::{
    listing, listing_line, mode, Mode, LISTING_HEADER, LIST_FLAG, NO_COMMAND, NO_SUCH_PROXY,
};
use jsonlines::names::Platform;
use jsonlines::proxy::Proxy;
use jsonlines::scan::{collect_proxies, Candidate, Entry, Listing};

fn proxy(dir: &str, name: &str) -> Proxy {
    Proxy::new(format!("{}/{}", dir, name)).unwrap()
}

fn strings(items: &[&str]) -> Vec<String> {
    items.iter().map(|s| s.to_string()).collect()
}

fn one_directory_with_echo() -> Vec<Proxy> {
    collect_proxies(&vec![Listing::Opened(vec![Entry::Seen(Candidate::new("/tools/jsonlines-echo", Some(true), true))])])
}

#[test]
fn resolve_finds_the_record() {
    let registry = vec![proxy("/d", "jsonlines-a"), proxy("/d", "jsonlines-echo")];
    let found = resolve(&registry, "echo", Platform::Posix).unwrap();
    assert_eq!(found.path(), "/d/jsonlines-echo");
}

#[test]
fn resolve_finds_nothing() {
    let registry = vec![proxy("/d", "jsonlines-a"), proxy("/d", "jsonlines-echo")];
    assert!(resolve(&registry, "tail", Platform::Posix).is_none());
    assert!(resolve(&Vec::new(), "echo", Platform::Posix).is_none());
}

#[test]
fn resolve_is_exact() {
    let registry =
        vec![proxy("/d", "jsonlines-Echo"), proxy("/d", "jsonlines-echoes"), proxy("/d", "jsonlines-ech")];
    assert!(resolve(&registry, "echo", Platform::Posix).is_none());
    assert_eq!(resolve(&registry, "ech", Platform::Posix).unwrap().path(), "/d/jsonlines-ech");
}

#[test]
fn resolve_first_match_wins() {
    let registry = vec![
        proxy("/d1", "jsonlines-other"),
        proxy("/d1", "jsonlines-echo"),
        proxy("/d2", "jsonlines-echo"),
    ];
    assert_eq!(resolve(&registry, "echo", Platform::Posix).unwrap().path(), "/d1/jsonlines-echo");
}

#[test]
fn first_directory_wins_through_the_registry() {
    let entry = |dir: &str| {
        Entry::Seen(Candidate::new(&format!("{}/jsonlines-echo", dir), Some(true), true))
    };
    let registry =
        collect_proxies(&vec![Listing::Opened(vec![entry("/d1")]), Listing::Opened(vec![entry("/d2")])]);
    assert_eq!(registry.len(), 2);
    assert_eq!(resolve(&registry, "echo", Platform::Posix).unwrap().path(), "/d1/jsonlines-echo");
}

#[test]
fn first_directory_wins_whatever_else_the_directories_hold() {
    let entry = |dir: &str, name: &str| {
        Entry::Seen(Candidate::new(&format!("{}/{}", dir, name), Some(true), true))
    };
    let registry = collect_proxies(&vec![
        Listing::Opened(vec![entry("/d1", "jsonlines-a"), entry("/d1", "jsonlines-x")]),
        Listing::Opened(vec![entry("/d2", "jsonlines-x"), entry("/d2", "jsonlines-b")]),
    ]);
    let paths: Vec<&str> = registry.iter().map(|p| p.path()).collect();
    assert_eq!(paths, vec!["/d1/jsonlines-a", "/d1/jsonlines-x", "/d2/jsonlines-x", "/d2/jsonlines-b"]);
    assert_eq!(resolve(&registry, "x", Platform::Posix).unwrap().path(), "/d1/jsonlines-x");
    let plan = dispatch(&registry, "x", &Vec::new(), Platform::Posix).unwrap();
    assert_eq!(plan.program, "/d1/jsonlines-x");
}

#[test]
fn resolve_with_windows_suffix() {
    let registry = vec![proxy("/t", "jsonlines-echo.exe")];
    assert!(resolve(&registry, "echo", Platform::Windows).is_some());
    assert!(resolve(&registry, "echo", Platform::Posix).is_none());
    assert!(resolve(&registry, "echo.exe", Platform::Posix).is_some());
}

#[test]
fn start_process_plans_path_and_arguments() {
    let record = proxy("/d", "jsonlines-echo");
    let plan = record.start_process(&strings(&["-n", "x y"]));
    assert_eq!(plan.program, "/d/jsonlines-echo");
    assert_eq!(plan.args, strings(&["-n", "x y"]));
    let bare = record.start_process(&Vec::new());
    assert!(bare.args.is_empty());
}

#[test]
fn copy_strings_copies() {
    assert_eq!(copy_strings(&strings(&["a", "", "ü"])), strings(&["a", "", "ü"]));
    assert_eq!(copy_strings(&Vec::new()), Vec::<String>::new());
}

#[test]
fn dispatch_plans_the_first_match() {
    let registry = vec![proxy("/d1", "jsonlines-echo"), proxy("/d2", "jsonlines-echo")];
    let plan = dispatch(&registry, "echo", &strings(&["a", "b"]), Platform::Posix).unwrap();
    assert_eq!(plan.program, "/d1/jsonlines-echo");
    assert_eq!(plan.args, strings(&["a", "b"]));
}

#[test]
fn dispatch_without_match() {
    let registry = vec![proxy("/d1", "jsonlines-echo")];
    assert!(dispatch(&registry, "tail", &Vec::new(), Platform::Posix).is_none());
}

#[test]
fn exit_code_is_the_childs() {
    for n in [0, 1, 2, 127, 255, -1, i32::MAX, i32::MIN] {
        assert_eq!(exit_code(Some(n)), n);
    }
}

#[test]
fn exit_code_without_a_code_is_zero() {
    assert_eq!(exit_code(None), 0);
}

#[test]
fn outcome_exit_codes() {
    for n in [0, 1, 2, 127, -1] {
        assert_eq!(Outcome::Ended(Some(n)).exit_code(), n);
    }
    assert_eq!(Outcome::Ended(None).exit_code(), 0);
    assert_eq!(Outcome::NoMatch.exit_code(), EXIT_NO_MATCH);
    assert_eq!(Outcome::LaunchFailed.exit_code(), EXIT_LAUNCH_FAILED);
    assert_ne!(Outcome::NoMatch.exit_code(), 0);
    assert_ne!(Outcome::LaunchFailed.exit_code(), 0);
}

#[test]
fn mode_without_arguments_is_usage() {
    assert!(matches!(mode(&Vec::new()), Mode::Usage));
    assert!(matches!(mode(&strings(&["jsonlines"])), Mode::Usage));
}

#[test]
fn mode_list() {
    assert_eq!(LIST_FLAG, "--list");
    assert!(matches!(mode(&strings(&["jsonlines", "--list"])), Mode::List));
    assert!(matches!(mode(&strings(&["jsonlines", "--list", "more"])), Mode::List));
}

#[test]
fn mode_invoke_forwards_only_what_follows_the_name() {
    match mode(&strings(&["jsonlines", "echo", "-n", "--list", "x"])) {
        Mode::Invoke { name, forwarded } => {
            assert_eq!(name, "echo");
            assert_eq!(forwarded, strings(&["-n", "--list", "x"]));
        }
        other => panic!("unexpected mode: {:?}", other),
    }
    match mode(&strings(&["jsonlines", "echo"])) {
        Mode::Invoke { name, forwarded } => {
            assert_eq!(name, "echo");
            assert!(forwarded.is_empty());
        }
        other => panic!("unexpected mode: {:?}", other),
    }
    assert!(matches!(mode(&strings(&["jsonlines", "--LIST"])), Mode::Invoke { .. }));
}

#[test]
fn listing_line_format() {
    let record = proxy("/d", "jsonlines-echo");
    assert_eq!(listing_line(&record, Platform::Posix), "  * echo (/d/jsonlines-echo)");
    let windows = proxy("/t", "jsonlines-tail.exe");
    assert_eq!(listing_line(&windows, Platform::Windows), "  * tail (/t/jsonlines-tail.exe)");
}

#[test]
fn listing_of_empty_registry_has_no_line() {
    assert!(listing(&collect_proxies(&vec![Listing::Unopened]), Platform::Posix).is_empty());
}

#[test]
fn scenario_list_one_directory_with_echo() {
    let args = strings(&["jsonlines", "--list"]);
    assert!(matches!(mode(&args), Mode::List));
    let lines = listing(&one_directory_with_echo(), Platform::Posix);
    assert_eq!(lines, strings(&["  * echo (/tools/jsonlines-echo)"]));
    assert_eq!(LISTING_HEADER, "Available proxies:");
}

#[test]
fn scenario_no_matching_executable() {
    let args = strings(&["jsonlines", "echo"]);
    let registry = collect_proxies(&vec![Listing::Opened(vec![]), Listing::Unopened]);
    match mode(&args) {
        Mode::Invoke { name, forwarded } => {
            assert!(dispatch(&registry, &name, &forwarded, Platform::Posix).is_none());
        }
        other => panic!("unexpected mode: {:?}", other),
    }
    assert_eq!(NO_SUCH_PROXY, "No such proxy found, try --list for a list of available options");
    assert_eq!(NO_COMMAND, "No proxy command found, try --list for a list of available options");
    assert_ne!(Outcome::NoMatch.exit_code(), 0);
}

#[test]
fn scenario_matching_executable_is_planned() {
    let args = strings(&["jsonlines", "echo"]);
    match mode(&args) {
        Mode::Invoke { name, forwarded } => {
            let plan =
                dispatch(&one_directory_with_echo(), &name, &forwarded, Platform::Posix).unwrap();
            assert_eq!(plan.program, "/tools/jsonlines-echo");
            assert!(plan.args.is_empty());
        }
        other => panic!("unexpected mode: {:?}", other),
    }
    assert_eq!(Outcome::Ended(Some(0)).exit_code(), 0);
}
