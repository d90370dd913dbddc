use regex::Regex;
use submission_check::classifier::{classify, classify_file};
use submission_check::config::{Contestant, Problem};
use submission_check::enumerator::{enumerate, relative_path, FoundFile, WalkError};
use submission_check::listing::{copy_paths, Entry, EntryKind, Subtree};
use submission_check::report::{report, status_of, ProblemReport, Status};

const HOME: &str = "/contest/alice_01";

fn file(dir: &str, name: &str) -> Entry {
    Entry { name: name.to_string(), path: format!("{}/{}/{}", HOME, dir, name), kind: EntryKind::File }
}

fn directory(name: &str, children: Vec<Entry>) -> Subtree {
    Subtree {
        entry: Entry {
            name: name.to_string(),
            path: format!("{}/{}", HOME, name),
            kind: EntryKind::Directory,
        },
        children: Some(children),
    }
}

fn problem(name: &str, pattern: &str) -> Problem {
    Problem::new(name.to_string(), Regex::new(pattern).unwrap())
}

fn found(dir: &str, name: &str) -> FoundFile {
    FoundFile { path: format!("{}/{}/{}", HOME, dir, name), relative: format!("{}/{}", dir, name) }
}

#[test]
fn two_sources_for_one_problem_are_ambiguous() {
    let tree = vec![directory("math", vec![file("math", "sol.cpp"), file("math", "sol2.cpp")])];
    let walk = enumerate(&tree);
    assert!(walk.failures.is_empty());
    let mut problems = vec![problem("math", r"^math/.*\.cpp$")];
    classify(&walk.files, &mut problems);
    let expected =
        vec!["/contest/alice_01/math/sol.cpp".to_string(), "/contest/alice_01/math/sol2.cpp".to_string()];
    assert_eq!(problems[0].existing_files, expected);
    assert_eq!(problems[0].status(), Status::Ambiguous(expected));
}

#[test]
fn problem_without_a_matching_file_is_missing() {
    let tree = vec![directory("algo", vec![file("algo", "main.py")])];
    let walk = enumerate(&tree);
    let mut problems = vec![problem("graph", "^graph/.*")];
    classify(&walk.files, &mut problems);
    assert!(problems[0].existing_files.is_empty());
    assert_eq!(problems[0].status(), Status::Missing);
}

#[test]
fn one_source_is_found() {
    let tree = vec![directory("algo", vec![file("algo", "main.py")])];
    let walk = enumerate(&tree);
    let mut problems = vec![problem("algo", r"^algo/main\.(py|cpp)$")];
    classify(&walk.files, &mut problems);
    assert_eq!(problems[0].status(), Status::Found("/contest/alice_01/algo/main.py".to_string()));
}

#[test]
fn relative_path_joins_with_a_slash() {
    assert_eq!(relative_path("math", "sol.cpp"), "math/sol.cpp");
    assert_eq!(relative_path("", ""), "/");
    assert_eq!(relative_path("a b", "c\\d"), "a b/c\\d");
}

#[test]
fn enumeration_gives_full_and_relative_paths_in_order() {
    let tree = vec![
        directory("math", vec![file("math", "b.cpp"), file("math", "a.cpp")]),
        directory("empty", Vec::new()),
        directory("algo", vec![file("algo", "main.py")]),
    ];
    let walk = enumerate(&tree);
    assert_eq!(
        walk.files,
        vec![found("math", "b.cpp"), found("math", "a.cpp"), found("algo", "main.py")]
    );
}

#[test]
fn file_directly_in_the_contestant_directory_is_not_enumerated() {
    let loose = Subtree {
        entry: Entry {
            name: "sol.cpp".to_string(),
            path: format!("{}/sol.cpp", HOME),
            kind: EntryKind::File,
        },
        children: None,
    };
    let with_loose = vec![loose, directory("math", vec![file("math", "sol.cpp")])];
    let without = vec![directory("math", vec![file("math", "sol.cpp")])];
    let walk = enumerate(&with_loose);
    assert_eq!(walk.files, vec![found("math", "sol.cpp")]);
    assert_eq!(walk.files, enumerate(&without).files);
    assert!(walk.failures.is_empty());
    let mut problems = vec![problem("any", r"sol\.cpp$")];
    classify(&walk.files, &mut problems);
    assert_eq!(problems[0].existing_files, vec!["/contest/alice_01/math/sol.cpp"]);
}

#[test]
fn children_of_a_non_directory_are_never_read() {
    let odd = Subtree {
        entry: Entry { name: "odd".to_string(), path: format!("{}/odd", HOME), kind: EntryKind::Other },
        children: Some(vec![file("odd", "sol.cpp")]),
    };
    let walk = enumerate(&vec![odd]);
    assert!(walk.files.is_empty());
    assert!(walk.failures.is_empty());
}

#[test]
fn nested_directories_and_other_entries_are_skipped() {
    let nested = Entry {
        name: "deep".to_string(),
        path: format!("{}/math/deep", HOME),
        kind: EntryKind::Directory,
    };
    let socket = Entry {
        name: "sock".to_string(),
        path: format!("{}/math/sock", HOME),
        kind: EntryKind::Other,
    };
    let tree = vec![directory("math", vec![nested, file("math", "sol.cpp"), socket])];
    assert_eq!(enumerate(&tree).files, vec![found("math", "sol.cpp")]);
}

#[test]
fn unreadable_directory_is_reported_and_the_walk_goes_on() {
    let locked = Subtree {
        entry: Entry {
            name: "locked".to_string(),
            path: format!("{}/locked", HOME),
            kind: EntryKind::Directory,
        },
        children: None,
    };
    let tree = vec![
        directory("math", vec![file("math", "sol.cpp")]),
        locked,
        directory("algo", vec![file("algo", "main.py")]),
    ];
    let walk = enumerate(&tree);
    assert_eq!(walk.files, vec![found("math", "sol.cpp"), found("algo", "main.py")]);
    assert_eq!(
        walk.failures,
        vec![WalkError::DirectoryWalkFailure("/contest/alice_01/locked".to_string())]
    );
}

#[test]
fn file_matching_two_problems_is_listed_by_both() {
    let files = vec![found("math", "sol.cpp"), found("algo", "main.py")];
    let mut problems =
        vec![problem("math", "^math/"), problem("cpp", r"\.cpp$"), problem("algo", "^algo/")];
    classify(&files, &mut problems);
    assert_eq!(problems[0].existing_files, vec!["/contest/alice_01/math/sol.cpp"]);
    assert_eq!(problems[1].existing_files, vec!["/contest/alice_01/math/sol.cpp"]);
    assert_eq!(problems[2].existing_files, vec!["/contest/alice_01/algo/main.py"]);
}

#[test]
fn listed_if_and_only_if_matching() {
    let files = vec![
        found("math", "a.cpp"),
        found("math", "notes.txt"),
        found("algo", "a.cpp"),
        found("math", "b.cpp"),
    ];
    let mut problems = vec![problem("math", r"^math/.*\.cpp$"), problem("none", "^graph/")];
    classify(&files, &mut problems);
    for p in problems.iter() {
        for f in files.iter() {
            assert_eq!(p.existing_files.contains(&f.path), p.regex.is_match(&f.relative));
        }
    }
    assert_eq!(
        problems[0].existing_files,
        vec!["/contest/alice_01/math/a.cpp", "/contest/alice_01/math/b.cpp"]
    );
    assert_eq!(problems[0].name, "math");
    assert_eq!(problems[1].name, "none");
    assert_eq!(problems[0].regex.as_str(), r"^math/.*\.cpp$");
}

#[test]
fn relative_path_is_matched_and_full_path_is_listed() {
    let files = vec![found("math", "sol.cpp")];
    let mut problems = vec![problem("rooted", "^/contest"), problem("math", "^math/sol")];
    classify(&files, &mut problems);
    assert!(problems[0].existing_files.is_empty());
    assert_eq!(problems[1].existing_files, vec!["/contest/alice_01/math/sol.cpp"]);
}

#[test]
fn list_that_was_not_empty_keeps_what_it_held() {
    let mut seeded = problem("math", "^math/");
    seeded.existing_files.push("earlier".to_string());
    let mut problems = vec![seeded];
    classify(&vec![found("math", "sol.cpp")], &mut problems);
    assert_eq!(problems[0].existing_files, vec!["earlier", "/contest/alice_01/math/sol.cpp"]);
}

#[test]
fn classifying_nothing_changes_nothing() {
    let mut problems = vec![problem("math", ".*")];
    classify(&Vec::new(), &mut problems);
    assert!(problems[0].existing_files.is_empty());
    let mut none: Vec<Problem> = Vec::new();
    classify(&vec![found("math", "sol.cpp")], &mut none);
    assert!(none.is_empty());
}

#[test]
fn one_file_is_held_against_every_problem() {
    let mut problems = vec![problem("a", "cpp"), problem("b", "py"), problem("c", "sol")];
    classify_file(&found("math", "sol.cpp"), &mut problems);
    assert_eq!(problems[0].existing_files.len(), 1);
    assert_eq!(problems[1].existing_files.len(), 0);
    assert_eq!(problems[2].existing_files.len(), 1);
}

#[test]
fn status_goes_by_the_number_of_files() {
    assert_eq!(status_of(&Vec::new()), Status::Missing);
    assert_eq!(status_of(&vec!["x".to_string()]), Status::Found("x".to_string()));
    assert_eq!(status_of(&vec!["".to_string()]), Status::Found("".to_string()));
    assert_eq!(
        status_of(&vec!["x".to_string(), "x".to_string()]),
        Status::Ambiguous(vec!["x".to_string(), "x".to_string()])
    );
    assert_eq!(
        status_of(&vec!["c".to_string(), "a".to_string(), "b".to_string()]),
        Status::Ambiguous(vec!["c".to_string(), "a".to_string(), "b".to_string()])
    );
}

#[test]
fn report_has_one_entry_for_each_problem_in_order() {
    let files = vec![found("math", "sol.cpp"), found("math", "sol2.cpp"), found("algo", "main.py")];
    let mut cfg = Contestant {
        root_path: "/contest".to_string(),
        regex: Regex::new("^alice").unwrap(),
        problems: vec![problem("math", "^math/"), problem("graph", "^graph/"), problem("algo", "^algo/")],
    };
    cfg.classify(&files);
    assert_eq!(cfg.root_path, "/contest");
    assert_eq!(cfg.regex.as_str(), "^alice");
    let expected = vec![
        ProblemReport {
            name: "math".to_string(),
            status: Status::Ambiguous(vec![
                "/contest/alice_01/math/sol.cpp".to_string(),
                "/contest/alice_01/math/sol2.cpp".to_string(),
            ]),
        },
        ProblemReport { name: "graph".to_string(), status: Status::Missing },
        ProblemReport {
            name: "algo".to_string(),
            status: Status::Found("/contest/alice_01/algo/main.py".to_string()),
        },
    ];
    assert_eq!(cfg.report(), expected);
    assert_eq!(report(&cfg.problems), expected);
    assert!(report(&Vec::new()).is_empty());
}

#[test]
fn copy_of_paths_is_equal() {
    let paths = vec!["a".to_string(), "".to_string(), "b/c".to_string()];
    assert_eq!(copy_paths(&paths), paths);
    assert!(copy_paths(&Vec::new()).is_empty());
}

#[test]
fn inspection_walks_classifies_and_reports() {
    let locked = Subtree {
        entry: Entry {
            name: "locked".to_string(),
            path: format!("{}/locked", HOME),
            kind: EntryKind::Directory,
        },
        children: None,
    };
    let tree = vec![
        directory("math", vec![file("math", "sol.cpp"), file("math", "sol2.cpp")]),
        locked,
        directory("algo", vec![file("algo", "main.py")]),
    ];
    let mut cfg = Contestant {
        root_path: "/contest".to_string(),
        regex: Regex::new("^alice").unwrap(),
        problems: vec![problem("math", r"^math/.*\.cpp$"), problem("graph", "^graph/.*")],
    };
    let (entries, failures) = cfg.inspect(&tree);
    assert_eq!(
        entries,
        vec![
            ProblemReport {
                name: "math".to_string(),
                status: Status::Ambiguous(vec![
                    "/contest/alice_01/math/sol.cpp".to_string(),
                    "/contest/alice_01/math/sol2.cpp".to_string(),
                ]),
            },
            ProblemReport { name: "graph".to_string(), status: Status::Missing },
        ]
    );
    assert_eq!(
        failures,
        vec![WalkError::DirectoryWalkFailure("/contest/alice_01/locked".to_string())]
    );
    assert_eq!(cfg.problems[0].existing_files.len(), 2);
    assert!(cfg.problems[1].existing_files.is_empty());
}
