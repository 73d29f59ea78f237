use deskent::entry::{entry_name, find, find_in_dir, find_in_file, name_matches, EntryError, EntryFile, FindDir, FindEvent};
use deskent::paths::{find_application_dirs, join_path, resolve_application_dirs, split_path_list, ConfigError};
use deskent::scan::{
    get_dir_desktop_files, ls, ls_one_dir, sort_by_keys, sort_case_insensitive, DirChild, DirContents, DirListing,
    DirScan, EntryKind,
};
use deskent::text::{contains, ends_with, less_than};

fn strings(v: &[&str]) -> Vec<String> {
    v.iter().map(|s| s.to_string()).collect()
}

fn child(name: &str, kind: Option<EntryKind>) -> DirChild {
    DirChild { name: name.to_string(), kind }
}

fn entry(path: &str, text: &str) -> EntryFile {
    EntryFile { path: path.to_string(), text: Ok(text.to_string()) }
}

fn files_of(l: DirListing) -> Vec<String> {
    match l {
        DirListing::Files(v) => v,
        other => panic!("expected files, got {:?}", other),
    }
}

#[test]
fn overrides_give_the_directory_list() {
    let r = resolve_application_dirs(Some("/tmp/x"), Some("/a:/b"), None);
    assert_eq!(r, Ok(strings(&["/tmp/x/applications", "/a/applications", "/b/applications"])));
}

#[test]
fn fallbacks_give_the_directory_list() {
    let r = resolve_application_dirs(None, None, Some("/home/u"));
    assert_eq!(
        r,
        Ok(strings(&[
            "/home/u/.local/share/applications",
            "/usr/local/share/applications",
            "/usr/share/applications"
        ]))
    );
}

#[test]
fn empty_user_override_falls_back_to_home() {
    let r = resolve_application_dirs(Some(""), Some("/a"), Some("/home/u/"));
    assert_eq!(r, Ok(strings(&["/home/u/.local/share/applications", "/a/applications"])));
}

#[test]
fn no_home_directory_is_a_configuration_error() {
    assert_eq!(resolve_application_dirs(None, None, None), Err(ConfigError::NoHomeDirectory));
    assert_eq!(resolve_application_dirs(Some(""), None, None), Err(ConfigError::NoHomeDirectory));
    assert_eq!(ConfigError::NoHomeDirectory.message(), "Couldn't get home dir");
}

#[test]
fn resolving_twice_gives_the_same_list() {
    let a = resolve_application_dirs(Some("/tmp/x"), Some("/a:/b"), Some("/home/u"));
    let b = resolve_application_dirs(Some("/tmp/x"), Some("/a:/b"), Some("/home/u"));
    assert_eq!(a, b);
    let c = find_application_dirs(Some("/d"), Some("/s"));
    let d = find_application_dirs(Some("/d"), Some("/s"));
    assert_eq!(c, Ok(strings(&["/d/applications", "/s/applications"])));
    assert_eq!(c, d);
}

#[test]
fn path_list_keeps_empty_pieces() {
    assert_eq!(split_path_list("/a::/b"), strings(&["/a", "", "/b"]));
    assert_eq!(split_path_list(""), strings(&[""]));
    assert_eq!(split_path_list("/a:"), strings(&["/a", ""]));
}

#[test]
fn joining_paths() {
    assert_eq!(join_path("/x", "applications"), "/x/applications");
    assert_eq!(join_path("/x/", "applications"), "/x/applications");
    assert_eq!(join_path("", "applications"), "applications");
}

#[test]
fn listing_filters_and_sorts_case_insensitively() {
    let contents = DirContents::Children(vec![
        child("B.desktop", Some(EntryKind::File)),
        child("a.desktop", Some(EntryKind::File)),
        child("note.txt", Some(EntryKind::File)),
        child("sub", Some(EntryKind::Directory)),
    ]);
    assert_eq!(files_of(ls_one_dir(&contents)), strings(&["a.desktop", "B.desktop"]));
}

#[test]
fn candidates_are_files_and_links_with_the_suffix() {
    let children = vec![
        child("x.desktop", Some(EntryKind::Symlink)),
        child("d.desktop", Some(EntryKind::Directory)),
        child("o.desktop", Some(EntryKind::Other)),
        child("u.desktop", None),
        child("f.desktop", Some(EntryKind::File)),
        child("f.desktop.bak", Some(EntryKind::File)),
    ];
    assert_eq!(get_dir_desktop_files(&children), strings(&["x.desktop", "f.desktop"]));
}

#[test]
fn equal_keys_keep_their_order() {
    let names = strings(&["b.desktop", "A.desktop", "a.desktop", "B.desktop"]);
    assert_eq!(sort_case_insensitive(&names), strings(&["A.desktop", "a.desktop", "b.desktop", "B.desktop"]));
    assert_eq!(sort_case_insensitive(&strings(&["B", "a"])), strings(&["a", "B"]));
    assert_eq!(sort_case_insensitive(&Vec::new()), Vec::<String>::new());
}

#[test]
fn sorting_by_given_keys() {
    let keys = strings(&["2", "1", "2", "0"]);
    let names = strings(&["w", "x", "y", "z"]);
    assert_eq!(sort_by_keys(&keys, &names), strings(&["z", "x", "w", "y"]));
}

#[test]
fn missing_directory_is_not_a_directory() {
    assert!(matches!(ls_one_dir(&DirContents::NotADirectory), DirListing::NotADirectory));
}

#[test]
fn empty_directory_has_no_desktop_files() {
    assert!(matches!(ls_one_dir(&DirContents::Children(Vec::new())), DirListing::NoDesktopFiles));
    let only_text = DirContents::Children(vec![child("note.txt", Some(EntryKind::File))]);
    assert!(matches!(ls_one_dir(&only_text), DirListing::NoDesktopFiles));
}

#[test]
fn unreadable_directory_is_reported() {
    match ls_one_dir(&DirContents::Unreadable("Permission denied".to_string())) {
        DirListing::Unreadable(m) => assert_eq!(m, "Permission denied"),
        other => panic!("unexpected {:?}", other),
    }
}

#[test]
fn ls_reports_each_directory_in_order() {
    let dirs = vec![
        DirScan { path: "/missing".to_string(), contents: DirContents::NotADirectory },
        DirScan {
            path: "/apps".to_string(),
            contents: DirContents::Children(vec![child("z.desktop", Some(EntryKind::File))]),
        },
    ];
    let r = ls(&dirs);
    assert_eq!(r.len(), 2);
    assert_eq!(r[0].path, "/missing");
    assert!(matches!(r[0].listing, DirListing::NotADirectory));
    assert_eq!(r[1].path, "/apps");
    assert!(matches!(&r[1].listing, DirListing::Files(v) if v == &strings(&["z.desktop"])));
}

#[test]
fn name_match_is_case_insensitive_substring() {
    for needle in ["CALC", "calc", "alcu", "Calculator", ""] {
        assert!(name_matches("Calculator", needle), "{}", needle);
    }
    assert!(!name_matches("Calculator", "xyz"));
    assert!(!name_matches("Calc", "calculator"));
}

#[test]
fn find_reports_matching_entry() {
    let f = entry("/apps/calc.desktop", "[Desktop Entry]\nName=Calculator\nExec=calc\n");
    for needle in ["CALC", "calc", "alcu"] {
        match find_in_file(&f, needle) {
            Some(FindEvent::Found(p, n)) => {
                assert_eq!(p, "/apps/calc.desktop");
                assert_eq!(n, "Calculator");
            },
            other => panic!("unexpected {:?}", other),
        }
    }
    assert!(find_in_file(&f, "editor").is_none());
}

#[test]
fn entry_name_reads_the_desktop_entry_section() {
    assert_eq!(entry_name("[Desktop Entry]\nName=Files\n").unwrap(), "Files");
    assert!(matches!(entry_name("[Other]\nName=Files\n"), Err(EntryError::MissingSection)));
    assert!(matches!(entry_name("[Desktop Entry]\nExec=files\n"), Err(EntryError::MissingKey)));
    assert!(matches!(entry_name("[Desktop Entry\nName=Files\n"), Err(EntryError::Unparsable(_))));
    assert_eq!(EntryError::MissingSection.message(), "No [Desktop Entry] section");
    assert_eq!(EntryError::MissingKey.message(), "No Name key");
}

#[test]
fn malformed_entries_do_not_stop_the_search() {
    let dirs = vec![
        FindDir {
            path: "/one".to_string(),
            files: Ok(vec![
                entry("/one/bad.desktop", "[Other]\nName=Calc\n"),
                entry("/one/nokey.desktop", "[Desktop Entry]\nIcon=x\n"),
                EntryFile { path: "/one/gone.desktop".to_string(), text: Err("No such file".to_string()) },
                entry("/one/calc.desktop", "[Desktop Entry]\nName=Calculator\n"),
            ]),
        },
        FindDir { path: "/locked".to_string(), files: Err("Permission denied".to_string()) },
        FindDir { path: "/two".to_string(), files: Ok(vec![entry("/two/kcalc.desktop", "[Desktop Entry]\nName=KCalc\n")]) },
    ];
    let r = find(&dirs, "calc");
    assert_eq!(r.len(), 3);
    assert_eq!(r[0].len(), 4);
    assert!(matches!(&r[0][0], Some(FindEvent::Malformed(p, EntryError::MissingSection)) if p == "/one/bad.desktop"));
    assert!(matches!(&r[0][1], Some(FindEvent::Malformed(p, EntryError::MissingKey)) if p == "/one/nokey.desktop"));
    assert!(matches!(&r[0][2], Some(FindEvent::CouldNotRead(p, m)) if p == "/one/gone.desktop" && m == "No such file"));
    assert!(matches!(&r[0][3], Some(FindEvent::Found(p, n)) if p == "/one/calc.desktop" && n == "Calculator"));
    assert_eq!(r[1].len(), 1);
    assert!(matches!(&r[1][0], Some(FindEvent::CouldNotList(p, m)) if p == "/locked" && m == "Permission denied"));
    assert!(matches!(&r[2][..], [Some(FindEvent::Found(p, n))] if p == "/two/kcalc.desktop" && n == "KCalc"));
}

#[test]
fn find_in_dir_skips_non_matching() {
    let d = FindDir { path: "/d".to_string(), files: Ok(vec![entry("/d/t.desktop", "[Desktop Entry]\nName=Terminal\n")]) };
    let r = find_in_dir(&d, "calc");
    assert_eq!(r.len(), 1);
    assert!(r[0].is_none());
}

#[test]
fn text_helpers() {
    assert!(ends_with("a.desktop", ".desktop"));
    assert!(!ends_with("desktop", ".desktop"));
    assert!(contains("calculator", "lcu"));
    assert!(!contains("calc", "calcu"));
    assert!(contains("", ""));
    assert!(less_than("a", "b"));
    assert!(less_than("a", "ab"));
    assert!(!less_than("ab", "ab"));
    assert!(less_than("B", "a"));
}
