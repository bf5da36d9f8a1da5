use minishell::sftp::{
    arrange_listing, format_perm, mkdir_p_steps, path_components, remote_child_path, sort_listing, split_pieces,
    FileEntry,
};

fn entry(name: &str, is_dir: bool) -> FileEntry {
    FileEntry { name: name.into(), is_dir, size: 0, modified: "".into(), perm: "".into() }
}

fn names(v: &[FileEntry]) -> Vec<(String, bool)> {
    v.iter().map(|e| (e.name.clone(), e.is_dir)).collect()
}

fn chars(s: &str) -> Vec<char> {
    s.chars().collect()
}

#[test]
fn permission_strings() {
    assert_eq!(format_perm(Some(0o755), true), "drwxr-xr-x");
    assert_eq!(format_perm(Some(0o100644), false), "-rw-r--r--");
    assert_eq!(format_perm(Some(0), false), "----------");
    assert_eq!(format_perm(Some(0o777), false), "-rwxrwxrwx");
    assert_eq!(format_perm(None, true), "");
}

#[test]
fn listing_puts_directories_first_then_names() {
    let raw = vec![
        entry("b.txt", false),
        entry(".", true),
        entry("zdir", true),
        entry("..", true),
        entry("A.txt", false),
        entry(".hidden", false),
        entry("adir", true),
    ];
    assert_eq!(
        names(&arrange_listing(raw)),
        vec![
            ("adir".to_string(), true),
            ("zdir".to_string(), true),
            (".hidden".to_string(), false),
            ("A.txt".to_string(), false),
            ("b.txt".to_string(), false),
        ]
    );
}

#[test]
fn sorting_keeps_dot_entries_and_equal_names_in_order() {
    let mut first = entry("same", false);
    first.size = 1;
    let mut second = entry("same", false);
    second.size = 2;
    let sorted = sort_listing(vec![first, entry("..", true), second, entry("é", false), entry("z", false)]);
    assert_eq!(
        names(&sorted),
        vec![
            ("..".to_string(), true),
            ("same".to_string(), false),
            ("same".to_string(), false),
            ("z".to_string(), false),
            ("é".to_string(), false),
        ]
    );
    assert_eq!(sorted[1].size, 1);
    assert_eq!(sorted[2].size, 2);
}

#[test]
fn mkdir_visits_each_prefix() {
    assert_eq!(mkdir_p_steps("/a/b/c"), vec!["/", "/a", "/a/b", "/a/b/c"]);
    assert_eq!(mkdir_p_steps("/a//b/"), vec!["/", "/a", "/a/b"]);
    assert_eq!(mkdir_p_steps("x/y"), vec!["/x", "/x/y"]);
    assert_eq!(mkdir_p_steps("/"), vec!["/"]);
    assert!(mkdir_p_steps("").is_empty());
}

#[test]
fn child_paths_have_one_slash() {
    assert_eq!(remote_child_path("/srv/data/", "f.txt"), "/srv/data/f.txt");
    assert_eq!(remote_child_path("/srv//", "f"), "/srv/f");
    assert_eq!(remote_child_path("/", "etc"), "/etc");
    assert_eq!(remote_child_path("", "x"), "/x");
}

#[test]
fn splitting_paths() {
    assert_eq!(
        split_pieces(&chars("/a//b"), '/'),
        vec![chars(""), chars("a"), chars(""), chars("b")]
    );
    assert_eq!(split_pieces(&chars(""), '/'), vec![chars("")]);
    assert_eq!(path_components(&chars("/a//b/")), vec![chars("a"), chars("b")]);
}
