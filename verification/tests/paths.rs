use js_evaluator::from_key_to_fs_path::from_string_to_path_string;
use js_evaluator::normalize_path::{join_path, normalize_path, parent_dir, strip_windows_prefix};
use js_evaluator::replace_prefix_or_not::{replace_prefix_longest, PathAliasTable};

fn table(entries: &[(&str, &str)]) -> PathAliasTable {
    let mut table = PathAliasTable::new();
    for (key, value) in entries {
        table.insert(key.to_string(), value.to_string());
    }
    table
}

#[test]
fn parent_segment_removes_the_segment_before_it() {
    assert_eq!(normalize_path("/a/b/../c", false), "/a/c");
    assert_eq!(normalize_path("a/b/../../c", false), "c");
    assert_eq!(normalize_path("/a/b/c/../..", false), "/a");
}

#[test]
fn current_segment_is_consumed() {
    assert_eq!(normalize_path("/a/./b", false), "/a/b");
    assert_eq!(normalize_path("./a", false), "a");
    assert_eq!(normalize_path("a/.", false), "a");
    assert_eq!(normalize_path(".", false), "");
}

#[test]
fn parent_segment_beyond_the_root_is_dropped() {
    assert_eq!(normalize_path("/../a", false), "/a");
    assert_eq!(normalize_path("/..", false), "/");
    assert_eq!(normalize_path("/a/../../b", false), "/b");
}

#[test]
fn parent_segment_with_nothing_before_it_is_dropped() {
    assert_eq!(normalize_path("../a", false), "a");
    assert_eq!(normalize_path("a/../../b", false), "b");
    assert_eq!(normalize_path("..", false), "");
}

#[test]
fn repeated_and_trailing_separators_vanish() {
    assert_eq!(normalize_path("/a//b/", false), "/a/b");
    assert_eq!(normalize_path("a///b", false), "a/b");
    assert_eq!(normalize_path("//", false), "/");
}

#[test]
fn empty_and_root_paths_stay() {
    assert_eq!(normalize_path("", false), "");
    assert_eq!(normalize_path("/", false), "/");
}

#[test]
fn segments_that_only_look_like_dots_are_kept() {
    assert_eq!(normalize_path("/a/.../b", false), "/a/.../b");
    assert_eq!(normalize_path("/a/..b/c", false), "/a/..b/c");
    assert_eq!(normalize_path("/a/.b/c", false), "/a/.b/c");
}

#[test]
fn a_path_that_does_not_exist_is_normalized_all_the_same() {
    assert_eq!(
        normalize_path("/no/such/dir/anywhere/../file.txt", false),
        "/no/such/dir/file.txt"
    );
}

#[test]
fn text_beyond_ascii_is_kept() {
    assert_eq!(normalize_path("/données/./été/../fichier", false), "/données/fichier");
}

#[test]
fn normalizing_twice_changes_nothing() {
    for path in ["/a/b/../c", "a/./b//c/", "/../x", "", "/", "x/../.."] {
        let once = normalize_path(path, false);
        assert_eq!(normalize_path(&once, false), once);
    }
}

#[test]
fn verbatim_prefix_is_stripped_where_the_platform_writes_it() {
    assert_eq!(strip_windows_prefix("\\\\?\\C:\\dir\\file", true), "C:\\dir\\file");
    assert_eq!(strip_windows_prefix("\\\\?\\", true), "");
    assert_eq!(normalize_path("\\\\?\\C:\\dir", true), "C:\\dir");
}

#[test]
fn verbatim_prefix_is_kept_on_any_other_platform() {
    assert_eq!(
        strip_windows_prefix("\\\\?\\C:\\dir\\file", false),
        "\\\\?\\C:\\dir\\file"
    );
    assert_eq!(strip_windows_prefix("\\\\?\\a", false), "\\\\?\\a");
    assert_eq!(normalize_path("\\\\?\\a", false), "\\\\?\\a");
    assert_eq!(normalize_path("\\\\?\\C:\\dir", false), "\\\\?\\C:\\dir");
}

#[test]
fn a_path_without_verbatim_prefix_is_kept() {
    for verbatim in [false, true] {
        assert_eq!(strip_windows_prefix("/a/b", verbatim), "/a/b");
        assert_eq!(strip_windows_prefix("\\\\?", verbatim), "\\\\?");
        assert_eq!(strip_windows_prefix("\\\\server\\share", verbatim), "\\\\server\\share");
        assert_eq!(strip_windows_prefix("", verbatim), "");
        assert_eq!(normalize_path("/a/./b/../c", verbatim), "/a/c");
    }
}

#[test]
fn without_the_prefix_a_relative_path_stays_relative() {
    assert_eq!(normalize_path("\\\\?\\/a", false), "\\\\?\\/a");
    assert_eq!(normalize_path("\\\\?\\/a", true), "/a");
}

#[test]
fn without_the_prefix_normalizing_twice_changes_nothing() {
    for path in ["\\\\?\\\\\\?\\a", "\\\\?\\a", "\\\\?\\..", "\\\\?\\/a/../b", "a/./b"] {
        let once = normalize_path(path, false);
        assert_eq!(normalize_path(&once, false), once, "{path}");
    }
}

#[test]
fn without_the_prefix_no_parent_segment_is_left() {
    let aliases = PathAliasTable::new();
    assert_eq!(
        from_string_to_path_string(&aliases, "", "\\\\?\\..".to_string(), false),
        "\\\\?\\.."
    );
    assert_eq!(
        from_string_to_path_string(&aliases, "", "\\\\?\\..".to_string(), true),
        ".."
    );
}

#[test]
fn join_puts_a_separator_between() {
    assert_eq!(join_path("/base", "file.txt"), "/base/file.txt");
    assert_eq!(join_path("base", "a/b"), "base/a/b");
}

#[test]
fn join_adds_no_separator_after_one() {
    assert_eq!(join_path("/base/", "file.txt"), "/base/file.txt");
    assert_eq!(join_path("/", "file.txt"), "/file.txt");
}

#[test]
fn join_onto_nothing_is_the_path() {
    assert_eq!(join_path("", "file.txt"), "file.txt");
}

#[test]
fn join_of_an_absolute_path_is_that_path() {
    assert_eq!(join_path("/base", "/etc/file"), "/etc/file");
}

#[test]
fn join_of_nothing_ends_in_a_separator() {
    assert_eq!(join_path("/base", ""), "/base/");
}

#[test]
fn parent_is_the_directory_of_a_file() {
    assert_eq!(parent_dir("/home/user/script.js"), "/home/user");
    assert_eq!(parent_dir("/script.js"), "/");
    assert_eq!(parent_dir("dir/script.js"), "dir");
}

#[test]
fn parent_of_a_single_segment_is_empty() {
    assert_eq!(parent_dir("script.js"), "");
    assert_eq!(parent_dir(""), "");
}

#[test]
fn parent_of_the_root_is_the_root() {
    assert_eq!(parent_dir("/"), "/");
}

#[test]
fn parent_is_taken_of_the_normal_form() {
    assert_eq!(parent_dir("/a/b/../c/script.js"), "/a/c");
}

#[test]
fn longest_alias_wins() {
    let aliases = table(&[("a", "/x"), ("ab", "/y")]);
    assert_eq!(replace_prefix_longest("abc", &aliases), "/yc");
}

#[test]
fn longest_alias_wins_whatever_the_order() {
    let aliases = table(&[("ab", "/y"), ("a", "/x")]);
    assert_eq!(replace_prefix_longest("abc", &aliases), "/yc");
    let more = table(&[("a", "/x"), ("abc", "/z"), ("ab", "/y")]);
    assert_eq!(replace_prefix_longest("abcd", &more), "/zd");
}

#[test]
fn shorter_alias_is_used_where_the_longer_does_not_match() {
    let aliases = table(&[("a", "/x"), ("ab", "/y")]);
    assert_eq!(replace_prefix_longest("acd", &aliases), "/xcd");
}

#[test]
fn rest_is_kept_verbatim() {
    let aliases = table(&[("@out", "/var/out")]);
    assert_eq!(
        replace_prefix_longest("@out//a/../b", &aliases),
        "/var/out//a/../b"
    );
    assert_eq!(replace_prefix_longest("@outfile", &aliases), "/var/outfile");
}

#[test]
fn text_without_alias_is_unchanged() {
    let aliases = table(&[("@out", "/var/out")]);
    assert_eq!(replace_prefix_longest("other/file", &aliases), "other/file");
    assert_eq!(replace_prefix_longest("@ou", &aliases), "@ou");
    assert_eq!(replace_prefix_longest("", &aliases), "");
}

#[test]
fn empty_table_changes_nothing() {
    let aliases = PathAliasTable::new();
    assert_eq!(aliases.len(), 0);
    assert_eq!(replace_prefix_longest("abc", &aliases), "abc");
    assert_eq!(aliases.longest_alias("abc"), None);
}

#[test]
fn whole_text_may_be_the_alias() {
    let aliases = table(&[("@out", "/var/out")]);
    assert_eq!(replace_prefix_longest("@out", &aliases), "/var/out");
}

#[test]
fn empty_alias_matches_every_text() {
    let aliases = table(&[("", "/pre/")]);
    assert_eq!(replace_prefix_longest("abc", &aliases), "/pre/abc");
}

#[test]
fn insert_of_a_held_key_replaces_its_directory() {
    let mut aliases = table(&[("a", "/x"), ("b", "/y")]);
    aliases.insert("a".to_string(), "/z".to_string());
    assert_eq!(aliases.len(), 2);
    assert_eq!(aliases.position("a"), Some(0));
    assert_eq!(aliases.key_at(0), "a");
    assert_eq!(aliases.value_at(0), "/z");
    assert_eq!(aliases.value_at(1), "/y");
    assert_eq!(replace_prefix_longest("a/f", &aliases), "/z/f");
}

#[test]
fn insert_of_a_new_key_goes_to_the_end() {
    let mut aliases = table(&[("a", "/x")]);
    aliases.insert("b".to_string(), "/y".to_string());
    assert_eq!(aliases.len(), 2);
    assert_eq!(aliases.position("b"), Some(1));
    assert_eq!(aliases.position("c"), None);
}

#[test]
fn longest_alias_names_the_entry() {
    let aliases = table(&[("a", "/x"), ("ab", "/y"), ("zz", "/z")]);
    assert_eq!(aliases.longest_alias("abc"), Some(1));
    assert_eq!(aliases.longest_alias("a"), Some(0));
    assert_eq!(aliases.longest_alias("b"), None);
}

#[test]
fn copy_holds_the_same_entries() {
    let aliases = table(&[("a", "/x"), ("ab", "/y")]);
    let copy = aliases.copy();
    assert_eq!(copy.len(), 2);
    assert_eq!(copy.key_at(1), "ab");
    assert_eq!(copy.value_at(1), "/y");
}

#[test]
fn anchored_joins_each_directory_onto_the_base() {
    let aliases = table(&[("@a", "../out"), ("@b", "/abs/./dir"), ("@c", "sub")]);
    let anchored = aliases.anchored("/work/rc.config.json", false);
    assert_eq!(anchored.len(), 3);
    assert_eq!(anchored.key_at(0), "@a");
    assert_eq!(anchored.value_at(0), "/work/out");
    assert_eq!(anchored.value_at(1), "/abs/dir");
    assert_eq!(anchored.value_at(2), "/work/rc.config.json/sub");
}

#[test]
fn aliased_path_is_substituted_and_normalized() {
    let aliases = table(&[("@out", "/var/out")]);
    assert_eq!(
        from_string_to_path_string(&aliases, "/home/user", "@out/a/../b.txt".to_string(), false),
        "/var/out/b.txt"
    );
}

#[test]
fn path_without_alias_is_joined_onto_the_base() {
    let aliases = table(&[("@out", "/var/out")]);
    assert_eq!(
        from_string_to_path_string(&aliases, "/home/user", "gen/./x.txt".to_string(), false),
        "/home/user/gen/x.txt"
    );
    assert_eq!(
        from_string_to_path_string(&aliases, "/home/user", "../x.txt".to_string(), false),
        "/home/x.txt"
    );
}

#[test]
fn absolute_path_without_alias_stays() {
    let aliases = PathAliasTable::new();
    assert_eq!(
        from_string_to_path_string(&aliases, "/home/user", "/etc/x.txt".to_string(), false),
        "/etc/x.txt"
    );
}

#[test]
fn substituted_path_is_not_joined_onto_the_base() {
    let aliases = table(&[("rel", "relative/dir")]);
    assert_eq!(
        from_string_to_path_string(&aliases, "/home/user", "rel/x".to_string(), false),
        "relative/dir/x"
    );
}

#[test]
fn resolving_a_resolved_path_changes_nothing() {
    let aliases = table(&[("@out", "/var/out"), ("@", "/at")]);
    for path in ["@out/a/../b.txt", "@x", "plain/file", "/abs/./f", "../up"] {
        let once = from_string_to_path_string(&aliases, "/home/user", path.to_string(), false);
        assert_eq!(aliases.longest_alias(&once), None);
        let twice = from_string_to_path_string(&aliases, "/home/user", once.clone(), false);
        assert_eq!(twice, once);
    }
}

#[test]
fn resolving_a_relative_result_again_may_change_it() {
    let aliases = PathAliasTable::new();
    let once = from_string_to_path_string(&aliases, "out", "a".to_string(), false);
    assert_eq!(once, "out/a");
    let twice = from_string_to_path_string(&aliases, "out", once, false);
    assert_eq!(twice, "out/out/a");
}

#[test]
fn substituting_and_normalizing_again_changes_nothing() {
    let aliases = table(&[("@out", "/var/out"), ("lib", "vendor/lib")]);
    for path in ["@out/a/../b.txt", "lib/x/./y", "plain/../file", "/abs//f", "../up", ""] {
        let once = normalize_path(&replace_prefix_longest(path, &aliases), false);
        assert_eq!(aliases.longest_alias(&once), None, "{path}");
        let twice = normalize_path(&replace_prefix_longest(&once, &aliases), false);
        assert_eq!(twice, once, "{path}");
    }
}

#[test]
fn a_path_that_lost_a_verbatim_prefix_may_lose_another() {
    let aliases = PathAliasTable::new();
    let once = normalize_path(&replace_prefix_longest("\\\\?\\\\\\?\\a", &aliases), true);
    assert_eq!(once, "\\\\?\\a");
    let twice = normalize_path(&replace_prefix_longest(&once, &aliases), true);
    assert_eq!(twice, "a");
    let kept = normalize_path(&replace_prefix_longest("\\\\?\\\\\\?\\a", &aliases), false);
    assert_eq!(kept, "\\\\?\\\\\\?\\a");
    assert_eq!(normalize_path(&replace_prefix_longest(&kept, &aliases), false), kept);
}
