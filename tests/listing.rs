use agito::text::trim;
use agito::web::{parse_branches, parse_commits, parse_file_list, shown_description};

#[test]
fn branches_are_listed_without_marks_and_aliases() {
    let out = "* main\n  feature/x\n  remotes/origin/HEAD -> origin/main\n\n  remotes/origin/main\n";
    assert_eq!(parse_branches(out), vec!["main", "feature/x", "remotes/origin/main"]);
    assert_eq!(parse_branches(""), Vec::<String>::new());
}

#[test]
fn commits_are_split_on_the_first_three_bars() {
    let out = "0123456789abcdef|Ann|2 days ago|Fix a|b\nbroken line\nabc|Bob|now|x\n";
    let commits = parse_commits(out);
    assert_eq!(commits.len(), 2);
    assert_eq!(commits[0].hash, "01234567");
    assert_eq!(commits[0].author, "Ann");
    assert_eq!(commits[0].date, "2 days ago");
    assert_eq!(commits[0].message, "Fix a|b");
    assert_eq!(commits[1].hash, "abc");
    assert_eq!(commits[1].message, "x");
}

#[test]
fn tree_entries_are_listed() {
    let out = "100644 blob e69de29\tREADME.md\n040000 tree 4b825dc\tsrc\nshort line\n100644 blob abc\tmy  file.txt\n";
    let files = parse_file_list(out, "");
    assert_eq!(files.len(), 3);
    assert_eq!(files[0].name, "README.md");
    assert_eq!(files[0].file_type, "blob");
    assert_eq!(files[0].path, "README.md");
    assert_eq!(files[1].file_type, "tree");
    assert_eq!(files[2].name, "my file.txt");
    let nested = parse_file_list("100644 blob abc\tlib.rs\n", "src");
    assert_eq!(nested[0].path, "src/lib.rs");
}

#[test]
fn placeholder_description_is_hidden() {
    assert_eq!(
        shown_description(
            "Unnamed repository; edit this file 'description' to name the repository.\n"
        ),
        ""
    );
    assert_eq!(shown_description("  My project \n"), "My project");
}

#[test]
fn trim_removes_unicode_whitespace() {
    assert_eq!(trim("\u{3000} a b\t\n"), "a b");
    assert_eq!(trim("   "), "");
}
