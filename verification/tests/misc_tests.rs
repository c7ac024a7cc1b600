use maple_core::cache::{readable_size, Cache, CacheAction};
use maple_core::ctags::{build_tree, BaseTag, Scope, ScopeName, TreeTag};
use maple_core::dumb_jump::{render, should_search, JumpMatch, Lines, Results};
use maple_core::helptags::{helptag_line, merge_helptags, strip_trailing_slash, tags_files};
use maple_core::preview::{
    preview_size_allowed, preview_window, read_first_lines, read_lines_from, read_preview_lines,
    PreviewInfo,
};
use maple_core::source_item::{FilteredItem, MatchTextFor, MatchType, SourceItem};
use maple_core::text::{sort_lines, split_text, text_rank, u64_to_string};

#[test]
fn test_multi_byte_reading() {
    // The file as it is read: bytes that are no UTF-8 show as replacement characters.
    let file = vec![
        "test_ddd".to_string(),
        "test_ddd    //1����ˤ��ϡ�����1".to_string(),
        "test_ddd    //2����ˤ��ϡ�����2".to_string(),
        "test_ddd    //3����ˤ��ϡ�����3".to_string(),
        "test_ddd    //hello".to_string(),
    ];
    let PreviewInfo { lines, .. } = read_preview_lines(&file, 2, 5);
    assert_eq!(
        lines,
        [
            "test_ddd",
            "test_ddd    //1����ˤ��ϡ�����1",
            "test_ddd    //2����ˤ��ϡ�����2",
            "test_ddd    //3����ˤ��ϡ�����3",
            "test_ddd    //hello"
        ]
    );
}

#[test]
fn preview_windows() {
    assert_eq!(preview_window(2, 5), (0, 10, 2));
    assert_eq!(preview_window(5, 5), (0, 10, 5));
    assert_eq!(preview_window(6, 5), (1, 11, 5));
    assert_eq!(preview_window(100, 3), (97, 103, 3));
    assert_eq!(preview_window(0, 0), (0, 0, 0));

    let file: Vec<String> = (0..20).map(|i| format!("l{}", i)).collect();
    let info = read_preview_lines(&file, 10, 2);
    assert_eq!((info.start, info.end, info.highlight_lnum), (8, 12, 2));
    assert_eq!(info.lines, vec!["l8", "l9", "l10", "l11"]);
    let info = read_preview_lines(&file, 19, 3);
    assert_eq!(info.lines, vec!["l16", "l17", "l18", "l19"]);
    let info = read_preview_lines(&file, 50, 3);
    assert!(info.lines.is_empty());

    assert_eq!(read_lines_from(&file, 18, 5), vec!["l18", "l19"]);
    assert_eq!(read_lines_from(&file, 3, 2), vec!["l3", "l4"]);
    assert_eq!(read_lines_from(&file, 3, usize::MAX).len(), 17);
    assert_eq!(read_first_lines(&file, 2), vec!["l0", "l1"]);
    assert_eq!(read_first_lines(&file, 100).len(), 20);

    assert!(preview_size_allowed(32 * 1_048_576));
    assert!(!preview_size_allowed(32 * 1_048_576 + 1));
}

#[test]
fn cache_sizes_and_actions() {
    assert_eq!(readable_size(0), "0B");
    assert_eq!(readable_size(1024), "1024B");
    assert_eq!(readable_size(1025), "1KB");
    assert_eq!(readable_size(1024 * 1024), "1024KB");
    assert_eq!(readable_size(1024 * 1024 + 1), "1MB");
    assert_eq!(readable_size(5 * 1024 * 1024 + 17), "5MB");
    assert_eq!(Cache { list: true, purge: true }.action(), CacheAction::Purge);
    assert_eq!(Cache { list: false, purge: true }.action(), CacheAction::Purge);
    assert_eq!(Cache { list: true, purge: false }.action(), CacheAction::List);
    assert_eq!(Cache { list: false, purge: false }.action(), CacheAction::Nothing);
}

#[test]
fn numbers_and_texts() {
    assert_eq!(u64_to_string(0), "0");
    assert_eq!(u64_to_string(9), "9");
    assert_eq!(u64_to_string(10), "10");
    assert_eq!(u64_to_string(1234567890), "1234567890");
    assert_eq!(u64_to_string(u64::MAX), u64::MAX.to_string());
    assert_eq!(text_rank("a", "b"), 0);
    assert_eq!(text_rank("b", "a"), 2);
    assert_eq!(text_rank("ab", "ab"), 1);
    assert_eq!(text_rank("a", "ab"), 0);
    assert_eq!(text_rank("", ""), 1);
    assert_eq!(text_rank("Z", "a"), 0);
    assert_eq!(text_rank("é", "z"), 2);
    assert_eq!(split_text("a,b,,c", ','), vec!["a", "b", "", "c"]);
    assert_eq!(split_text("", ','), vec![""]);
    assert_eq!(split_text(",", ','), vec!["", ""]);
    assert_eq!(split_text("abc", ','), vec!["abc"]);
    let mut expected = vec!["pear", "apple", "fig", "apple", "Fig"];
    let sorted = sort_lines(expected.iter().map(|s| s.to_string()).collect());
    expected.sort();
    assert_eq!(sorted, expected);
}

#[test]
fn helptags_of_the_runtime_path() {
    assert_eq!(strip_trailing_slash("/usr/share/vim/"), "/usr/share/vim");
    assert_eq!(strip_trailing_slash("/usr/share/vim"), "/usr/share/vim");
    assert_eq!(strip_trailing_slash("/"), "");
    assert_eq!(strip_trailing_slash(""), "");
    assert_eq!(
        tags_files("/doc/tags", "/usr/share/vim/,/home/u/.vim"),
        vec!["/usr/share/vim/doc/tags", "/home/u/.vim/doc/tags"]
    );
    assert_eq!(helptag_line("tag", "file.txt"), format!("{:<60}\t{}", "tag", "file.txt"));
    let long = "x".repeat(70);
    assert_eq!(helptag_line(&long, "f"), format!("{:<60}\t{}", long, "f"));
    assert_eq!(helptag_line("多字节", "f"), format!("{:<60}\t{}", "多字节", "f"));

    let merged = merge_helptags(&vec![
        "b\tf1\t/*b*".to_string(),
        "a\tf2\t/*a*".to_string(),
        "b\tf3\t/*b*".to_string(),
    ]);
    assert_eq!(merged, vec![format!("{:<60}\t{}", "a", "f2"), format!("{:<60}\t{}", "b", "f1")]);
    assert!(merge_helptags(&vec![]).is_empty());
}

fn tag(name: &str, line: usize, scope: Option<&str>) -> BaseTag {
    BaseTag {
        name: name.to_string(),
        line_number: line,
        kind: "function".to_string(),
        access: None,
        signature: Some("()".to_string()),
        scope: scope.map(|s| Scope {
            name: ScopeName(s.to_string()),
            scope_kind: "class".to_string(),
        }),
    }
}

#[test]
fn tags_form_a_forest_of_scopes() {
    let taglines = vec![
        tag("Foo", 1, None),
        tag("bar", 2, Some("Foo")),
        tag("baz", 9, None),
        tag("qux", 5, Some("Foo")),
        tag("lost", 7, Some("Other")),
    ];
    let forest = build_tree(&taglines);
    assert_eq!(forest.root_tags.len(), 2);
    let foo = &forest.root_tags[0];
    assert_eq!(foo.inner.name, "Foo");
    assert_eq!(foo.depth, 1);
    assert!(foo.parent.is_none());
    assert_eq!(foo.children.len(), 2);
    assert_eq!(foo.children[0].inner.name, "bar");
    assert_eq!(foo.children[0].depth, 2);
    assert_eq!(foo.children[0].parent.as_ref().unwrap().name, "bar");
    assert_eq!(foo.children[1].inner.name, "qux");
    assert!(forest.root_tags[1].children.is_empty());
    assert_eq!(forest.listing(), vec!["\tFoo:1", "\t\tbar:2", "\t\tqux:5", "\tbaz:9"]);

    let single = TreeTag::from_base(tag("solo", 12, None));
    assert_eq!(single.heading(), "\tsolo:12");
    assert!(tag("m", 1, Some("Foo")).belongs_to("Foo"));
    assert!(!tag("m", 1, Some("Foo")).belongs_to("Fo"));
    assert!(!tag("m", 1, None).belongs_to(""));
    assert_eq!(tag("m", 1, Some("Foo")).duplicate().scope.unwrap().name.0, "Foo");
}

#[test]
fn jump_results_are_capped() {
    assert!(!should_search(""));
    assert!(should_search("x"));
    let lines: Vec<String> = (0..250).map(|i| format!("line {}", i)).collect();
    let indices: Vec<Vec<usize>> = (0..250).map(|i| vec![i]).collect();
    let all = Lines::new(lines, indices);
    assert_eq!(all.total(), 250);
    let top = all.top();
    assert_eq!(top.total, 250);
    assert_eq!(top.lines.len(), 200);
    assert_eq!(top.indices.len(), 200);
    assert_eq!(top.lines[199], "line 199");
    assert_eq!(top.indices[199], vec![199]);
    let few = Lines::new(vec!["a".to_string()], vec![vec![0], vec![1]]).top();
    assert_eq!((few.lines.len(), few.indices.len(), few.total), (1, 2, 1));
}

#[test]
fn match_types_and_items() {
    assert_eq!(MatchType::parse("full"), MatchType::Full);
    assert_eq!(MatchType::parse("TagName"), MatchType::TagName);
    assert_eq!(MatchType::parse("FILENAME"), MatchType::FileName);
    assert_eq!(MatchType::parse("IgnoreFilePath"), MatchType::IgnoreFilePath);
    assert_eq!(MatchType::parse("something"), MatchType::Full);
    assert_eq!(MatchType::parse(""), MatchType::Full);
    assert_eq!(MatchType::parse("filename "), MatchType::Full);

    let plain = SourceItem::from_raw("src/lib.rs:3:fn main".to_string());
    assert_eq!(plain.display_text(), "src/lib.rs:3:fn main");
    assert_eq!(plain.match_text(), "src/lib.rs:3:fn main");
    assert_eq!(
        plain.match_text_for(&MatchType::Full, None),
        Some(("src/lib.rs:3:fn main".to_string(), 0))
    );
    assert_eq!(
        plain.match_text_for(&MatchType::IgnoreFilePath, Some(("fn main".to_string(), 13))),
        Some(("fn main".to_string(), 13))
    );
    assert_eq!(
        plain.match_text_for(&MatchType::TagName, Some(("main".to_string(), 16))),
        Some(("main".to_string(), 0))
    );
    assert_eq!(plain.match_text_for(&MatchType::FileName, None), None);

    let rich = SourceItem::new(
        "raw".to_string(),
        Some(("match".to_string(), 4)),
        Some("display".to_string()),
    );
    assert_eq!(rich.display_text(), "display");
    assert_eq!(rich.match_text(), "match");
    assert_eq!(rich.text_for(&MatchType::FileName, None), Some(("match".to_string(), 4)));

    let mut filtered = FilteredItem::new(rich, 7i64, vec![1, 4]);
    assert_eq!(filtered.display_text_before_truncated(), "display");
    assert_eq!(filtered.display_text(), "display");
    filtered.display_text = Some("dis..".to_string());
    assert_eq!(filtered.display_text(), "dis..");
    assert_eq!(filtered.display_text_before_truncated(), "display");
    assert_eq!(filtered.shifted_indices(4), vec![5, 8]);
    let (item, score, indices) = filtered.deconstruct();
    assert_eq!(item.raw, "raw");
    assert_eq!(score, 7);
    assert_eq!(indices, vec![1, 4]);
}

fn found(path: &str, line_number: Option<u64>, display: &str) -> JumpMatch {
    JumpMatch {
        path: path.to_string(),
        line_number,
        display: display.to_string(),
        indices: vec![0, 1],
    }
}

#[test]
fn jump_results_are_grouped_by_file() {
    let matches = vec![
        found("src/a.rs", Some(3), "a first"),
        found("src/b.rs", Some(7), "b first"),
        found("src/a.rs", None, "a second"),
    ];
    let grouped = match render(&matches, "refs") {
        Results::DisplayLines(grouped) => grouped,
        Results::Lines(_) => panic!("the results come in groups"),
    };
    let shown: Vec<&str> = grouped.lines.iter().map(|line| line.display.as_str()).collect();
    assert_eq!(
        shown,
        vec![
            "3 refs in 2 files",
            "src/a.rs [2]",
            "a first",
            "a second",
            "",
            "src/b.rs [1]",
            "b first",
            "",
        ]
    );
    assert_eq!(grouped.lines[0].indices, None);
    assert_eq!(grouped.lines[2].indices, Some(vec![0, 1]));
    assert_eq!(grouped.locations.len(), 3);
    assert_eq!(grouped.locations[&2].path, "src/a.rs");
    assert_eq!(grouped.locations[&2].line_number, 3);
    assert_eq!(grouped.locations[&3].path, "src/a.rs");
    assert_eq!(grouped.locations[&3].line_number, 0);
    assert_eq!(grouped.locations[&4].path, "src/b.rs");
    assert_eq!(grouped.locations[&4].line_number, 7);

    match render(&vec![], "refs") {
        Results::DisplayLines(grouped) => {
            assert!(grouped.lines.is_empty());
            assert!(grouped.locations.is_empty());
        }
        Results::Lines(_) => panic!("the results come in groups"),
    }
}
