use maple_core::printer::legacy::truncate_line_impl;
use maple_core::printer::truncation::{
    process_top_items, shift_left, trim_left, truncate_grep_lines, truncate_long_matched_lines,
    truncate_text,
};
use maple_core::printer::width::{
    char_display_width, display_width_with_limit, overflow, str_display_width, trim_right,
    utf8_str_slice, width_from,
};
use maple_core::source_item::SourceItem;

/// The positions of the characters of `query` in `line`, each found behind
/// the one before it, whatever the case of the letters.
fn find_indices(line: &str, query: &str) -> Vec<usize> {
    let mut indices = Vec::new();
    let mut wanted = query.chars().peekable();
    for (idx, ch) in line.chars().enumerate() {
        match wanted.peek() {
            Some(q) if q.to_lowercase().eq(ch.to_lowercase()) => {
                indices.push(idx);
                wanted.next();
            }
            _ => {}
        }
    }
    indices
}

fn wrap_matches(line: &str, indices: &[usize]) -> String {
    let mut ret = String::new();
    let mut peekable = indices.iter().peekable();
    for (idx, ch) in line.chars().enumerate() {
        let next_id = **peekable.peek().unwrap_or(&&line.len());
        if next_id == idx {
            ret.push_str(format!("~{}~", ch).as_str());
            peekable.next();
        } else {
            ret.push(ch);
        }
    }

    ret
}

fn run_test(lines: Vec<&str>, query: &str, skipped: Option<usize>, winwidth: usize) {
    let ranked: Vec<(SourceItem, i64, Vec<usize>)> = lines
        .into_iter()
        .map(|line| (SourceItem::from_raw(line.to_string()), 0i64, find_indices(line, query)))
        .collect();
    let count = ranked.len();

    let (truncated_lines, truncated_map) = truncate_long_matched_lines(ranked, winwidth, skipped);
    assert_eq!(truncated_lines.len(), count);
    for (idx, (truncated_line, _score, truncated_indices)) in truncated_lines.iter().enumerate() {
        let highlighted = truncated_indices
            .iter()
            .filter_map(|i| truncated_line.chars().nth(*i))
            .collect::<String>();
        println!("\n   winwidth: {}", "─".repeat(winwidth));
        println!("    display: {}", wrap_matches(&truncated_line, &truncated_indices));
        println!("   raw_line: {}", truncated_map.get(&(idx + 1)).unwrap());
        println!("highlighted: {}", highlighted);
    }
}

#[test]
fn case1() {
    let source = vec![
        "directories/are/nested/a/lot/then/the/matched/items/will/be/invisible/file.scss",
        "directories/are/nested/a/lot/then/the/matched/items/will/be/invisible/another-file.scss",
        "directories/are/nested/a/lot/then/the/matched/items/will/be/invisible/file.js",
        "directories/are/nested/a/lot/then/the/matched/items/will/be/invisible/another-file.js",
    ];
    let query = "files";
    run_test(source, query, None, 50usize);
}

#[test]
fn case2() {
    let source = vec![
        "fuzzy-filter/target/debug/deps/librustversion-b273394e6c9c64f6.dylib.dSYM/Contents/Resources/DWARF/librustversion-b273394e6c9c64f6.dylib",
        "fuzzy-filter/target/debug/deps/librustversion-15764ff2535f190d.dylib.dSYM/Contents/Resources/DWARF/librustversion-15764ff2535f190d.dylib",
        "target/debug/deps/libstructopt_derive-3921fbf02d8d2ffe.dylib.dSYM/Contents/Resources/DWARF/libstructopt_derive-3921fbf02d8d2ffe.dylib",
        "target/debug/deps/libstructopt_derive-3921fbf02d8d2ffe.dylib.dSYM/Contents/Resources/DWARF/libstructopt_derive-3921fbf02d8d2ffe.dylib",
    ];
    let query = "srlisresource";
    run_test(source, query, None, 50usize);
}

#[test]
fn case3() {
    let source = vec![
        "/Users/xuliucheng/Library/Caches/Homebrew/universal-ctags--git/Units/afl-fuzz.r/github-issue-625-r.d/input.r",
    ];
    let query = "srcggithub";
    run_test(source, query, None, 50usize);
}

#[test]
fn case4() {
    let source =
        vec!["        // Wait until propagation delay period after block we plan to mine on"];
    let query = "bmine";
    run_test(source, query, None, 58usize);
}

#[test]
fn test_grep_line() {
    let source = vec![" bin/node/cli/src/command.rs:127:1:                          let PartialComponents { client, task_manager, ..}"];
    let query = "PartialComponents";
    run_test(source, query, Some(2), 64);
}

#[test]
fn starting_point_should_work() {
    let source = vec![
        " crates/fuzzy_filter/target/debug/deps/librustversion-15764ff2535f190d.dylib.dSYM/Contents/Resources/DWARF/librustversion-15764ff2535f190d.dylib",
        " crates/fuzzy_filter/target/debug/deps/libstructopt_derive-5cce984f248086cc.dylib.dSYM/Contents/Resources/DWARF/libstructopt_derive-5cce984f248086cc.dylib",
    ];
    let query = "srlisrlisrsr";
    run_test(source, query, Some(2), 50usize);

    let source = vec![
        "crates/fuzzy_filter/target/debug/deps/librustversion-15764ff2535f190d.dylib.dSYM/Contents/Resources/DWARF/librustversion-15764ff2535f190d.dylib",
        "crates/fuzzy_filter/target/debug/deps/libstructopt_derive-5cce984f248086cc.dylib.dSYM/Contents/Resources/DWARF/libstructopt_derive-5cce984f248086cc.dylib",
    ];
    let query = "srlisrlisrsr";
    run_test(source, query, None, 50usize);
}

#[test]
fn test_print_multibyte_string_slice() {
    let multibyte_str = "README.md:23:1:Gourinath Banda. “Scalable Real-Time Kernel for Small Embedded Systems”. En- glish. PhD thesis. Denmark: University of Southern Denmark, June 2003. URL: http://citeseerx.ist.psu.edu/viewdoc/download;jsessionid=84D11348847CDC13691DFAED09883FCB?doi=10.1.1.118.1909&rep=rep1&type=pdf.";
    let start = 33;
    let end = 300;
    let expected = "Scalable Real-Time Kernel for Small Embedded Systems”. En- glish. PhD thesis. Denmark: University of Southern Denmark, June 2003. URL: http://citeseerx.ist.psu.edu/viewdoc/download;jsessionid=84D11348847CDC13691DFAED09883FCB?doi=10.1.1.118.1909&rep=rep1&type=pdf.";
    assert_eq!(expected, utf8_str_slice(multibyte_str, start, end));
}

#[test]
fn test_trim_left() {
    let text = "helloworld";
    let max_width = 5;
    println!("trim_left: {:?}", trim_left(text, max_width));
    println!("trim_right: {:?}", trim_right(text, max_width));

    let text = "directories/are/nested/a/lot/then/the/matched/items/will/be/invisible/file.scss";
    let winwidth = 20;
    let indices = vec![2, 3, 30];
    println!("truncate_text: {:?}", truncate_text(winwidth, text, &indices, 0));
    let source = vec![
        "directories/are/nested/a/lot/then/the/matched/items/will/be/invisible/file.scss",
        "directories/are/nested/a/lot/then/the/matched/items/will/be/invisible/another-file.scss",
        "directories/are/nested/a/lot/then/the/matched/items/will/be/invisible/file.js",
        "directories/are/nested/a/lot/then/the/matched/items/will/be/invisible/another-file.js",
    ];
    let query = "files";
    run_test(source, query, None, 50usize);
}

#[test]
fn widths_of_characters_and_texts() {
    assert_eq!(char_display_width('a'), 1);
    assert_eq!(char_display_width('\t'), 4);
    assert_eq!(char_display_width('\r'), 1);
    assert_eq!(char_display_width('\n'), 1);
    // A control character has no width of its own and counts as one column.
    assert_eq!(char_display_width('\u{7}'), 1);
    assert_eq!(char_display_width('你'), 2);
    // The wrapper's answer is used as it is: a character is not its own width.
    assert_eq!(width_from('x', Some(3)), 3);
    assert_eq!(width_from('x', None), 1);
    assert_eq!(width_from('\t', Some(0)), 4);
    assert_eq!(width_from('\n', None), 1);

    assert_eq!(str_display_width(""), 0);
    assert_eq!(str_display_width("a\tb"), 6);
    assert_eq!(str_display_width("你好"), 4);
    assert_eq!(str_display_width("\r\n"), 2);

    assert_eq!(display_width_with_limit("abcdef", 3), 4);
    assert_eq!(display_width_with_limit("abc", 3), 3);
    assert_eq!(display_width_with_limit("你好世界", 3), 4);
    assert!(!overflow("abc", 3));
    assert!(overflow("abcd", 3));
    assert!(overflow("你好", 3));
}

#[test]
fn slices_count_characters() {
    assert_eq!(utf8_str_slice("hello", 1, 3), "el");
    assert_eq!(utf8_str_slice("hello", 3, 1), "");
    assert_eq!(utf8_str_slice("hello", 2, 100), "llo");
    assert_eq!(utf8_str_slice("hello", 7, 100), "");
    assert_eq!(utf8_str_slice("a你b好c", 1, 4), "你b好");
}

#[test]
fn trims_by_width() {
    assert_eq!(trim_right("helloworld", 5), "hello");
    assert_eq!(trim_right("hello", 5), "hello");
    assert_eq!(trim_right("你好世界", 5), "你好");
    assert_eq!(trim_right("abc", 0), "");
    assert_eq!(trim_left("helloworld", 5), ("world".to_string(), 5));
    assert_eq!(trim_left("hello", 10), ("hello".to_string(), 0));
    // The cut is counted in bytes.
    assert_eq!(trim_left("你好世界ab", 6), ("世界ab".to_string(), 6));
    // Nothing is cut where no cut leaves less than the width asked for.
    assert_eq!(trim_left("你好世界ab", 3), ("你好世界ab".to_string(), 0));
    assert_eq!(shift_left(&vec![15, 16, 40], 10, 10), vec![7, 8]);
    assert_eq!(shift_left(&vec![3, 15], 10, 10), vec![5, 7]);
}

#[test]
fn truncate_text_keeps_the_matches_visible() {
    // Fits: nothing to do.
    assert_eq!(truncate_text(10, "abcdefghij", &vec![1, 2], 0), None);
    // No match: nothing to do.
    assert_eq!(truncate_text(8, "abcdefghij", &vec![], 0), None);
    // Too narrow for the mark.
    assert_eq!(truncate_text(1, "abcdefghij", &vec![1], 0), None);
    // The matches are in front: the end is cut.
    assert_eq!(
        truncate_text(8, "abcdefghij", &vec![1, 2], 0),
        Some(("abcdef..".to_string(), vec![1, 2]))
    );
    // The prefix takes room as well.
    assert_eq!(
        truncate_text(10, "abcdefghij", &vec![1, 2], 2),
        Some(("abcdef..".to_string(), vec![1, 2]))
    );
    // The matches are behind: both ends are cut and the indices move.
    assert_eq!(
        truncate_text(10, "abcdefghijklmnopqrst", &vec![15, 16], 0),
        Some(("..klmnop..".to_string(), vec![7, 8]))
    );
    // Wide characters count double.
    assert_eq!(
        truncate_text(10, "你好世界你好世界", &vec![0], 0),
        Some(("你好世界..".to_string(), vec![0]))
    );
}

#[test]
fn legacy_truncation_by_bytes() {
    let line = "0123456789abcdefghijklmnopqrstuvwxyz";
    assert_eq!(
        truncate_line_impl(10, line, &vec![30, 31], None),
        Some(("..rstuvwx.".to_string(), vec![5, 6]))
    );
    // The last match is inside the window.
    assert_eq!(truncate_line_impl(40, line, &vec![30, 31], None), None);
    assert_eq!(truncate_line_impl(10, line, &vec![], None), None);
    // A match behind the end of the line.
    assert_eq!(truncate_line_impl(10, line, &vec![30, 50], None), None);
    // The skipped characters stay in front.
    let grep = "  0123456789abcdefghijklmnopqrstuvwxyz";
    let cut = truncate_line_impl(20, grep, &vec![32, 33], Some(2)).unwrap();
    assert!(cut.0.starts_with("  .."));
    assert!(cut.0.len() <= 20);
}

#[test]
fn batches_remember_what_was_cut() {
    let lines = vec![
        (SourceItem::from_raw("abcdefghijkl".to_string()), 5i64, vec![1, 2]),
        (SourceItem::from_raw("short".to_string()), 3i64, vec![0]),
        (
            SourceItem::new(
                "raw line".to_string(),
                None,
                Some("abcdefghijklmnopqrst".to_string()),
            ),
            1i64,
            vec![15, 16],
        ),
    ];
    let (fitted, map) = truncate_long_matched_lines(lines, 14, None);
    assert_eq!(
        fitted,
        vec![
            ("abcdefgh..".to_string(), 5, vec![1, 2]),
            ("short".to_string(), 3, vec![0]),
            ("..klmnop..".to_string(), 1, vec![7, 8]),
        ]
    );
    assert_eq!(map.len(), 2);
    assert_eq!(map[&1], "abcdefghijkl");
    assert_eq!(map[&3], "abcdefghijklmnopqrst");

    let (lines, indices, map) = truncate_grep_lines(
        vec![
            "0123456789abcdefghijklmnopqrstuvwxyz".to_string(),
            "tiny".to_string(),
            "left over".to_string(),
        ],
        vec![vec![30, 31], vec![1]],
        14,
        None,
    );
    assert_eq!(lines, vec!["..rstuvwx.", "tiny"]);
    assert_eq!(indices, vec![vec![5, 6], vec![1]]);
    assert_eq!(map.len(), 1);
    assert_eq!(map[&1], "0123456789abcdefghijklmnopqrstuvwxyz");
}

#[test]
fn top_items_get_their_icons() {
    let items = || {
        vec![
            (SourceItem::from_raw("abcdefghijkl".to_string()), 5i64, vec![1, 2]),
            (SourceItem::from_raw("short".to_string()), 3i64, vec![0]),
        ]
    };
    let (lines, indices, map) = process_top_items(items(), 14, None);
    assert_eq!(lines, vec!["abcdefgh..", "short"]);
    assert_eq!(indices, vec![vec![1, 2], vec![0]]);
    assert_eq!(map.len(), 1);

    let icons = Some(vec!["\u{f15c}".to_string(), "\u{f016}".to_string()]);
    let (lines, indices, map) = process_top_items(items(), 14, icons);
    assert_eq!(lines, vec!["\u{f15c} abcdefgh..", "\u{f016} short"]);
    assert_eq!(indices, vec![vec![5, 6], vec![4]]);
    assert_eq!(map[&1], "abcdefghijkl");
}
