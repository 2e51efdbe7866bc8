use zfirot::prose::parse_prose;

#[test]
fn parses_parent_and_blocked_by_references() {
    let cases: Vec<(&str, &str, Option<u64>, Vec<u64>)> = vec![
        (
            "cross-repo parent and a bulleted blocked-by list",
            "## What to build\n\nDo the thing.\n\n\
             ## Parent\n\nfunkode-io/zfirot#1\n\n\
             ## Blocked by\n\n- funkode-io/zfirot#4\n- funkode-io/zfirot#5\n",
            Some(1),
            vec![4, 5],
        ),
        ("bare hash references", "## Parent\n#7\n## Blocked by\n#8\n", Some(7), vec![8]),
        (
            "issue URL references",
            "## Parent\n\nhttps://github.com/funkode-io/zfirot/issues/3\n",
            Some(3),
            vec![],
        ),
        (
            "case-insensitive headings",
            "## PARENT\n\nfunkode-io/zfirot#2\n\n## blocked BY\n\n#9\n",
            Some(2),
            vec![9],
        ),
        ("missing sections yield nothing", "## What to build\n\nNo relationships here.\n", None, vec![]),
        ("empty body", "", None, vec![]),
        ("parent heading with no reference", "## Parent\n\n_None yet._\n", None, vec![]),
        (
            "a later heading ends the section",
            "## Parent\n\nfunkode-io/zfirot#1\n\n## Acceptance criteria\n\n- close #99\n",
            Some(1),
            vec![],
        ),
        (
            "first reference wins for the parent",
            "## Parent\n\nfunkode-io/zfirot#1 (supersedes #2)\n",
            Some(1),
            vec![],
        ),
        (
            "duplicate blockers are de-duplicated in order",
            "## Blocked by\n\n- #4\n- #5\n- #4\n",
            None,
            vec![4, 5],
        ),
    ];

    for (name, body, parent, blocked_by) in cases {
        let links = parse_prose(body);
        assert_eq!(links.parent, parent, "parent: {}", name);
        assert_eq!(links.blocked_by, blocked_by, "blocked_by: {}", name);
    }
}

#[test]
fn prose_reads_crlf_lines_and_url_and_hash_forms_together() {
    let links = parse_prose(
        "## Blocked by\r\n- #12 and https://github.com/o/r/issues/13\r\n- #12\r\n",
    );
    assert_eq!(links.blocked_by, vec![12, 13]);
    assert_eq!(links.parent, None);
}

#[test]
fn references_are_taken_in_text_order_across_both_forms() {
    let links = parse_prose("# parent\na/issues/3#2");
    assert_eq!(links.parent, Some(3));
    let links = parse_prose("## Blocked by\n- https://github.com/o/r/issues/5 after #4\n- #6 before o/r/issues/7\n");
    assert_eq!(links.blocked_by, vec![5, 4, 6, 7]);
}
