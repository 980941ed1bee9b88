use ddb::remove_sql_comments;

#[test]
fn check_remove_sql_comments() {
    let sql = r#"
SELECT 'this -- is not a comment'
FROM users -- remove this
WHERE id = 10
/* block
comment */
AND name = '/* not a comment */'
        "#;

    let output = r#"
SELECT 'this -- is not a comment'
FROM users 
WHERE id = 10

AND name = '/* not a comment */'
        "#;

    let new_sql = remove_sql_comments(sql);

    assert_eq!(new_sql, output)
}

#[test]
fn stripping_twice_changes_nothing() {
    let sql = "SELECT a -- note\nFROM t /* x */ WHERE b = '--keep' /* y */";
    let once = remove_sql_comments(sql);
    assert_eq!(once, "SELECT a \nFROM t  WHERE b = '--keep' ");
    assert_eq!(remove_sql_comments(&once), once);
}

#[test]
fn literal_with_markers_is_kept() {
    let sql = "x = '/* a -- b */' -- tail";
    assert_eq!(remove_sql_comments(sql), "x = '/* a -- b */' ");
}

#[test]
fn block_removal_can_join_a_new_marker() {
    // removing the block comment joins the two dashes
    let once = remove_sql_comments("a -/**/- b");
    assert_eq!(once, "a -- b");
    assert_eq!(remove_sql_comments(&once), "a ");
}

#[test]
fn unterminated_block_drops_the_rest() {
    assert_eq!(remove_sql_comments("a /* b"), "a ");
    assert_eq!(remove_sql_comments(""), "");
}
