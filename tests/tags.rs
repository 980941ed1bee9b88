use ddb::extract_sql_params;

#[test]
fn check_extract_sql_params() {
    let sql = "
            SELECT *
            FROM users
            WHERE id = @user_id
            AND status = @status
            AND owner = @user_id
        ";

    let params = extract_sql_params(sql);

    assert!(params.contains(&String::from("@user_id")));
    assert!(params.contains(&String::from("@status")));
}

#[test]
fn tags_in_first_seen_order_without_repeats() {
    let sql = "SELECT * FROM t WHERE a = @_user_id AND b = @status OR c = @_user_id";
    assert_eq!(extract_sql_params(sql), vec!["@_user_id".to_string(), "@status".to_string()]);
}

#[test]
fn tag_names_cannot_start_with_a_digit() {
    assert_eq!(extract_sql_params("a = @1x AND b = @x1 AND c = @"), vec!["@x1".to_string()]);
    assert!(extract_sql_params("").is_empty());
}

#[test]
fn tags_inside_comments_are_not_extracted() {
    assert!(extract_sql_params("--@x").is_empty());
    let sql = "SELECT @_a /* @_b */ FROM t -- @_c\nWHERE d = '@_e'";
    assert_eq!(extract_sql_params(sql), vec!["@_a".to_string(), "@_e".to_string()]);
}
