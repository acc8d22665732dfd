use fj_ex::html::get_csrf_from_login_html;

#[test]
fn csrf_token_comes_from_the_form_field() {
    let html = r#"<form><input type="hidden" name="_csrf" value="tok-123"><input name="user_name"></form>"#;
    assert_eq!(get_csrf_from_login_html(html), Some("tok-123".to_string()));
}

#[test]
fn csrf_token_falls_back_to_the_meta_tag() {
    let html = r#"<head><meta name="_csrf" content="meta-tok"></head><body>é</body>"#;
    assert_eq!(get_csrf_from_login_html(html), Some("meta-tok".to_string()));
}

#[test]
fn csrf_form_field_wins_over_meta_tag() {
    let html = r#"<meta name="_csrf" content="m"><input name="_csrf" value="f">"#;
    assert_eq!(get_csrf_from_login_html(html), Some("f".to_string()));
}

#[test]
fn csrf_missing_empty_or_unterminated_gives_none() {
    assert_eq!(get_csrf_from_login_html("<p>no token</p>"), None);
    assert_eq!(get_csrf_from_login_html(r#"<input name="_csrf" value="">"#), None);
    assert_eq!(get_csrf_from_login_html(r#"<input name="_csrf" value="abc"#), None);
    assert_eq!(
        get_csrf_from_login_html(r#"<input name="_csrf" value=""><meta name="_csrf" content="x">"#),
        Some("x".to_string())
    );
}
