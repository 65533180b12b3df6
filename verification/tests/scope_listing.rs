//! The scope-listing parser on the documented inputs.

use aichat::scopes::parse_info_file;

#[test]
fn test_parse_info_file() {
    let content = r#"\
API One, v1
Scopes
https://www.googleapis.com/auth/scope1	Description for scope 1
https://www.googleapis.com/auth/scope2	Description for scope 2
API Two, v2
Scopes
https://www.googleapis.com/auth/scope3	Description for scope 3
"#;
    let api_groups = parse_info_file(content);

    assert_eq!(api_groups.len(), 2);

    assert_eq!(api_groups[0].name, "API One, v1");
    assert_eq!(api_groups[0].scopes.len(), 2);
    assert_eq!(api_groups[0].scopes[0].url, "https://www.googleapis.com/auth/scope1");
    assert_eq!(api_groups[0].scopes[0].description, "Description for scope 1");
    assert_eq!(api_groups[0].scopes[1].url, "https://www.googleapis.com/auth/scope2");
    assert_eq!(api_groups[0].scopes[1].description, "Description for scope 2");

    assert_eq!(api_groups[1].name, "API Two, v2");
    assert_eq!(api_groups[1].scopes.len(), 1);
    assert_eq!(api_groups[1].scopes[0].url, "https://www.googleapis.com/auth/scope3");
    assert_eq!(api_groups[1].scopes[0].description, "Description for scope 3");
}

#[test]
fn test_parse_empty_content() {
    let content = "";
    let api_groups = parse_info_file(content);
    assert!(api_groups.is_empty());
}

#[test]
fn test_parse_content_without_scopes() {
    let content = r#"\
API One, v1
API Two, v2
"#;
    let api_groups = parse_info_file(content);
    assert_eq!(api_groups.len(), 2);
    assert!(api_groups[0].scopes.is_empty());
    assert!(api_groups[1].scopes.is_empty());
}

#[test]
fn test_parse_content_with_only_header_and_scopes_line() {
    let content = r#"\
API One, v1
Scopes
"#;
    let api_groups = parse_info_file(content);
    assert_eq!(api_groups.len(), 1);
    assert!(api_groups[0].scopes.is_empty());
}

#[test]
fn test_required_scopes_and_access_check() {
    let req = aichat::scopes::AdminAccess::required_scopes();
    assert_eq!(req.len(), 2);
    assert_eq!(req[0], "https://www.googleapis.com/auth/cloud-platform");
    assert_eq!(req[1], "https://www.googleapis.com/auth/admin.directory.user");

    let granted = vec![
        "https://www.googleapis.com/auth/admin.directory.user".to_string(),
        "https://www.googleapis.com/auth/cloud-platform".to_string(),
        "https://www.googleapis.com/auth/userinfo.email".to_string(),
    ];
    assert!(aichat::scopes::AdminAccess::check_access(&granted));

    let partial = vec!["https://www.googleapis.com/auth/cloud-platform".to_string()];
    assert!(!aichat::scopes::AdminAccess::check_access(&partial));
}
