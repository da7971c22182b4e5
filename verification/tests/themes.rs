use christina::orchestrator::SubTheme;
use christina::themes::aggregate_sub_themes;

fn sub(title: &str, description: &str, file_count: usize, scope: &str) -> SubTheme {
    SubTheme {
        title: title.to_string(),
        description: description.to_string(),
        file_count,
        scope: scope.to_string(),
    }
}

#[test]
fn aggregate_sub_themes_merges_by_scope() {
    let sub_themes = vec![
        sub("Auth feature 1", "Added login", 2, "auth"),
        sub("Auth feature 2", "Added logout", 3, "auth"),
        sub("API feature", "Added endpoints", 1, "api"),
    ];

    let themes = aggregate_sub_themes(&sub_themes);

    assert_eq!(themes.len(), 2);

    let auth_theme = themes.iter().find(|t| t.scope == "auth").expect("auth theme present");
    assert_eq!(auth_theme.file_count, 5);

    let api_theme = themes.iter().find(|t| t.scope == "api").expect("api theme present");
    assert_eq!(api_theme.file_count, 1);
}

#[test]
fn aggregate_sub_themes_limits_to_top_three() {
    let sub_themes = vec![
        sub("Feature 1", "Desc 1", 10, "scope1"),
        sub("Feature 2", "Desc 2", 8, "scope2"),
        sub("Feature 3", "Desc 3", 6, "scope3"),
        sub("Feature 4", "Desc 4", 4, "scope4"),
        sub("Feature 5", "Desc 5", 2, "scope5"),
    ];

    let themes = aggregate_sub_themes(&sub_themes);

    assert_eq!(themes.len(), 3);
    assert_eq!(themes[0].file_count, 10);
    assert_eq!(themes[1].file_count, 8);
    assert_eq!(themes[2].file_count, 6);
}

#[test]
fn aggregate_sub_themes_joins_descriptions_and_picks_frequent_title() {
    let sub_themes = vec![
        sub("Login", "a", 1, "auth"),
        sub("Session", "b", 1, "auth"),
        sub("Session", "c", 1, "auth"),
        sub("Docs", "d", 9, "docs"),
    ];
    let themes = aggregate_sub_themes(&sub_themes);
    assert_eq!(themes.len(), 2);
    assert_eq!(themes[0].scope, "docs");
    assert_eq!(themes[1].title, "Session");
    assert_eq!(themes[1].description, "a; b; c");
    assert_eq!(themes[1].file_count, 3);
}

#[test]
fn aggregate_sub_themes_ties_keep_scope_order() {
    let sub_themes = vec![sub("A", "x", 2, "one"), sub("B", "y", 2, "two"), sub("C", "z", 5, "three")];
    let themes = aggregate_sub_themes(&sub_themes);
    let scopes: Vec<&str> = themes.iter().map(|t| t.scope.as_str()).collect();
    assert_eq!(scopes, vec!["three", "one", "two"]);
    assert!(aggregate_sub_themes(&vec![]).is_empty());
}
