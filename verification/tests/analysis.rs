use follow_audit::analysis::{analyze, analyze_followers};
use follow_audit::error::{AnalysisError, InputBlob};

#[test]
fn test_analyze_followers() {
    let followers_json = r#"[
            {
                "title": "",
                "media_list_data": [],
                "string_list_data": [
                    {
                        "href": "https://www.instagram.com/mutual_user",
                        "value": "mutual_user",
                        "timestamp": 1234567890
                    }
                ]
            }
        ]"#;

    let following_json = r#"{
            "relationships_following": [
                {
                    "title": "",
                    "media_list_data": [],
                    "string_list_data": [
                        {
                            "href": "https://www.instagram.com/mutual_user",
                            "value": "mutual_user",
                            "timestamp": 1234567890
                        }
                    ]
                },
                {
                    "title": "",
                    "media_list_data": [],
                    "string_list_data": [
                        {
                            "href": "https://www.instagram.com/non_mutual_user",
                            "value": "non_mutual_user",
                            "timestamp": 1234567890
                        }
                    ]
                }
            ]
        }"#;

    let result = analyze_followers(Some(followers_json), Some(following_json)).unwrap();

    assert_eq!(result, vec!["non_mutual_user"]);
}

fn collection(names: &[&str]) -> String {
    let entries: Vec<String> = names
        .iter()
        .map(|name| {
            format!(
                r#"{{"title": "", "string_list_data": [{{"href": "", "value": "{}", "timestamp": 1}}]}}"#,
                name
            )
        })
        .collect();
    format!("[{}]", entries.join(","))
}

#[test]
fn analysis_counts_the_distinct_names_of_each_side() {
    let followers = collection(&["ann", "bob", "ann"]);
    let following = collection(&["cid", "bob", "dee", "cid", "ann", "eve"]);
    let analysis = analyze(Some(&followers), Some(&following)).unwrap();
    assert_eq!(analysis.non_mutual_follows, vec!["cid", "dee", "eve"]);
    assert_eq!(analysis.follower_count, 2);
    assert_eq!(analysis.following_count, 5);
}

#[test]
fn all_mutual_gives_an_empty_list() {
    let side = collection(&["ann", "bob"]);
    assert_eq!(analyze_followers(Some(&side), Some(&side)).unwrap(), Vec::<String>::new());
}

#[test]
fn an_input_that_was_not_obtained_is_unreadable() {
    let good = collection(&["ann"]);
    assert_eq!(
        analyze_followers(None, Some(&good)).unwrap_err(),
        AnalysisError::InputUnreadable { blob: InputBlob::Followers }
    );
    assert_eq!(
        analyze_followers(Some(&good), None).unwrap_err(),
        AnalysisError::InputUnreadable { blob: InputBlob::Following }
    );
    assert_eq!(
        analyze_followers(None, None).unwrap_err(),
        AnalysisError::InputUnreadable { blob: InputBlob::Followers }
    );
}

#[test]
fn unreadable_is_reported_before_malformed() {
    assert_eq!(
        analyze_followers(Some("{"), None).unwrap_err(),
        AnalysisError::InputUnreadable { blob: InputBlob::Following }
    );
}

#[test]
fn malformed_content_names_the_failing_input() {
    let good = collection(&["ann"]);
    let error = analyze_followers(Some("[{]"), Some(&good)).unwrap_err();
    assert_eq!(
        error,
        AnalysisError::MalformedInput {
            blob: InputBlob::Followers,
            detail: "key must be a string at line 1 column 3".to_string(),
        }
    );
    let error = analyze_followers(Some(&good), Some("")).unwrap_err();
    assert_eq!(
        error,
        AnalysisError::MalformedInput {
            blob: InputBlob::Following,
            detail: "EOF while parsing a value at line 1 column 0".to_string(),
        }
    );
    let error = analyze(Some("nope"), Some("nope")).unwrap_err();
    assert_eq!(error.blob(), InputBlob::Followers);
}

#[test]
fn unexpected_shape_names_the_failing_input() {
    let good = collection(&["ann"]);
    assert_eq!(
        analyze_followers(Some(r#"{"other": []}"#), Some(&good)).unwrap_err(),
        AnalysisError::UnexpectedShape { blob: InputBlob::Followers }
    );
    assert_eq!(
        analyze_followers(Some(&good), Some(r#"{"other": []}"#)).unwrap_err(),
        AnalysisError::UnexpectedShape { blob: InputBlob::Following }
    );
}

#[test]
fn followers_are_read_before_following() {
    assert_eq!(
        analyze_followers(Some("{}"), Some("[")).unwrap_err(),
        AnalysisError::UnexpectedShape { blob: InputBlob::Followers }
    );
}
