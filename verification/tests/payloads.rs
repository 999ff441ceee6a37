use rust_nps::payloads::{
    FieldIssue, IndexQuery, InvalidSegment, NpsCreatePayload, NpsDismissPayload,
};

fn create(segment: &str, score: i32) -> NpsCreatePayload {
    NpsCreatePayload {
        user: [1; 12],
        segment: segment.to_string(),
        score,
        comment: Some("Test comment".to_string()),
    }
}

#[test]
fn create_payload_accepts_scores_zero_to_ten() {
    for score in 0..=10 {
        assert!(create("User", score).validate().is_ok());
    }
    assert!(create("Studio", 10).validate().is_ok());
    assert!(create("Professional", 0).validate().is_ok());
}

#[test]
fn create_payload_rejects_scores_out_of_range() {
    let issues = create("User", 11).validate().unwrap_err();
    assert_eq!(issues, vec![FieldIssue::ScoreOutOfRange { value: 11 }]);
    let issues = create("User", -1).validate().unwrap_err();
    assert_eq!(issues, vec![FieldIssue::ScoreOutOfRange { value: -1 }]);
    assert_eq!(issues[0].field(), "score");
    assert_eq!(issues[0].code(), "range");
    assert_eq!(issues[0].accepted_range(), Some((0, 10)));
}

#[test]
fn create_payload_lists_every_refused_field() {
    let issues = create("Nobody", 42).validate().unwrap_err();
    assert_eq!(
        issues,
        vec![
            FieldIssue::InvalidSegment(InvalidSegment { value: "Nobody".to_string() }),
            FieldIssue::ScoreOutOfRange { value: 42 },
        ]
    );
    assert_eq!(issues[0].field(), "segment");
    assert_eq!(issues[0].code(), "invalid_segment");
    assert_eq!(issues[0].accepted_range(), None);
}

#[test]
fn dismiss_payload_checks_the_segment() {
    let ok = NpsDismissPayload { user: [2; 12], segment: "Studio".to_string(), dismissed: false };
    assert!(ok.validate().is_ok());
    let bad = NpsDismissPayload {
        user: [2; 12],
        segment: "Invalid_Segment".to_string(),
        dismissed: true,
    };
    assert_eq!(
        bad.validate().unwrap_err(),
        vec![FieldIssue::InvalidSegment(InvalidSegment { value: "Invalid_Segment".to_string() })]
    );
}

#[test]
fn index_query_period_range() {
    assert!(IndexQuery { period: None }.validate().is_ok());
    assert!(IndexQuery { period: Some(1) }.validate().is_ok());
    assert!(IndexQuery { period: Some(730) }.validate().is_ok());
    let issues = IndexQuery { period: Some(0) }.validate().unwrap_err();
    assert_eq!(issues, vec![FieldIssue::PeriodOutOfRange { value: 0 }]);
    assert_eq!(issues[0].field(), "period");
    assert_eq!(issues[0].accepted_range(), Some((1, 730)));
    assert!(IndexQuery { period: Some(731) }.validate().is_err());
    assert!(IndexQuery { period: Some(-30) }.validate().is_err());
}

#[test]
fn index_query_default_period_is_ninety_days() {
    assert_eq!(IndexQuery { period: None }.period_days(), 90);
    assert_eq!(IndexQuery { period: Some(30) }.period_days(), 30);
}
