use rust_nps::payloads::validate_segment;
use rust_nps::segment::Segment;

#[test]
fn segment_from_known_names() {
    assert_eq!(Segment::from("User".to_string()), Segment::User);
    assert_eq!(Segment::from("Studio".to_string()), Segment::Studio);
    assert_eq!(Segment::from("Professional".to_string()), Segment::Professional);
}

#[test]
fn segment_from_unknown_names_falls_back_to_user() {
    assert_eq!(Segment::from("Invalid_Segment".to_string()), Segment::User);
    assert_eq!(Segment::from("studio".to_string()), Segment::User);
    assert_eq!(Segment::from(String::new()), Segment::User);
    assert_eq!(Segment::from_name("Professionals"), Segment::User);
}

#[test]
fn segment_name_round_trip() {
    for s in [Segment::User, Segment::Studio, Segment::Professional] {
        assert_eq!(Segment::from(s.as_str().to_string()), s);
    }
    assert_eq!(Segment::Studio.as_str(), "Studio");
    assert_eq!(Segment::Professional.as_str(), "Professional");
}

#[test]
fn segment_default_is_user() {
    assert_eq!(Segment::default(), Segment::User);
}

#[test]
fn validate_segment_accepts_the_three_names() {
    assert!(validate_segment("User").is_ok());
    assert!(validate_segment("Studio").is_ok());
    assert!(validate_segment("Professional").is_ok());
}

#[test]
fn validate_segment_rejects_other_names() {
    let err = validate_segment("Invalid_Segment").unwrap_err();
    assert_eq!(err.value, "Invalid_Segment");
    assert_eq!(err.code(), "invalid_segment");
    assert_eq!(
        err.message(),
        "Invalid segment: 'Invalid_Segment'. Must be one of: User, Studio, Professional"
    );
    assert!(validate_segment("user").is_err());
    assert!(validate_segment("").is_err());
    assert!(validate_segment("User ").is_err());
}
