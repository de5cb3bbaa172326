use noodle_store::api::{build_noodle, health, Noodle};
use noodle_store::upload::decode_image_for_processing;

#[test]
fn decode_plain_base64() {
    assert_eq!(decode_image_for_processing("AQID").unwrap(), vec![1u8, 2, 3]);
}

#[test]
fn decode_data_url() {
    let decoded = decode_image_for_processing("data:image/jpeg;base64,AQID").unwrap();
    assert_eq!(decoded, vec![1u8, 2, 3]);
}

#[test]
fn decode_data_url_empty_payload() {
    // an empty payload segment decodes to no bytes
    assert_eq!(decode_image_for_processing("data:image/png;base64,").unwrap(), Vec::<u8>::new());
}

#[test]
fn decode_data_url_without_comma_fails() {
    assert!(decode_image_for_processing("data:image/jpeg;base64").is_err());
}

#[test]
fn decode_malformed_base64_fails() {
    assert!(decode_image_for_processing("!!!").is_err());
    assert!(decode_image_for_processing("data:image/png;base64,@@@").is_err());
}

#[test]
fn decode_data_url_payload_runs_to_end() {
    // the payload is everything after the first comma, so a second comma
    // makes it malformed base64
    assert!(decode_image_for_processing("data:image/png;base64,AQID,AQID").is_err());
}

#[test]
fn build_noodle_decodes_and_seeds() {
    let form = Noodle {
        name: "udon",
        description: Some("thick"),
        img: "data:image/jpeg;base64,AQID",
        rating: 5,
    };
    let n = build_noodle(&form).unwrap();
    assert_eq!(n.id, 0);
    assert_eq!(n.name, "udon");
    assert_eq!(n.description.as_deref(), Some("thick"));
    assert_eq!(n.img, vec![1u8, 2, 3]);
    assert_eq!(n.current_rating, Some(5));
    assert!(n.ratings.is_empty());
}

#[test]
fn build_noodle_rejects_bad_image() {
    let form = Noodle { name: "udon", description: None, img: "???", rating: 1 };
    assert!(build_noodle(&form).is_err());
}

#[test]
fn health_reports_ok() {
    assert_eq!(health(), "OK");
}
