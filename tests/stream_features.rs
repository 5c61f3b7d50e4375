use gateway_core::stream_features::{
    append_fake_stream_prefixes, is_image_model, mentions_image, strip_fake_stream_prefix,
    FAKE_STREAM_PREFIX,
};

#[test]
fn strips_marker() {
    let (m, fake) = strip_fake_stream_prefix("假流式/gemini-2.5-pro");
    assert_eq!(m, "gemini-2.5-pro");
    assert!(fake);
}

#[test]
fn keeps_unmarked_model() {
    let (m, fake) = strip_fake_stream_prefix("gemini-2.5-pro");
    assert_eq!(m, "gemini-2.5-pro");
    assert!(!fake);
}

#[test]
fn image_model_detected_case_insensitively() {
    assert!(is_image_model("Gemini-3-Pro-IMAGE"));
    assert!(!is_image_model("gemini-3-pro"));
}

#[test]
fn mentions_image_on_lowered_text() {
    assert!(mentions_image("gemini-image"));
    assert!(!mentions_image("gemini-IMAGE"));
}

#[test]
fn appends_marked_copies_except_images() {
    let models = vec!["a".to_string(), "b-image".to_string(), "c".to_string()];
    let out = append_fake_stream_prefixes(models.clone(), true);
    assert_eq!(
        out,
        vec![
            "a".to_string(),
            "b-image".to_string(),
            "c".to_string(),
            format!("{}a", FAKE_STREAM_PREFIX),
            format!("{}c", FAKE_STREAM_PREFIX),
        ]
    );
    assert_eq!(append_fake_stream_prefixes(models.clone(), false), models);
}
