use nanograph::embedding_local::{
    hf_model_name, output_dim, parse_hf_model_id, pooled_positions, prepare_inputs, truncate_or_pad,
};

#[test]
fn parse_hf_model_id_strips_prefix() {
    assert_eq!(
        parse_hf_model_id("hf:sentence-transformers/all-MiniLM-L6-v2").as_deref(),
        Some("sentence-transformers/all-MiniLM-L6-v2")
    );
}

#[test]
fn parse_hf_model_id_returns_none_for_plain_model() {
    assert_eq!(parse_hf_model_id("text-embedding-3-small"), None);
    assert_eq!(parse_hf_model_id("gemini-embedding-2-preview"), None);
}

#[test]
fn truncate_or_pad_truncates_long_input() {
    let mut v = vec![1, 2, 3, 4, 5];
    truncate_or_pad(&mut v, 3);
    assert_eq!(v, vec![1, 2, 3]);
}

#[test]
fn truncate_or_pad_pads_short_input() {
    let mut v = vec![1, 2];
    truncate_or_pad(&mut v, 5);
    assert_eq!(v, vec![1, 2, 0, 0, 0]);
}

#[test]
fn truncate_or_pad_noop_for_exact_length() {
    let mut v = vec![1, 2, 3];
    truncate_or_pad(&mut v, 3);
    assert_eq!(v, vec![1, 2, 3]);
}

#[test]
fn model_name_leads_back_to_its_id() {
    let name = hf_model_name("org/model");
    assert_eq!(name, "hf:org/model");
    assert_eq!(parse_hf_model_id(&name).as_deref(), Some("org/model"));
}

#[test]
fn fitting_twice_is_fitting_once() {
    let mut once = vec![7, 8, 9, 10];
    truncate_or_pad(&mut once, 2);
    let mut twice = once.clone();
    truncate_or_pad(&mut twice, 2);
    assert_eq!(once, twice);
    assert_eq!(once, vec![7, 8]);
}

#[test]
fn inputs_are_padded_to_the_length_of_the_model() {
    let inputs = prepare_inputs(&vec![5, 6, 7], &vec![1, 1, 1], &vec![0, 0, 0], 5);
    assert_eq!(inputs.ids, vec![5, 6, 7, 0, 0]);
    assert_eq!(inputs.attention_mask, vec![1, 1, 1, 0, 0]);
    assert_eq!(inputs.type_ids, vec![0, 0, 0, 0, 0]);
    assert_eq!(pooled_positions(&inputs.attention_mask), vec![0, 1, 2]);
}

#[test]
fn output_dimension_is_the_last_of_the_shape() {
    assert_eq!(output_dim(&vec![1, 16, 384]).unwrap(), 384);
    assert!(output_dim(&Vec::new()).is_err());
}
