use mooshie_core::digest::{hashable_model_name, model_hash_matches};
use mooshie_core::civitai::image_cache_key;
use mooshie_core::digest::{autov2_hash, model_hash_result, sha256_hex, sha256_hex_upper, Sha256Stream};

#[test]
fn autov2_is_the_first_ten_hex_characters() {
    let full = "E3B0C44298FC1C149AFBF4C8996FB92427AE41E4649B934CA495991B7852B855";
    assert_eq!(autov2_hash(full), "E3B0C44298");
    assert_eq!(autov2_hash("0123456789"), "0123456789");
}

#[test]
fn sha256_of_empty_input_is_the_known_digest() {
    assert_eq!(
        image_cache_key(""),
        "e3b0c44298fc1c149afbf4c8996fb92427ae41e4649b934ca495991b7852b855"
    );
}

#[test]
fn model_hash_result_carries_both_forms() {
    let r = model_hash_result("ABCDEF0123456789".to_string());
    assert_eq!(r.sha256, "ABCDEF0123456789");
    assert_eq!(r.autov2, "ABCDEF0123");
}

#[test]
fn chunked_hash_matches_the_whole_input_hash() {
    let mut s = Sha256Stream::new();
    s.update(b"hello ");
    s.update(b"");
    s.update(b"world");
    assert_eq!(s.finish_hex(), image_cache_key("hello world"));
    assert_eq!(
        Sha256Stream::new().finish_hex(),
        "e3b0c44298fc1c149afbf4c8996fb92427ae41e4649b934ca495991b7852b855"
    );
}

#[test]
fn digests_are_spelled_in_lowercase_hex() {
    assert_eq!(sha256_hex(&[0x00, 0xAB, 0x0f]), "00ab0f");
    assert_eq!(sha256_hex(&[]), "");
}

#[test]
fn model_hashes_are_spelled_in_uppercase_hex() {
    let mut s = Sha256Stream::new();
    s.update(b"");
    assert_eq!(
        s.finish_hex_upper(),
        "E3B0C44298FC1C149AFBF4C8996FB92427AE41E4649B934CA495991B7852B855"
    );
    assert_eq!(sha256_hex_upper(&[0xab, 0x01]), "AB01");
}

#[test]
fn autov2_takes_ten_bytes_of_any_text_cut_on_a_character() {
    assert_eq!(autov2_hash("éééééabc"), "ééééé");
}

#[test]
fn models_are_found_by_full_or_short_hash_in_any_case() {
    let full = "E3B0C44298FC1C149AFBF4C8996FB92427AE41E4649B934CA495991B7852B855";
    assert_eq!(model_hash_matches(full, "e3b0c44298"), Some(true));
    assert_eq!(model_hash_matches(full, "E3B0C44299"), Some(false));
    assert_eq!(model_hash_matches(full, &full.to_lowercase()), Some(true));
    assert_eq!(model_hash_matches(full, "E3B0"), Some(false));
    assert!(hashable_model_name("a.safetensors"));
    assert!(hashable_model_name("b.ckpt"));
    assert!(!hashable_model_name("c.gguf"));
}
