use mooshie_core::gguf::{
    gguf_info_fields, GgufArchitectureMeta,
    gguf_scalar_size, read_gguf_architecture_meta, read_gguf_header, read_gguf_string,
    read_u32_le, read_u64_le, skip_bytes, skip_gguf_value, GgufError, GGUF_TYPE_ARRAY,
    GGUF_TYPE_STRING, GGUF_TYPE_UINT32,
};

fn push_u32(b: &mut Vec<u8>, v: u32) {
    b.extend_from_slice(&v.to_le_bytes());
}

fn push_u64(b: &mut Vec<u8>, v: u64) {
    b.extend_from_slice(&v.to_le_bytes());
}

fn push_str(b: &mut Vec<u8>, s: &str) {
    push_u64(b, s.len() as u64);
    b.extend_from_slice(s.as_bytes());
}

fn header(arch: Option<&str>, tensors: &[&str]) -> Vec<u8> {
    let mut b = Vec::new();
    b.extend_from_slice(b"GGUF");
    push_u32(&mut b, 3);
    push_u64(&mut b, tensors.len() as u64);
    push_u64(&mut b, if arch.is_some() { 3 } else { 2 });
    // An ignored u32 value.
    push_str(&mut b, "general.file_type");
    push_u32(&mut b, GGUF_TYPE_UINT32);
    push_u32(&mut b, 7);
    // An ignored array of strings.
    push_str(&mut b, "tokenizer.tokens");
    push_u32(&mut b, GGUF_TYPE_ARRAY);
    push_u32(&mut b, GGUF_TYPE_STRING);
    push_u64(&mut b, 2);
    push_str(&mut b, "a");
    push_str(&mut b, "bc");
    if let Some(a) = arch {
        push_str(&mut b, "general.architecture");
        push_u32(&mut b, GGUF_TYPE_STRING);
        push_str(&mut b, a);
    }
    for t in tensors {
        push_str(&mut b, t);
        push_u32(&mut b, 2);
        push_u64(&mut b, 64);
        push_u64(&mut b, 32);
        push_u32(&mut b, 1);
        push_u64(&mut b, 0);
    }
    b
}

#[test]
fn little_endian_integers_and_skips() {
    let b = [1u8, 2, 3, 4, 5, 6, 7, 8, 9];
    assert_eq!(read_u32_le(&b, 0), Ok((0x04030201, 4)));
    assert_eq!(read_u64_le(&b, 1), Ok((0x0908070605040302, 9)));
    assert_eq!(read_u32_le(&b, 6), Err(GgufError::Truncated));
    assert_eq!(skip_bytes(&b, 2, 7), Ok(9));
    assert_eq!(skip_bytes(&b, 2, 8), Err(GgufError::Truncated));
    assert_eq!(gguf_scalar_size(0), Some(1));
    assert_eq!(gguf_scalar_size(3), Some(2));
    assert_eq!(gguf_scalar_size(6), Some(4));
    assert_eq!(gguf_scalar_size(12), Some(8));
    assert_eq!(gguf_scalar_size(8), None);
    assert_eq!(gguf_scalar_size(13), None);
}

#[test]
fn strings_are_length_prefixed_utf8() {
    let mut b = Vec::new();
    push_str(&mut b, "héllo");
    assert_eq!(read_gguf_string(&b, 0), Ok(("héllo".to_string(), b.len())));
    let mut bad = Vec::new();
    push_u64(&mut bad, 2);
    bad.extend_from_slice(&[0xff, 0xfe]);
    assert_eq!(read_gguf_string(&bad, 0), Err(GgufError::InvalidUtf8));
    let mut long = Vec::new();
    push_u64(&mut long, 1024 * 1024 + 1);
    assert_eq!(read_gguf_string(&long, 0), Err(GgufError::StringTooLong));
    assert_eq!(read_gguf_string(&b[..b.len() - 1], 0), Err(GgufError::Truncated));
}

#[test]
fn values_are_skipped_by_type() {
    let mut nested = Vec::new();
    push_u32(&mut nested, GGUF_TYPE_ARRAY);
    assert_eq!(skip_gguf_value(&nested, 0, GGUF_TYPE_ARRAY), Err(GgufError::NestedArray));
    let mut unknown = Vec::new();
    push_u32(&mut unknown, 99);
    push_u64(&mut unknown, 1);
    assert_eq!(skip_gguf_value(&unknown, 0, GGUF_TYPE_ARRAY), Err(GgufError::UnknownArrayType));
    assert_eq!(skip_gguf_value(&unknown, 0, 42), Err(GgufError::UnknownValueType));
    let mut ints = Vec::new();
    push_u32(&mut ints, GGUF_TYPE_UINT32);
    push_u64(&mut ints, 3);
    ints.extend_from_slice(&[0u8; 12]);
    assert_eq!(skip_gguf_value(&ints, 0, GGUF_TYPE_ARRAY), Ok(24));
    let mut too_many = Vec::new();
    push_u32(&mut too_many, GGUF_TYPE_UINT32);
    push_u64(&mut too_many, 1_000_000_001);
    assert_eq!(skip_gguf_value(&too_many, 0, GGUF_TYPE_ARRAY), Err(GgufError::ArrayTooLong));
}

#[test]
fn headers_yield_the_architecture_and_tensor_names() {
    let b = header(Some("flux"), &["img_in.weight", "txt_in.weight"]);
    let h = read_gguf_header(&b).unwrap().unwrap();
    assert_eq!(h.general_architecture.as_deref(), Some("flux"));
    assert_eq!(h.tensor_names, vec!["img_in.weight".to_string(), "txt_in.weight".to_string()]);
    let m = read_gguf_architecture_meta(&b).unwrap().unwrap();
    assert_eq!(m.architecture.as_deref(), Some("flux"));
    assert_eq!(m.gguf_architecture.as_deref(), Some("flux"));
}

#[test]
fn tensor_names_outrank_the_declared_architecture() {
    let b = header(Some("cosmos"), &["llm_adapter.x", "blocks.0.mlp.layer1.weight"]);
    let m = read_gguf_architecture_meta(&b).unwrap().unwrap();
    assert_eq!(m.architecture.as_deref(), Some("anima"));
    assert_eq!(m.gguf_architecture.as_deref(), Some("cosmos"));
    let plain = header(None, &["something.weight"]);
    let m = read_gguf_architecture_meta(&plain).unwrap().unwrap();
    assert_eq!(m.architecture, None);
    assert_eq!(m.gguf_architecture, None);
}

#[test]
fn non_gguf_and_short_files() {
    assert!(read_gguf_header(b"PK\x03\x04rest").unwrap().is_none());
    let b = header(Some("sdxl"), &["a"]);
    assert!(matches!(read_gguf_header(&b[..b.len() - 3]), Err(GgufError::Truncated)));
    assert!(matches!(read_gguf_header(&b[..2]), Err(GgufError::Truncated)));
    // A longer read of a settled header answers the same.
    let mut longer = b.clone();
    longer.extend_from_slice(&[0u8; 64]);
    let m1 = read_gguf_architecture_meta(&b).unwrap().unwrap();
    let m2 = read_gguf_architecture_meta(&longer).unwrap().unwrap();
    assert_eq!(m1.architecture, m2.architecture);
    let mut bad = b"GGUF".to_vec();
    push_u32(&mut bad, 3);
    push_u64(&mut bad, 200_001);
    push_u64(&mut bad, 0);
    assert!(matches!(read_gguf_header(&bad), Err(GgufError::TooManyTensors)));
}

#[test]
fn gguf_files_are_always_diffusion_models() {
    let fields = gguf_info_fields(GgufArchitectureMeta { architecture: None, gguf_architecture: None });
    assert_eq!(
        fields,
        vec![
            ("model_kind".to_string(), "diffusion_model".to_string()),
            ("model_kind_source".to_string(), "gguf".to_string()),
        ]
    );
    let fields = gguf_info_fields(GgufArchitectureMeta {
        architecture: Some("Flux".to_string()),
        gguf_architecture: Some("flux".to_string()),
    });
    assert_eq!(fields.len(), 4);
    assert_eq!(fields[2], ("architecture".to_string(), "Flux".to_string()));
    assert_eq!(fields[3], ("gguf_architecture".to_string(), "flux".to_string()));
}
