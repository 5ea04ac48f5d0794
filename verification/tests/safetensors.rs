use demucs_core::error::{Error, Fault};
use demucs_core::numbers::{double_to_float, half_to_f32, int_to_float};
use demucs_core::safetensors::{decode, Entry, Field, SafeTensors};

/// Builds a minimal one-tensor file so the parser is exercised end to end.
fn build(header: &str, data: &[u8]) -> Vec<u8> {
    let mut out = (header.len() as u64).to_le_bytes().to_vec();
    out.extend_from_slice(header.as_bytes());
    out.extend_from_slice(data);
    out
}

fn floats(words: &[u32]) -> Vec<f32> {
    words.iter().map(|w| f32::from_bits(*w)).collect()
}

fn fault_of(header: &str, data: &[u8]) -> (Option<String>, Fault) {
    let error = SafeTensors::parse(&build(header, data)).unwrap_err();
    match error.fault {
        Error::Checkpoint(fault) => (error.name, fault),
        other => panic!("{other:?}"),
    }
}

#[test]
fn a_single_f32_tensor_round_trips() {
    let header = r#"{"w":{"dtype":"F32","shape":[2,2],"data_offsets":[0,16]}}"#;
    let data: Vec<u8> = [1.0f32, 2.0, 3.0, 4.0]
        .iter()
        .flat_map(|v| v.to_le_bytes())
        .collect();
    let parsed = SafeTensors::parse(&build(header, &data)).unwrap();
    let w = parsed.get("w").unwrap();
    assert_eq!(w.shape, vec![2, 2]);
    assert_eq!(f32::from_bits(w.words[1]), 2.0);
    assert_eq!(f32::from_bits(w.words[3]), 4.0);
}

#[test]
fn f16_tensors_are_upcast() {
    // 1.0, -2.0, 0.5, 0.0 in binary16.
    let values: [u16; 4] = [0x3c00, 0xc000, 0x3800, 0x0000];
    let data: Vec<u8> = values.iter().flat_map(|v| v.to_le_bytes()).collect();
    let header = r#"{"w":{"dtype":"F16","shape":[4],"data_offsets":[0,8]}}"#;
    let parsed = SafeTensors::parse(&build(header, &data)).unwrap();
    assert_eq!(floats(&parsed.get("w").unwrap().words), vec![1.0, -2.0, 0.5, 0.0]);
}

#[test]
fn metadata_is_exposed_and_not_treated_as_a_tensor() {
    let header = r#"{"__metadata__":{"klass":"demucs.htdemucs.HTDemucs"},"w":{"dtype":"F32","shape":[1],"data_offsets":[0,4]}}"#;
    let parsed = SafeTensors::parse(&build(header, &0.5f32.to_le_bytes())).unwrap();
    assert_eq!(parsed.tensors.len(), 1);
    let klass = parsed.metadata.iter().find(|(key, _)| key == "klass");
    assert_eq!(
        klass.map(|(_, value)| value.as_str()),
        Some("demucs.htdemucs.HTDemucs")
    );
    assert!(parsed.get("__metadata__").is_none());
}

#[test]
fn truncated_data_is_rejected() {
    let header = r#"{"w":{"dtype":"F32","shape":[4],"data_offsets":[0,16]}}"#;
    assert!(SafeTensors::parse(&build(header, &[0u8; 8])).is_err());
    assert_eq!(
        fault_of(header, &[0u8; 8]),
        (Some("w".to_string()), Fault::TensorRange { begin: 0, stop: 16, len: 8 })
    );
}

#[test]
fn a_header_longer_than_the_file_is_rejected() {
    let bytes = u64::to_le_bytes(4096).to_vec();
    assert!(SafeTensors::parse(&bytes).is_err());
    let error = SafeTensors::parse(&bytes).unwrap_err();
    assert_eq!(
        error.message(),
        "safetensors header claims 4096 bytes but the file holds 8"
    );
}

#[test]
fn half_decoding_handles_subnormals_and_infinities() {
    assert_eq!(f32::from_bits(half_to_f32(0x0001)), 2f32.powi(-24));
    assert!(f32::from_bits(half_to_f32(0x7c00)).is_infinite());
    assert!(f32::from_bits(half_to_f32(0xfc00)).is_sign_negative());
    assert!(f32::from_bits(half_to_f32(0x7e00)).is_nan());
}

#[test]
fn each_missing_piece_is_named() {
    let named = |fault| (Some("w".to_string()), fault);
    assert_eq!(fault_of("[1]", &[]), (None, Fault::HeaderObject));
    assert_eq!(
        SafeTensors::parse(&build("{", &[])).unwrap_err().message(),
        format!(
            "safetensors header is not JSON: {}",
            serde_json::from_slice::<serde_json::Value>(b"{").unwrap_err()
        )
    );
    assert_eq!(fault_of(r#"{"w":3}"#, &[]), named(Fault::TensorNoDtype));
    assert_eq!(fault_of(r#"{"w":{"dtype":3}}"#, &[]), named(Fault::TensorNoDtype));
    assert_eq!(fault_of(r#"{"w":{"dtype":"F32"}}"#, &[]), named(Fault::TensorNoShape));
    assert_eq!(
        fault_of(r#"{"w":{"dtype":"F32","shape":[1]}}"#, &[]),
        named(Fault::TensorNoOffsets)
    );
    assert_eq!(
        fault_of(r#"{"w":{"dtype":"F32","shape":[1],"data_offsets":[0]}}"#, &[]),
        named(Fault::TensorOffsets)
    );
    let message = |header: &str, data: &[u8]| {
        SafeTensors::parse(&build(header, data)).unwrap_err().message()
    };
    assert_eq!(
        message(r#"{"w":{"dtype":"C64","shape":[1],"data_offsets":[0,8]}}"#, &[0; 8]),
        "w: unsupported safetensors dtype C64"
    );
    assert_eq!(
        message(r#"{"w":{"dtype":"F32","shape":[3],"data_offsets":[0,8]}}"#, &[0; 8]),
        "w: 8 data bytes do not match 3 elements of F32"
    );
    // More elements than an array may have, empty as it is.
    assert_eq!(
        message(
            r#"{"w":{"dtype":"F32","shape":[0,4611686018427387904,4],"data_offsets":[0,0]}}"#,
            &[]
        ),
        "w: ShapeError/Overflow: arithmetic overflow"
    );
    // More than can be counted.
    assert_eq!(
        fault_of(
            r#"{"w":{"dtype":"F32","shape":[4611686018427387904,4],"data_offsets":[0,0]}}"#,
            &[]
        ),
        named(Fault::TensorUncountable)
    );
    let short = SafeTensors::parse(&[0; 7]).unwrap_err();
    assert_eq!(short.fault, Error::Checkpoint(Fault::HeaderShort));
    let error = SafeTensors::parse(&build(r#"{"w":{}}"#, &[])).unwrap_err();
    assert_eq!(error.message(), "w: no dtype");
}

#[test]
fn what_is_no_number_counts_as_zero() {
    let header = r#"{"w":{"dtype":"U8","shape":[-1,"x"],"data_offsets":[1.5,null]}}"#;
    let parsed = SafeTensors::parse(&build(header, &[])).unwrap();
    assert_eq!(parsed.get("w").unwrap().shape, vec![0, 0]);
}

#[test]
fn a_later_entry_takes_the_place_of_an_earlier_one() {
    let entry = |byte: u64| Entry {
        name: "w".to_string(),
        members: Some(vec![
            ("dtype".to_string(), Field::Text("U8".to_string())),
            ("shape".to_string(), Field::List(vec![Some(1)])),
            ("data_offsets".to_string(), Field::List(vec![Some(byte), Some(byte + 1)])),
        ]),
    };
    let parsed = SafeTensors::from_entries(&vec![entry(0), entry(1)], &[3, 7], 0).unwrap();
    assert_eq!(parsed.tensors.len(), 1);
    assert_eq!(floats(&parsed.get("w").unwrap().words), vec![7.0]);
}

#[test]
fn every_element_type_decodes() {
    let one = |dtype: &str, raw: &[u8]| floats(&decode(raw, dtype, 1, "w").unwrap())[0];
    assert_eq!(one("F32", &1.25f32.to_le_bytes()), 1.25);
    assert_eq!(one("F64", &(-0.1f64).to_le_bytes()), -0.1f64 as f32);
    assert_eq!(one("F16", &0x3555u16.to_le_bytes()), 0.33325195);
    assert_eq!(one("BF16", &0x4049u16.to_le_bytes()), 3.140625);
    assert_eq!(one("I64", &i64::MIN.to_le_bytes()), i64::MIN as f32);
    assert_eq!(one("I32", &(-3i32).to_le_bytes()), -3.0);
    assert_eq!(one("I16", &(-300i16).to_le_bytes()), -300.0);
    assert_eq!(one("I8", &[0x80]), -128.0);
    assert_eq!(one("U8", &[200]), 200.0);
    assert_eq!(one("BOOL", &[1]), 1.0);
    let error = decode(&[0; 3], "F16", 1, "w").unwrap_err();
    assert_eq!(error.message(), "w: 3 data bytes do not match 1 elements of F16");
    assert_eq!(
        decode(&[], "X", 0, "w").unwrap_err().message(),
        "w: unsupported safetensors dtype X"
    );
}

#[test]
fn conversions_round_as_casts_do() {
    let mut state: u64 = 0x9e3779b97f4a7c15;
    for _ in 0..20000 {
        state = state.wrapping_mul(6364136223846793005).wrapping_add(1442695040888963407);
        let wide = f64::from_bits(state);
        let narrow = f32::from_bits(double_to_float(state));
        if wide.is_nan() {
            assert!(narrow.is_nan());
        } else {
            assert_eq!(narrow.to_bits(), (wide as f32).to_bits(), "{wide:e}");
        }
        // Around the subnormal and the overflowing end.
        let near = (state & 0x800fffffffffffff) | ((865 + (state >> 40) % 64) << 52);
        let wide = f64::from_bits(near);
        assert_eq!(double_to_float(near), (wide as f32).to_bits(), "{wide:e}");
        let far = (state & 0x800fffffffffffff) | ((1148 + (state >> 41) % 6) << 52);
        let wide = f64::from_bits(far);
        assert_eq!(double_to_float(far), (wide as f32).to_bits(), "{wide:e}");
        let int = (state as i64) >> (state % 64);
        assert_eq!(int_to_float(int), (int as f32).to_bits(), "{int}");
    }
    for int in [0, 1, -1, 1 << 24, (1 << 24) + 1, (1 << 24) + 3, i64::MAX, i64::MIN] {
        assert_eq!(int_to_float(int), (int as f32).to_bits(), "{int}");
    }
    for bits in [0u64, 1 << 63, 0x7ff0000000000000, 0xfff0000000000000, 1] {
        assert_eq!(double_to_float(bits), (f64::from_bits(bits) as f32).to_bits());
    }
}

#[test]
fn every_half_widens_exactly() {
    for bits in 0..=u16::MAX {
        let exponent = (bits >> 10) & 0x1f;
        let fraction = (bits & 0x3ff) as f64;
        if exponent == 31 {
            continue;
        }
        let magnitude = if exponent == 0 {
            fraction * 2f64.powi(-24)
        } else {
            (1024.0 + fraction) * 2f64.powi(exponent as i32 - 25)
        };
        let value = if bits >> 15 == 1 { -magnitude } else { magnitude };
        assert_eq!(half_to_f32(bits), (value as f32).to_bits(), "{bits:#x}");
    }
}

#[test]
fn a_default_file_is_empty() {
    let none = SafeTensors::default();
    assert!(none.tensors.is_empty() && none.metadata.is_empty());
    assert!(none.clone().get("weight").is_none());
}
