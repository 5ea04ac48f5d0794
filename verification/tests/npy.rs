use demucs_core::error::{Error, Fault};
use demucs_core::npy::{fortran_to_c, parse_npy, try_parse_npy, write_npy, NpyDtype};

fn floats(words: &[u32]) -> Vec<f32> {
    words.iter().map(|w| f32::from_bits(*w)).collect()
}

#[test]
fn a_written_array_reads_back_identically() {
    let values: Vec<f32> = (0..24).map(|i| i as f32 * 0.5 - 3.0).collect();
    let words: Vec<u32> = values.iter().map(|v| v.to_bits()).collect();
    let bytes = write_npy(&vec![2, 3, 4], &words).unwrap();
    let back = parse_npy(&bytes).unwrap();
    assert_eq!(back.shape, vec![2, 3, 4]);
    assert_eq!(floats(&back.data), values);
    // The payload must start on a 64-byte boundary, like NumPy's own writer.
    let header_len = u16::from_le_bytes([bytes[8], bytes[9]]) as usize;
    assert_eq!((10 + header_len) % 64, 0);
}

fn with_header(header: &str, payload: &[u8]) -> Vec<u8> {
    let mut padded = header.to_string();
    while (10 + padded.len() + 1) % 64 != 0 {
        padded.push(' ');
    }
    padded.push('\n');
    let mut out = Vec::new();
    out.extend_from_slice(b"\x93NUMPY\x01\x00");
    out.extend_from_slice(&(padded.len() as u16).to_le_bytes());
    out.extend_from_slice(padded.as_bytes());
    out.extend_from_slice(payload);
    out
}

fn build(descr: &str, shape: &str, payload: &[u8]) -> Vec<u8> {
    with_header(
        &format!("{{'descr': '{descr}', 'fortran_order': False, 'shape': ({shape}), }}"),
        payload,
    )
}

#[test]
fn reads_a_1d_float32_array() {
    let payload: Vec<u8> = [1.0f32, -2.5, 3.25]
        .iter()
        .flat_map(|v| v.to_le_bytes())
        .collect();
    let bytes = build("<f4", "3,", &payload);
    let array = parse_npy(&bytes).unwrap();
    assert_eq!(array.shape, vec![3]);
    assert_eq!(floats(&array.data), vec![1.0, -2.5, 3.25]);
}

#[test]
fn reads_a_2d_int64_array() {
    let payload: Vec<u8> = [0i64, 1, 2, 3]
        .iter()
        .flat_map(|v| v.to_le_bytes())
        .collect();
    let bytes = build("<i8", "2, 2", &payload);
    let array = parse_npy(&bytes).unwrap();
    assert_eq!(array.shape, vec![2, 2]);
    assert_eq!(floats(&array.data), vec![0.0, 1.0, 2.0, 3.0]);
}

#[test]
fn rejects_foreign_magic() {
    assert!(parse_npy(b"not an npy file at all").is_err());
}

#[test]
fn rejects_short_payloads() {
    let bytes = build("<f4", "4,", &[0u8; 8]);
    assert!(parse_npy(&bytes).is_err());
    assert_eq!(
        parse_npy(&bytes).unwrap_err().message(),
        "npy payload holds 8 bytes, need 16"
    );
}

#[test]
fn every_element_type_is_read_as_float() {
    let doubles: Vec<u8> = [0.1f64, -1e300].iter().flat_map(|v| v.to_le_bytes()).collect();
    assert_eq!(
        floats(&parse_npy(&build("<f8", "2", &doubles)).unwrap().data),
        vec![0.1f64 as f32, f32::NEG_INFINITY]
    );
    let ints: Vec<u8> = [-7i32, 16777217].iter().flat_map(|v| v.to_le_bytes()).collect();
    assert_eq!(
        floats(&parse_npy(&build("<i4", "2", &ints)).unwrap().data),
        vec![-7.0, 16777216.0]
    );
    assert_eq!(floats(&parse_npy(&build("|u1", "2", &[0, 255])).unwrap().data), vec![0.0, 255.0]);
    assert_eq!(floats(&parse_npy(&build("|i1", "2", &[1, 255])).unwrap().data), vec![1.0, -1.0]);
    assert_eq!(floats(&parse_npy(&build("|b1", "2", &[1, 0])).unwrap().data), vec![1.0, 0.0]);
    assert_eq!(NpyDtype::parse("=f8").unwrap().size(), 8);
    assert_eq!(
        NpyDtype::parse("<c8").unwrap_err().message(),
        "unsupported .npy dtype descriptor `c8`"
    );
}

#[test]
fn a_fortran_file_is_read_row_major() {
    let payload: Vec<u8> = (0..6).flat_map(|v| (v as f32).to_le_bytes()).collect();
    let bytes = with_header(
        "{\"descr\": \"<f4\", \"fortran_order\": True, \"shape\": (2, 3), }",
        &payload,
    );
    let array = parse_npy(&bytes).unwrap();
    assert_eq!(array.shape, vec![2, 3]);
    assert_eq!(floats(&array.data), vec![0.0, 2.0, 4.0, 1.0, 3.0, 5.0]);
    assert_eq!(fortran_to_c((0..8).collect(), &vec![2, 2, 2]), vec![0, 4, 2, 6, 1, 5, 3, 7]);
}

#[test]
fn the_later_versions_have_wider_lengths() {
    let header = "{'descr': '<f4', 'fortran_order': False, 'shape': (), }";
    for major in [2u8, 3] {
        let mut bytes = b"\x93NUMPY".to_vec();
        bytes.extend_from_slice(&[major, 0]);
        bytes.extend_from_slice(&(header.len() as u32).to_le_bytes());
        bytes.extend_from_slice(header.as_bytes());
        bytes.extend_from_slice(&1.5f32.to_le_bytes());
        let array = parse_npy(&bytes).unwrap();
        assert_eq!(array.shape, Vec::<usize>::new());
        assert_eq!(floats(&array.data), vec![1.5]);
        bytes.truncate(11);
        assert!(try_parse_npy(&bytes).is_none());
    }
    let mut bytes = b"\x93NUMPY".to_vec();
    bytes.extend_from_slice(&[4, 1, 0, 0]);
    assert_eq!(
        parse_npy(&bytes).unwrap_err(),
        Error::Shape(Fault::NpyVersion { major: 4, minor: 1 })
    );
}

#[test]
fn a_broken_header_is_named() {
    let fault = |bytes: &[u8]| match parse_npy(bytes).unwrap_err() {
        Error::Shape(fault) => fault,
        other => panic!("{other:?}"),
    };
    assert_eq!(fault(b"\x93NUMPY\x01\x00\xff\xff"), Fault::NpyTruncated);
    let message = |bytes: &[u8]| parse_npy(bytes).unwrap_err().message();
    assert_eq!(
        message(b"\x93NUMPY\x01\x00\x01\x00\xff"),
        format!("invalid .npy header: {}", std::str::from_utf8(&[0xffu8]).unwrap_err())
    );
    assert_eq!(fault(&with_header("{}", &[])), Fault::NpyNoDescr);
    assert_eq!(fault(&with_header("{'descr': <f4}", &[])), Fault::NpyNoDescr);
    assert_eq!(fault(&with_header("{'descr': '<f4'}", &[])), Fault::NpyNoShape);
    assert_eq!(fault(&with_header("{'descr': '<f4', 'shape': 3}", &[])), Fault::NpyNoTuple);
    // The first number that is none, in the words of the standard library.
    for (shape, bad) in [
        ("3, x", "x"),
        ("+", "+"),
        ("-1, 2", "-1"),
        ("1, 99999999999999999999x, y", "99999999999999999999x"),
        ("9999999999999999999x", "9999999999999999999x"),
        ("18446744073709551616", "18446744073709551616"),
        ("1 2", "1 2"),
    ] {
        assert_eq!(
            message(&with_header(&format!("{{'descr': '<f4', 'shape': ({shape})}}"), &[])),
            format!("bad npy shape `{shape}`: {}", bad.parse::<usize>().unwrap_err())
        );
    }
    assert_eq!(message(&build("<c8", "1", &[0; 8])), "unsupported .npy dtype descriptor `c8`");
    // Nothing is said where the shape closes before it opens.
    assert!(try_parse_npy(&with_header("{'descr': '<f4', 'shape': )(}", &[])).is_none());
    // Nor where the elements cannot be counted.
    assert!(try_parse_npy(&build("<f4", "4294967296, 4294967296", &[])).is_none());
}

#[test]
fn a_shape_must_count_what_is_written() {
    assert_eq!(
        write_npy(&vec![2, 2], &vec![0; 3]).unwrap_err(),
        Error::Shape(Fault::NpyCount { count: 4, len: 3 })
    );
    let scalar = write_npy(&vec![], &vec![1.0f32.to_bits()]).unwrap();
    let back = parse_npy(&scalar).unwrap();
    assert!(back.shape.is_empty());
    assert_eq!(floats(&back.data), vec![1.0]);
}

#[test]
fn a_header_must_fit_its_length() {
    let one = vec![2.5f32.to_bits()];
    // Two bytes of length: 21,800 axes of one digit fit, 21,900 do not.
    let bytes = write_npy(&vec![1; 21800], &one).unwrap();
    let header = u16::from_le_bytes([bytes[8], bytes[9]]) as usize;
    assert_eq!((header + 10) % 64, 0);
    assert_eq!(bytes.len(), 10 + header + 4);
    let back = parse_npy(&bytes).unwrap();
    assert_eq!((back.shape.len(), back.clone().data), (21800, one.clone()));
    let long = write_npy(&vec![1; 21900], &one).unwrap_err();
    assert_eq!(long, Error::Shape(Fault::NpyHeaderLength { axes: 21900 }));
    assert_eq!(
        long.message(),
        "npy writer got 21900 axes, more than a version 1.0 header can list"
    );
}
