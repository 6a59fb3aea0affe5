use e2eoffline::encoding::{
    decode_key_segment, decode_segment, encode_segment, join_segments, split_segments,
};

#[test]
fn encode_known_values() {
    assert_eq!(encode_segment(b""), "");
    assert_eq!(encode_segment(b"f"), "Zg==");
    assert_eq!(encode_segment(b"fo"), "Zm8=");
    assert_eq!(encode_segment(b"foo"), "Zm9v");
    assert_eq!(encode_segment(b"foobar"), "Zm9vYmFy");
    assert_eq!(encode_segment(&[0xfb, 0xff]), "-_8=");
}

#[test]
fn decode_known_values() {
    assert_eq!(decode_segment("Zm9vYmFy"), Some(b"foobar".to_vec()));
    assert_eq!(decode_segment("-_8="), Some(vec![0xfb, 0xff]));
    assert_eq!(decode_segment("Zg"), None);
    assert_eq!(decode_segment("+/8="), None);
    assert_eq!(decode_segment("a.b"), None);
}

#[test]
fn key_decoding_takes_padding_or_not() {
    assert_eq!(decode_key_segment("Zg=="), Some(b"f".to_vec()));
    assert_eq!(decode_key_segment("Zg"), Some(b"f".to_vec()));
    assert_eq!(decode_key_segment("Zm8"), Some(b"fo".to_vec()));
    assert_eq!(decode_key_segment("Zm9v"), Some(b"foo".to_vec()));
    assert_eq!(decode_key_segment("Zm9vY"), None);
}

#[test]
fn split_needs_exactly_one_delimiter() {
    assert_eq!(split_segments("ab.cd"), Some(("ab".to_string(), "cd".to_string())));
    assert_eq!(split_segments("."), Some((String::new(), String::new())));
    assert_eq!(split_segments("é.ü"), Some(("é".to_string(), "ü".to_string())));
    assert_eq!(split_segments(""), None);
    assert_eq!(split_segments("abc"), None);
    assert_eq!(split_segments("a.b.c"), None);
    assert_eq!(split_segments(".."), None);
}

#[test]
fn join_then_split() {
    let t = join_segments("Zm9v", "YmFy");
    assert_eq!(t, "Zm9v.YmFy");
    assert_eq!(split_segments(&t), Some(("Zm9v".to_string(), "YmFy".to_string())));
}
