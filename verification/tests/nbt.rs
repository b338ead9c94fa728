use rustcraft::nbt::read::{read_string, read_type_depth, sanitize_array_len};
use rustcraft::nbt::write::write_string;
use rustcraft::nbt::{NamedTag, NbtError, Tag};
use rustcraft::nbt::prefix::{read_from_prefix, read_string_prefix, PrefixRead};

fn sample_document() -> Tag {
    let mut root = Tag::new_compound();
    root.put("byte", Tag::Byte(-5));
    root.put("short", Tag::Short(-300));
    root.put("int", Tag::Int(123456789));
    root.put("long", Tag::Long(-9876543210));
    root.put("float", Tag::Float(1.5f32.to_bits()));
    root.put("double", Tag::Double((-2.25f64).to_bits()));
    root.put("bytes", Tag::ByteArray(vec![1, 2, 3, 255]));
    root.put("name", Tag::String("héllo wörld".to_string()));
    root.put(
        "list",
        Tag::List(vec![Tag::Int(1), Tag::Int(2), Tag::Int(3)]),
    );
    let mut inner = Tag::new_compound();
    inner.put("x", Tag::Long(7));
    root.put("inner", inner);
    root.put("ints", Tag::IntArray(vec![-1, 0, 1, i32::MAX, i32::MIN]));
    root.put("longs", Tag::LongArray(vec![i64::MIN, 42]));
    root.put("empty", Tag::new_list());
    root
}

fn encode(t: &Tag) -> Vec<u8> {
    let mut buf = Vec::new();
    t.write_to(&mut buf);
    buf
}

#[test]
fn document_survives_write_and_read() {
    let doc = sample_document();
    let bytes = encode(&doc);
    let (back, used) = Tag::read_from(&bytes).unwrap();
    assert_eq!(used, bytes.len());
    assert_eq!(encode(&back), bytes);
    assert_eq!(back.get("byte").unwrap().as_byte(), Some(-5));
    assert_eq!(back.get("short").unwrap().as_short(), Some(-300));
    assert_eq!(back.get("int").unwrap().as_int(), Some(123456789));
    assert_eq!(back.get("long").unwrap().as_long(), Some(-9876543210));
    assert_eq!(f32::from_bits(back.get("float").unwrap().as_float().unwrap()), 1.5);
    assert_eq!(f64::from_bits(back.get("double").unwrap().as_double().unwrap()), -2.25);
    assert_eq!(back.get("bytes").unwrap().as_byte_array(), Some(&[1u8, 2, 3, 255][..]));
    assert_eq!(back.get("name").unwrap().as_str(), Some("héllo wörld"));
    assert_eq!(back.get("list").unwrap().as_list().unwrap().len(), 3);
    assert_eq!(back.get("inner").unwrap().get("x").unwrap().as_long(), Some(7));
    assert_eq!(back.get("ints").unwrap().as_int_array(), Some(&[-1, 0, 1, i32::MAX, i32::MIN][..]));
    assert_eq!(back.get("longs").unwrap().as_long_array(), Some(&[i64::MIN, 42][..]));
    assert_eq!(back.get("empty").unwrap().as_list().unwrap().len(), 0);
    assert!(back.get("missing").is_none());
}

#[test]
fn exact_bytes_of_a_small_compound() {
    let mut root = Tag::new_compound();
    root.put("a", Tag::Short(258));
    // type id, name length, name, payload, end marker
    assert_eq!(encode(&root), vec![2, 0, 1, b'a', 1, 2, 0]);
    let list = Tag::List(vec![Tag::Byte(1), Tag::Byte(-1)]);
    assert_eq!(encode(&list), vec![1, 0, 0, 0, 2, 1, 255]);
    assert_eq!(encode(&Tag::new_list()), vec![0, 0, 0, 0, 0]);
    assert_eq!(encode(&Tag::Int(-2)), vec![255, 255, 255, 254]);
}

#[test]
fn put_replaces_an_existing_name() {
    let mut root = Tag::new_compound();
    root.put("k", Tag::Int(1));
    root.put("other", Tag::Int(5));
    root.put("k", Tag::Int(2));
    assert_eq!(root.get("k").unwrap().as_int(), Some(2));
    assert_eq!(root.get("other").unwrap().as_int(), Some(5));
    assert_eq!(root.as_compound().unwrap().len(), 2);
    assert!(root.is_compound());
    assert!(!Tag::Int(3).is_compound());
}

#[test]
fn reader_keeps_the_last_of_repeated_names() {
    // two entries named "a": the second wins, in the first one's place
    let bytes = vec![1, 0, 1, b'a', 7, 1, 0, 1, b'b', 8, 1, 0, 1, b'a', 9, 0];
    let (t, used) = Tag::read_from(&bytes).unwrap();
    assert_eq!(used, bytes.len());
    let es: &[NamedTag] = t.as_compound().unwrap();
    assert_eq!(es.len(), 2);
    assert_eq!(es[0].0, "a");
    assert_eq!(es[0].1.as_byte(), Some(9));
    assert_eq!(es[1].0, "b");
}

#[test]
fn errors_of_the_reader() {
    assert_eq!(Tag::read_from(&[]).unwrap_err(), NbtError::UnexpectedEof);
    assert_eq!(Tag::read_from(&[1, 0, 1, b'a']).unwrap_err(), NbtError::UnexpectedEof);
    assert_eq!(Tag::read_from(&[13, 0, 0, 0]).unwrap_err(), NbtError::InvalidTagId(13));
    assert_eq!(Tag::read_type(0, &[]).unwrap_err(), NbtError::UnexpectedEnd);
    assert_eq!(
        Tag::read_type(7, &[255, 255, 255, 255]).unwrap_err(),
        NbtError::NegativeArrayLength(-1)
    );
    assert_eq!(
        Tag::read_type(11, &[1, 0, 0, 1]).unwrap_err(),
        NbtError::ArrayTooLong(16777217)
    );
    assert_eq!(Tag::read_type(8, &[0x80, 0]).unwrap_err(), NbtError::NegativeStringLength(-32768));
    assert_eq!(Tag::read_type(11, &[0, 0, 0, 2, 0, 0, 0, 1]).unwrap_err(), NbtError::UnexpectedEof);
    assert_eq!(read_type_depth(1, &[5], 0, 513).unwrap_err(), NbtError::DepthExceeded);
    assert_eq!(read_type_depth(1, &[5], 0, 512).unwrap().0.as_byte(), Some(5));
}

#[test]
fn nesting_deeper_than_the_limit_is_refused() {
    // 600 nested lists of lists, each of one element
    let mut bytes = Vec::new();
    for _ in 0..600 {
        bytes.extend_from_slice(&[9, 0, 0, 0, 1]);
    }
    bytes.extend_from_slice(&[0, 0, 0, 0, 0]);
    assert_eq!(Tag::read_type(9, &bytes).unwrap_err(), NbtError::DepthExceeded);
    // 400 levels are fine
    let mut ok = Vec::new();
    for _ in 0..400 {
        ok.extend_from_slice(&[9, 0, 0, 0, 1]);
    }
    ok.extend_from_slice(&[0, 0, 0, 0, 0]);
    let (_, used) = Tag::read_type(9, &ok).unwrap();
    assert_eq!(used, ok.len());
}

#[test]
fn too_many_compound_entries_are_refused() {
    let mut bytes = Vec::new();
    for i in 0..65537u32 {
        let name = format!("{}", i);
        bytes.push(1);
        bytes.extend_from_slice(&(name.len() as u16).to_be_bytes());
        bytes.extend_from_slice(name.as_bytes());
        bytes.push(0);
    }
    bytes.push(0);
    assert_eq!(Tag::read_from(&bytes).unwrap_err(), NbtError::TooManyEntries);
}

#[test]
fn truncated_strings_and_byte_arrays_read_what_is_there() {
    let (s, p) = read_string(&[0, 5, b'a', b'b'], 0).unwrap();
    assert_eq!(s, "ab");
    assert_eq!(p, 4);
    let (t, p) = Tag::read_type(7, &[0, 0, 0, 9, 1, 2]).unwrap();
    assert_eq!(t.as_byte_array(), Some(&[1u8, 2][..]));
    assert_eq!(p, 6);
}

#[test]
fn invalid_utf8_is_replaced() {
    let (s, _) = read_string(&[0, 2, 0xff, b'a'], 0).unwrap();
    assert_eq!(s, "\u{fffd}a");
}

#[test]
fn write_string_prefixes_the_byte_length() {
    let mut buf = Vec::new();
    write_string(&mut buf, "é!");
    assert_eq!(buf, vec![0, 3, 0xc3, 0xa9, b'!']);
}

#[test]
fn sanitize_array_len_bounds() {
    assert_eq!(sanitize_array_len(0), Ok(0));
    assert_eq!(sanitize_array_len(16777216), Ok(16777216));
    assert_eq!(sanitize_array_len(16777217), Err(NbtError::ArrayTooLong(16777217)));
    assert_eq!(sanitize_array_len(-3), Err(NbtError::NegativeArrayLength(-3)));
}

#[test]
fn internal_ids() {
    assert_eq!(Tag::End.internal_id(), 0);
    assert_eq!(Tag::new_compound().internal_id(), 10);
    assert_eq!(Tag::LongArray(vec![]).internal_id(), 12);
    assert_eq!(Tag::Float(0).as_int(), None);
    assert_eq!(Tag::Int(0).as_float(), None);
}

#[test]
fn clone_is_deep_and_equal() {
    let doc = sample_document();
    let copy = doc.clone();
    assert_eq!(encode(&copy), encode(&doc));
    let named = NamedTag("n".to_string(), Tag::Int(4));
    let c = named.clone();
    assert_eq!(c.0, "n");
    assert_eq!(c.1.as_int(), Some(4));
}

#[test]
fn prefix_read_of_a_stream() {
    let doc = sample_document();
    let mut bytes = encode(&doc);
    let n = bytes.len();
    // The whole document, then more data: done, and only the document taken.
    bytes.extend_from_slice(&[7, 7, 7]);
    match read_from_prefix(&bytes, false) {
        PrefixRead::Done(t, used) => {
            assert_eq!(used, n);
            assert_eq!(encode(&t), encode(&doc));
        }
        _ => panic!("expected a document"),
    }
    // Half of it: more is needed, or it fails once the stream has ended.
    assert!(matches!(read_from_prefix(&bytes[..n / 2], false), PrefixRead::NeedMore));
    assert!(matches!(
        read_from_prefix(&bytes[..n / 2], true),
        PrefixRead::Failed(NbtError::UnexpectedEof)
    ));
    // Exactly the document: it ends with its end marker, which one more byte
    // does not change.
    assert!(matches!(read_from_prefix(&bytes[..n], false), PrefixRead::Done(_, u) if u == n));
    // An invalid type id fails at once.
    assert!(matches!(read_from_prefix(&[20, 0, 0], false), PrefixRead::Failed(NbtError::InvalidTagId(20))));
}

#[test]
fn prefix_read_of_a_string() {
    let data = [0u8, 3, b'a', b'b'];
    // Cut short by the end of the bytes: more is needed while the stream
    // goes on; the short string is taken once it has ended.
    assert!(matches!(read_string_prefix(&data, false), PrefixRead::NeedMore));
    match read_string_prefix(&data, true) {
        PrefixRead::Done(s, used) => {
            assert_eq!(s, "ab");
            assert_eq!(used, 4);
        }
        _ => panic!("expected a string"),
    }
    let full = [0u8, 2, b'a', b'b'];
    match read_string_prefix(&full, false) {
        PrefixRead::Done(s, used) => {
            assert_eq!(s, "ab");
            assert_eq!(used, 4);
        }
        _ => panic!("expected a string"),
    }
    assert!(matches!(read_string_prefix(&[0u8], false), PrefixRead::NeedMore));
    assert!(matches!(
        read_string_prefix(&[0xffu8, 0xff], false),
        PrefixRead::Failed(NbtError::NegativeStringLength(-1))
    ));
}
