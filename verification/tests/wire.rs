use wayland_client::interface::ArgKind;
use wayland_client::wire::{
    decode_args, encode_args, is_encodable, kind_of, signed_to_word, word_to_signed, Argument,
};

fn text(s: &str) -> Argument {
    Argument::Str(s.as_bytes().to_vec())
}

#[test]
fn signed_values_travel_in_twos_complement() {
    assert_eq!(signed_to_word(0), 0);
    assert_eq!(signed_to_word(1), 1);
    assert_eq!(signed_to_word(-1), 0xffff_ffff);
    assert_eq!(signed_to_word(-2), 0xffff_fffe);
    assert_eq!(signed_to_word(i32::MAX), 0x7fff_ffff);
    assert_eq!(signed_to_word(i32::MIN), 0x8000_0000);
    assert_eq!(word_to_signed(0), 0);
    assert_eq!(word_to_signed(0x7fff_ffff), i32::MAX);
    assert_eq!(word_to_signed(0x8000_0000), i32::MIN);
    assert_eq!(word_to_signed(0xffff_ffff), -1);
}

#[test]
fn signed_values_survive_the_trip_through_a_word() {
    for x in [0, 1, -1, 255, -256, 65_536, -65_537, i32::MAX, i32::MIN, 42, -42] {
        assert_eq!(word_to_signed(signed_to_word(x)), x);
    }
}

#[test]
fn the_kind_of_each_argument() {
    assert_eq!(kind_of(&Argument::Int(1)), ArgKind::Int);
    assert_eq!(kind_of(&Argument::Uint(1)), ArgKind::Uint);
    assert_eq!(kind_of(&Argument::Fixed(1)), ArgKind::Fixed);
    assert_eq!(kind_of(&text("a")), ArgKind::Str);
    assert_eq!(kind_of(&Argument::Object(1)), ArgKind::Object);
    assert_eq!(kind_of(&Argument::Array(vec![1])), ArgKind::Array);
    assert_eq!(kind_of(&Argument::Fd(1)), ArgKind::Fd);
}

#[test]
fn ordinary_arguments_are_encodable() {
    assert!(is_encodable(&Argument::Int(i32::MIN)));
    assert!(is_encodable(&text("")));
    assert!(is_encodable(&text("a longer string than a word")));
    assert!(is_encodable(&Argument::Array(Vec::new())));
    assert!(is_encodable(&Argument::Fd(-1)));
}

#[test]
fn numbers_and_object_ids_take_one_word_each() {
    let kinds = vec![ArgKind::Int, ArgKind::Uint, ArgKind::Fixed, ArgKind::Object];
    let args = vec![
        Argument::Int(-2),
        Argument::Uint(42),
        Argument::Fixed(256),
        Argument::Object(7),
    ];
    let (bytes, fds) = encode_args(&kinds, &args).unwrap();
    assert_eq!(
        bytes,
        vec![0xfe, 0xff, 0xff, 0xff, 42, 0, 0, 0, 0, 1, 0, 0, 7, 0, 0, 0]
    );
    assert!(fds.is_empty());
}

#[test]
fn a_string_is_its_length_its_bytes_a_zero_and_padding() {
    let kinds = vec![ArgKind::Str];
    let (bytes, _) = encode_args(&kinds, &vec![text("abc")]).unwrap();
    assert_eq!(bytes, vec![4, 0, 0, 0, b'a', b'b', b'c', 0]);
    let (bytes, _) = encode_args(&kinds, &vec![text("abcd")]).unwrap();
    assert_eq!(bytes, vec![5, 0, 0, 0, b'a', b'b', b'c', b'd', 0, 0, 0, 0]);
    let (bytes, _) = encode_args(&kinds, &vec![text("")]).unwrap();
    assert_eq!(bytes, vec![1, 0, 0, 0, 0, 0, 0, 0]);
    let (bytes, _) = encode_args(&kinds, &vec![text("ab")]).unwrap();
    assert_eq!(bytes, vec![3, 0, 0, 0, b'a', b'b', 0, 0]);
}

#[test]
fn an_array_is_its_length_its_bytes_and_padding() {
    let kinds = vec![ArgKind::Array];
    let (bytes, _) = encode_args(&kinds, &vec![Argument::Array(vec![1, 2, 3, 4, 5])]).unwrap();
    assert_eq!(bytes, vec![5, 0, 0, 0, 1, 2, 3, 4, 5, 0, 0, 0]);
    let (bytes, _) = encode_args(&kinds, &vec![Argument::Array(vec![])]).unwrap();
    assert_eq!(bytes, vec![0, 0, 0, 0]);
    let (bytes, _) = encode_args(&kinds, &vec![Argument::Array(vec![9, 8, 7, 6])]).unwrap();
    assert_eq!(bytes, vec![4, 0, 0, 0, 9, 8, 7, 6]);
}

#[test]
fn file_descriptors_travel_beside_the_payload() {
    let kinds = vec![ArgKind::Fd, ArgKind::Uint, ArgKind::Fd];
    let args = vec![Argument::Fd(9), Argument::Uint(1), Argument::Fd(4)];
    let (bytes, fds) = encode_args(&kinds, &args).unwrap();
    assert_eq!(bytes, vec![1, 0, 0, 0]);
    assert_eq!(fds, vec![9, 4]);
}

#[test]
fn no_arguments_encode_to_nothing() {
    let (bytes, fds) = encode_args(&Vec::new(), &Vec::new()).unwrap();
    assert!(bytes.is_empty());
    assert!(fds.is_empty());
}

#[test]
fn arguments_that_miss_the_signature_are_not_encoded() {
    let kinds = vec![ArgKind::Int, ArgKind::Str];
    assert_eq!(encode_args(&kinds, &vec![Argument::Int(1)]), None);
    assert_eq!(
        encode_args(&kinds, &vec![Argument::Int(1), text("a"), Argument::Int(2)]),
        None
    );
    assert_eq!(encode_args(&kinds, &vec![Argument::Uint(1), text("a")]), None);
    assert_eq!(encode_args(&kinds, &vec![text("a"), Argument::Int(1)]), None);
    assert_eq!(encode_args(&kinds, &vec![Argument::Int(1), Argument::Array(vec![b'a'])]), None);
    assert_eq!(encode_args(&Vec::new(), &vec![Argument::Int(1)]), None);
}

#[test]
fn fixed_and_int_are_different_kinds() {
    assert_eq!(encode_args(&vec![ArgKind::Fixed], &vec![Argument::Int(1)]), None);
    assert_eq!(encode_args(&vec![ArgKind::Object], &vec![Argument::Uint(1)]), None);
}

#[test]
fn every_kind_reads_back_as_it_was_written() {
    let kinds = vec![
        ArgKind::Int,
        ArgKind::Str,
        ArgKind::Fd,
        ArgKind::Array,
        ArgKind::Uint,
        ArgKind::Fixed,
        ArgKind::Object,
        ArgKind::Str,
        ArgKind::Fd,
    ];
    let args = vec![
        Argument::Int(-123_456),
        text("hello, world"),
        Argument::Fd(17),
        Argument::Array(vec![0, 255, 1, 254, 2]),
        Argument::Uint(0xdead_beef),
        Argument::Fixed(-1),
        Argument::Object(0xff00_0001),
        text(""),
        Argument::Fd(0),
    ];
    let (bytes, fds) = encode_args(&kinds, &args).unwrap();
    assert_eq!(bytes.len() % 4, 0);
    assert_eq!(decode_args(&kinds, &bytes, &fds), Some(args));
}

#[test]
fn a_string_may_hold_zero_bytes() {
    let kinds = vec![ArgKind::Str];
    let args = vec![Argument::Str(vec![b'a', 0, b'b'])];
    let (bytes, fds) = encode_args(&kinds, &args).unwrap();
    assert_eq!(bytes, vec![4, 0, 0, 0, b'a', 0, b'b', 0]);
    assert_eq!(decode_args(&kinds, &bytes, &fds), Some(args));
}

#[test]
fn decoding_reads_exact_values() {
    let kinds = vec![ArgKind::Uint, ArgKind::Int, ArgKind::Str];
    let bytes = vec![42, 0, 0, 0, 0xff, 0xff, 0xff, 0xff, 3, 0, 0, 0, b'h', b'i', 0, 0];
    assert_eq!(
        decode_args(&kinds, &bytes, &Vec::new()),
        Some(vec![Argument::Uint(42), Argument::Int(-1), text("hi")])
    );
}

#[test]
fn decoding_does_not_look_at_padding() {
    let bytes = vec![2, 0, 0, 0, b'x', 0, 7, 7];
    assert_eq!(decode_args(&vec![ArgKind::Str], &bytes, &Vec::new()), Some(vec![text("x")]));
    let bytes = vec![1, 0, 0, 0, 5, 9, 9, 9];
    assert_eq!(
        decode_args(&vec![ArgKind::Array], &bytes, &Vec::new()),
        Some(vec![Argument::Array(vec![5])])
    );
}

#[test]
fn a_payload_that_is_too_short_is_malformed() {
    assert_eq!(decode_args(&vec![ArgKind::Uint], &vec![1, 0, 0], &Vec::new()), None);
    assert_eq!(decode_args(&vec![ArgKind::Uint], &Vec::new(), &Vec::new()), None);
    assert_eq!(
        decode_args(&vec![ArgKind::Uint, ArgKind::Int], &vec![1, 0, 0, 0], &Vec::new()),
        None
    );
    assert_eq!(decode_args(&vec![ArgKind::Str], &vec![1, 0], &Vec::new()), None);
}

#[test]
fn bytes_left_over_are_malformed() {
    assert_eq!(decode_args(&vec![ArgKind::Uint], &vec![1, 0, 0, 0, 2, 0, 0, 0], &Vec::new()), None);
    assert_eq!(decode_args(&Vec::new(), &vec![0], &Vec::new()), None);
    assert_eq!(decode_args(&Vec::new(), &Vec::new(), &Vec::new()), Some(Vec::new()));
}

#[test]
fn content_that_runs_past_the_payload_is_malformed() {
    let bytes = vec![5, 0, 0, 0, 1, 2, 3, 4];
    assert_eq!(decode_args(&vec![ArgKind::Array], &bytes, &Vec::new()), None);
    let bytes = vec![5, 0, 0, 0, 1, 2, 3, 4, 5];
    assert_eq!(decode_args(&vec![ArgKind::Array], &bytes, &Vec::new()), None);
    let bytes = vec![0xff, 0xff, 0xff, 0xff, 1, 2, 3, 4];
    assert_eq!(decode_args(&vec![ArgKind::Array], &bytes, &Vec::new()), None);
    assert_eq!(decode_args(&vec![ArgKind::Str], &bytes, &Vec::new()), None);
}

#[test]
fn a_string_without_its_terminator_is_malformed() {
    let bytes = vec![3, 0, 0, 0, b'a', b'b', b'c', 0];
    assert_eq!(decode_args(&vec![ArgKind::Str], &bytes, &Vec::new()), None);
    let bytes = vec![0, 0, 0, 0];
    assert_eq!(decode_args(&vec![ArgKind::Str], &bytes, &Vec::new()), None);
    assert_eq!(
        decode_args(&vec![ArgKind::Array], &bytes, &Vec::new()),
        Some(vec![Argument::Array(Vec::new())])
    );
}

#[test]
fn file_descriptors_must_match_the_signature() {
    let kinds = vec![ArgKind::Fd];
    assert_eq!(decode_args(&kinds, &Vec::new(), &Vec::new()), None);
    assert_eq!(decode_args(&kinds, &Vec::new(), &vec![3, 4]), None);
    assert_eq!(decode_args(&kinds, &Vec::new(), &vec![3]), Some(vec![Argument::Fd(3)]));
    assert_eq!(decode_args(&vec![ArgKind::Uint], &vec![1, 0, 0, 0], &vec![3]), None);
}

#[test]
fn a_clone_is_equal_to_its_source() {
    let all = vec![
        Argument::Int(-5),
        Argument::Uint(5),
        Argument::Fixed(128),
        text("title"),
        Argument::Object(3),
        Argument::Array(vec![1, 2, 3]),
        Argument::Fd(4),
    ];
    for a in &all {
        assert_eq!(a.clone(), *a);
    }
    assert_eq!(all.clone(), all);
}

#[test]
fn words_are_written_least_significant_byte_first() {
    let kinds = vec![ArgKind::Uint, ArgKind::Uint, ArgKind::Object];
    let args = vec![Argument::Uint(0x0102_0304), Argument::Uint(42), Argument::Object(0x0a0b)];
    let (bytes, _) = encode_args(&kinds, &args).unwrap();
    assert_eq!(bytes, vec![0x04, 0x03, 0x02, 0x01, 42, 0, 0, 0, 0x0b, 0x0a, 0, 0]);
}

#[test]
fn words_are_read_where_they_start() {
    let kinds = vec![ArgKind::Uint, ArgKind::Uint];
    let bytes = vec![0x04, 0x03, 0x02, 0x01, 0xff, 0xff, 0xff, 0xff];
    assert_eq!(
        decode_args(&kinds, &bytes, &Vec::new()),
        Some(vec![Argument::Uint(0x0102_0304), Argument::Uint(u32::MAX)])
    );
}

#[test]
fn content_is_read_from_behind_its_length() {
    let kinds = vec![ArgKind::Uint, ArgKind::Str, ArgKind::Array, ArgKind::Uint];
    let bytes = vec![
        0, 0, 0, 0, 6, 0, 0, 0, b'h', b'e', b'l', b'l', b'o', 0, 0, 0, 2, 0, 0, 0, 8, 9, 0, 0, 1,
        0, 0, 0,
    ];
    assert_eq!(
        decode_args(&kinds, &bytes, &Vec::new()),
        Some(vec![
            Argument::Uint(0),
            text("hello"),
            Argument::Array(vec![8, 9]),
            Argument::Uint(1)
        ])
    );
}
