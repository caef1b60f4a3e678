use shovel::codec::{
    append, encode_string, read_frame, read_var_int, size_var_int, take_body, write_frame, write_var_int,
    CodecError, VarIntReader, VarIntStep, STRING_DEFAULT_CAP,
};

fn var_int(v: i32) -> Vec<u8> {
    let mut buffer = Vec::new();
    write_var_int(&mut buffer, v);
    buffer
}

#[test]
fn var_ints_have_their_known_bytes() {
    let known: [(i32, &[u8]); 11] = [
        (0, &[0x00]),
        (1, &[0x01]),
        (127, &[0x7f]),
        (128, &[0x80, 0x01]),
        (255, &[0xff, 0x01]),
        (25565, &[0xdd, 0xc7, 0x01]),
        (2097151, &[0xff, 0xff, 0x7f]),
        (2147483647, &[0xff, 0xff, 0xff, 0xff, 0x07]),
        (-1, &[0xff, 0xff, 0xff, 0xff, 0x0f]),
        (-2147483648, &[0x80, 0x80, 0x80, 0x80, 0x08]),
        (300, &[0xac, 0x02]),
    ];
    for (v, bytes) in known {
        assert_eq!(var_int(v), bytes);
        assert_eq!(size_var_int(v), bytes.len());
        assert_eq!(read_var_int(bytes), Ok((v, bytes.len())));
    }
}

#[test]
fn var_ints_read_back_whatever_follows() {
    for v in [0, 5, -5, 1 << 20, i32::MIN, i32::MAX] {
        let mut bytes = var_int(v);
        let count = bytes.len();
        bytes.extend_from_slice(&[0xff, 0x00, 0x80]);
        assert_eq!(read_var_int(&bytes), Ok((v, count)));
    }
}

#[test]
fn var_ints_that_end_early_are_refused() {
    assert_eq!(read_var_int(&[]), Err(CodecError::EndOfInput));
    assert_eq!(read_var_int(&[0x80, 0x80]), Err(CodecError::EndOfInput));
}

#[test]
fn var_ints_that_are_too_long_are_refused() {
    assert_eq!(
        read_var_int(&[0xff, 0xff, 0xff, 0xff, 0xff, 0x01]),
        Err(CodecError::VarNumTooLarge)
    );
}

#[test]
fn var_ints_are_read_byte_by_byte() {
    let mut reader = VarIntReader::new();
    assert_eq!(reader.push(0xdd), VarIntStep::More);
    assert_eq!(reader.push(0xc7), VarIntStep::More);
    assert_eq!(reader.push(0x01), VarIntStep::Done { value: 25565 });

    let mut reader = VarIntReader::new();
    for _ in 0..4 {
        assert_eq!(reader.push(0x80), VarIntStep::More);
    }
    assert_eq!(reader.push(0x80), VarIntStep::TooLarge);
}

#[test]
fn frames_read_back() {
    let body = vec![1, 2, 3, 4, 5];
    let mut framed = write_frame(body.len(), &body);
    assert_eq!(framed, vec![5, 1, 2, 3, 4, 5]);
    framed.push(9);
    assert_eq!(read_frame(&framed), Ok((body, 6)));
}

#[test]
fn frames_that_end_early_are_refused() {
    assert_eq!(read_frame(&[5, 1, 2]), Err(CodecError::PacketSizeMismatch));
    assert_eq!(read_frame(&[]), Err(CodecError::EndOfInput));
}

#[test]
fn texts_are_preceded_by_their_length() {
    assert_eq!(encode_string("abc"), Ok(vec![3, 97, 98, 99]));
    assert_eq!(encode_string(""), Ok(vec![0]));
    assert_eq!(encode_string("\u{e9}"), Ok(vec![2, 0xc3, 0xa9]));
}

#[test]
fn texts_that_are_too_long_are_refused() {
    let longest = "a".repeat(STRING_DEFAULT_CAP as usize);
    assert!(encode_string(&longest).is_ok());
    let longer = "a".repeat(STRING_DEFAULT_CAP as usize + 1);
    assert_eq!(encode_string(&longer), Err(CodecError::LimitExceeded));
}

#[test]
fn bytes_are_appended() {
    let mut buffer = vec![1];
    append(&mut buffer, &[2, 3]);
    assert_eq!(buffer, vec![1, 2, 3]);
}

#[test]
fn bodies_are_as_long_as_they_say() {
    assert_eq!(take_body(2, vec![7, 8]), Ok(vec![7, 8]));
    assert_eq!(take_body(3, vec![7, 8]), Err(CodecError::PacketSizeMismatch));
    assert_eq!(take_body(0, vec![]), Ok(vec![]));
}

#[test]
fn frames_that_are_cut_short_are_refused() {
    let framed = write_frame(200, &[9; 200]);
    assert_eq!(framed.len(), 202);
    for kept in 0..framed.len() {
        let expected =
            if kept < 2 { CodecError::EndOfInput } else { CodecError::PacketSizeMismatch };
        assert_eq!(read_frame(&framed[..kept]), Err(expected));
    }
}

#[test]
fn frames_are_read_back_in_order() {
    let mut stream = write_frame(3, &[1, 2, 3]);
    append(&mut stream, &write_frame(0, &[]));
    append(&mut stream, &write_frame(1, &[4]));
    append(&mut stream, &[0x80]);
    let mut at = 0;
    for expected in [vec![1, 2, 3], vec![], vec![4]] {
        let (body, count) = read_frame(&stream[at..]).unwrap();
        assert_eq!(body, expected);
        at += count;
    }
    assert_eq!(&stream[at..], &[0x80]);
}
