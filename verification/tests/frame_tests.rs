use pseudo_lsp::frame::{decode_frame, encode_frame, DecodeError};

#[test]
fn a_frame_announces_the_length_of_its_content() {
    assert_eq!(encode_frame(b"{}"), b"Content-Length: 2\r\n\r\n{}".to_vec());
    assert_eq!(encode_frame(b""), b"Content-Length: 0\r\n\r\n".to_vec());
    assert_eq!(
        encode_frame(b"0123456789ab"),
        b"Content-Length: 12\r\n\r\n0123456789ab".to_vec()
    );
}

#[test]
fn long_contents_have_long_lengths() {
    let body = vec![b'x'; 12345];
    let frame = encode_frame(&body);
    assert!(frame.starts_with(b"Content-Length: 12345\r\n\r\n"));
    assert_eq!(frame.len(), 25 + 12345);
    assert_eq!(decode_frame(&frame), Ok(&body[..]));
}

#[test]
fn the_content_of_a_frame_is_what_follows_the_empty_line() {
    assert_eq!(decode_frame(b"Content-Length: 2\r\n\r\n{}"), Ok(&b"{}"[..]));
    assert_eq!(decode_frame(b"Content-Length: 0\r\n\r\n"), Ok(&b""[..]));
    assert_eq!(decode_frame(b"Content-Length: 4\r\n\r\n\r\n\r\n"), Ok(&b"\r\n\r\n"[..]));
    assert_eq!(decode_frame(b"Content-Length: 007\r\n\r\n1234567"), Ok(&b"1234567"[..]));
}

#[test]
fn other_headers_are_read_over() {
    let frame = b"Content-Type: application/vscode-jsonrpc; charset=utf-8\r\nContent-Length: 3\r\n\r\nabc";
    assert_eq!(decode_frame(frame), Ok(&b"abc"[..]));
    let frame = b"Content-Length: 3\r\nX-Other: 1: 2\r\n\r\nabc";
    assert_eq!(decode_frame(frame), Ok(&b"abc"[..]));
}

#[test]
fn the_last_length_counts() {
    assert_eq!(
        decode_frame(b"Content-Length: 9\r\nContent-Length: 1\r\n\r\nx"),
        Ok(&b"x"[..])
    );
}

#[test]
fn a_content_of_another_length_is_malformed() {
    assert_eq!(decode_frame(b"Content-Length: 3\r\n\r\n{}"), Err(DecodeError::MalformedFrame));
    assert_eq!(decode_frame(b"Content-Length: 1\r\n\r\n{}"), Err(DecodeError::MalformedFrame));
}

#[test]
fn a_broken_header_block_is_malformed() {
    for frame in [
        &b""[..],
        b"{}",
        b"\r\n\r\n{}",
        b"\r\n{}",
        b"Content-Length: 2\r\n{}",
        b"Content-Length: 2\n\n{}",
        b"Content-Length:2\r\n\r\n{}",
        b"Content-Length: \r\n\r\n",
        b"Content-Length: two\r\n\r\n{}",
        b"Content-Length: +2\r\n\r\n{}",
        b"Content-Length: 2 \r\n\r\n{}",
        b"Content-Length:  2\r\n\r\n{}",
        b"Content-Length: -0\r\n\r\n",
        b"content-length: 2\r\n\r\n{}",
        b"Content-Type: x\r\n\r\n",
        b"Content-Length: 2\r\nnonsense\r\n\r\n{}",
        b"Content-Length: 99999999999999999999999999\r\n\r\n{}",
    ] {
        assert_eq!(decode_frame(frame), Err(DecodeError::MalformedFrame), "for {:?}", frame);
    }
}

#[test]
fn a_frame_is_read_back_as_its_content() {
    let bodies: [&[u8]; 5] =
        [b"", b"{}", b"\r\n", b"Content-Length: 5\r\n\r\nhello", &[0u8, 255, 13, 10, 13, 10]];
    for body in bodies {
        assert_eq!(decode_frame(&encode_frame(body)), Ok(body));
    }
}
