use local_code::lsp::{decode_frame, encode_frame, language_id_for_path, FrameError};

#[test]
fn frame_encode_exact() {
    let f = encode_frame(b"{\"id\":1}");
    assert_eq!(f, b"Content-Length: 8\r\n\r\n{\"id\":1}".to_vec());
}

#[test]
fn frame_round_trip_with_trailing_bytes() {
    let body = "{\"jsonrpc\":\"2.0\",\"result\":\"é\"}".as_bytes();
    let mut buf = encode_frame(body);
    let used = buf.len();
    buf.extend_from_slice(b"Content-Length: 2\r\n\r\n{}");
    let (got, n) = decode_frame(&buf).unwrap().unwrap();
    assert_eq!(got, body.to_vec());
    assert_eq!(n, used);
    let (second, m) = decode_frame(&buf[n..]).unwrap().unwrap();
    assert_eq!(second, b"{}".to_vec());
    assert_eq!(m, buf.len() - n);
}

#[test]
fn frame_tolerates_log_lines_and_whitespace() {
    let buf = b"server starting\nContent-Length:   3  \r\nContent-Type: x\r\n\r\nabcdef";
    let (got, n) = decode_frame(buf).unwrap().unwrap();
    assert_eq!(got, b"abc".to_vec());
    assert_eq!(n, buf.len() - 3);
}

#[test]
fn frame_incomplete_and_bad_length() {
    assert_eq!(decode_frame(b"Content-Length: 10\r\n\r\nabc"), Ok(None));
    assert_eq!(decode_frame(b"Content-Len"), Ok(None));
    assert_eq!(decode_frame(b"Content-Length: x1\r\n\r\n"), Err(FrameError::BadLength));
}

#[test]
fn language_ids() {
    assert_eq!(language_id_for_path("src/main.rs"), "rust");
    assert_eq!(language_id_for_path("a/b.tsx"), "typescriptreact");
    assert_eq!(language_id_for_path("x.hpp"), "cpp");
    assert_eq!(language_id_for_path("conf.yml"), "yaml");
    assert_eq!(language_id_for_path("Makefile"), "plaintext");
    assert_eq!(language_id_for_path(".bashrc"), "plaintext");
    assert_eq!(language_id_for_path("dir.rs/file"), "plaintext");
}
