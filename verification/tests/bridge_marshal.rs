use buildlink::bridge::EmbeddedNulError;
use buildlink::bridge::RawArg;
use buildlink::bridge::marshal_args;
use buildlink::text::OwnedByteConversion;

fn args(v: &[&[u8]]) -> Vec<RawArg> {
    v.iter().map(|b| RawArg::from_vec(b.to_vec())).collect()
}

#[test]
fn embedded_nul_fails_fast_with_first_offender() {
    let r = marshal_args(&args(&[b"ok", b"a\0b", b"\0"]));
    assert_eq!(r, Err(EmbeddedNulError { index: 1 }));
}

#[test]
fn nul_only_argument_is_rejected() {
    let r = marshal_args(&args(&[b"\0"]));
    assert_eq!(r, Err(EmbeddedNulError { index: 0 }));
}

#[test]
fn buffers_are_byte_identical_and_null_terminated() {
    let invalid_text: Vec<u8> = vec![0xff, 0xfe, b'/'];
    let input = vec![
        RawArg::from_vec(invalid_text.clone()),
        RawArg::from_vec(b"path".to_vec()),
    ];
    let buffers = marshal_args(&input).unwrap();
    assert_eq!(buffers.len(), 2);
    assert_eq!(buffers[0], vec![0xff, 0xfe, b'/', 0]);
    assert_eq!(buffers[1], b"path\0".to_vec());
    for (arg, buffer) in [invalid_text, b"path".to_vec()].iter().zip(&buffers) {
        assert_eq!(buffer.len(), arg.len() + 1);
        assert_eq!(&buffer[..arg.len()], arg.as_slice());
        assert_eq!(buffer[arg.len()], 0);
    }
}

#[test]
fn no_arguments_marshal_to_no_buffers() {
    let buffers = marshal_args(&args(&[])).unwrap();
    assert_eq!(buffers.len(), 0);
}

#[test]
fn empty_argument_becomes_a_lone_terminator() {
    let buffers = marshal_args(&args(&[b""])).unwrap();
    assert_eq!(buffers, vec![vec![0u8]]);
}

#[test]
fn owned_byte_conversion_round_trips_raw_bytes() {
    let bytes: Vec<u8> = vec![0, 1, 2, 0xff, 0x80, b'x'];
    let arg = RawArg::from_vec(bytes.clone());
    assert_eq!(arg.into_vec(), bytes);
}
