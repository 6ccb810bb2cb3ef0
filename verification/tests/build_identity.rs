use lab_runtime::build_identity::{
    hash_bytes, hash_chunks, RuntimeBinaryIdentityError, Sha256Stream, HASH_BUFFER_BYTES,
};
use sha2::{Digest, Sha256};
use std::io::{Cursor, Read};

fn hash_reader(mut reader: impl Read) -> std::io::Result<[u8; 32]> {
    let mut stream = Sha256Stream::new();
    let mut buffer = vec![0u8; HASH_BUFFER_BYTES];
    loop {
        let read = reader.read(&mut buffer)?;
        if stream.absorb_read(&buffer, read) {
            break;
        }
    }
    Ok(stream.finalize())
}

#[test]
fn streaming_build_identity_is_stable_and_distinguishes_exact_bytes() {
    let first = hash_reader(Cursor::new(b"runtime build A")).unwrap();
    let again = hash_reader(Cursor::new(b"runtime build A")).unwrap();
    let second = hash_reader(Cursor::new(b"runtime build B")).unwrap();
    assert_eq!(first, again);
    assert_ne!(first, second);
    let expected: [u8; 32] = Sha256::digest(b"runtime build A").into();
    assert_eq!(first, expected);
}

#[test]
fn chunked_stream_equals_one_shot_digest() {
    let whole: Vec<u8> = (0..200u8).collect();
    let chunks = vec![whole[..7].to_vec(), Vec::new(), whole[7..150].to_vec(), whole[150..].to_vec()];
    let expected: [u8; 32] = Sha256::digest(&whole).into();
    assert_eq!(hash_chunks(&chunks), expected);
    assert_eq!(hash_bytes(&whole), expected);
}

#[test]
fn empty_input_has_the_standard_digest() {
    let expected = [
        0xe3, 0xb0, 0xc4, 0x42, 0x98, 0xfc, 0x1c, 0x14, 0x9a, 0xfb, 0xf4, 0xc8, 0x99, 0x6f, 0xb9,
        0x24, 0x27, 0xae, 0x41, 0xe4, 0x64, 0x9b, 0x93, 0x4c, 0xa4, 0x95, 0x99, 0x1b, 0x78, 0x52,
        0xb8, 0x55,
    ];
    assert_eq!(hash_bytes(&[]), expected);
    assert_eq!(Sha256Stream::new().finalize(), expected);
}

#[test]
fn identity_errors_describe_themselves() {
    assert_eq!(
        RuntimeBinaryIdentityError::CurrentExecutable.message(),
        "current executable identity unavailable"
    );
    assert_eq!(
        RuntimeBinaryIdentityError::Open.message(),
        "current executable could not be opened"
    );
    assert_eq!(
        RuntimeBinaryIdentityError::Read.message(),
        "current executable could not be hashed"
    );
}
