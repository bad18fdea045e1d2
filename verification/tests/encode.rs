use texcompile::encode::encode_outcome;
use texcompile::errors::CompileError;

#[test]
fn known_rendering() {
    let encoded = encode_outcome(Ok(b"Man".to_vec())).expect("encoding should succeed");
    assert_eq!(encoded, "TWFu");
}

#[test]
fn padded_rendering() {
    let encoded = encode_outcome(Ok(b"M".to_vec())).expect("encoding should succeed");
    assert_eq!(encoded, "TQ==");
}

#[test]
fn empty_bytes_give_empty_text() {
    let encoded = encode_outcome(Ok(Vec::new())).expect("encoding should succeed");
    assert_eq!(encoded, "");
}

#[test]
fn errors_pass_through_unchanged() {
    let err = CompileError::CompilerExitFailed { stderr: String::from("! Bad box.") };
    match encode_outcome(Err(err)) {
        Err(CompileError::CompilerExitFailed { stderr }) => {
            assert_eq!(stderr, "! Bad box.");
        },
        other => panic!("unexpected result: {:?}", other),
    }
}
