use texcompile::encode::encode_outcome;
use texcompile::errors::CompileError;
use texcompile::machine::{cleanup_failures, init, is_done, next_action, step, Action, CompileState, Event};

fn bytes(s: &str) -> Vec<u8> {
    s.as_bytes().to_vec()
}

#[test]
fn success_round_trip() {
    let pdf: Vec<u8> = bytes("%PDF-1.4 fake body with enough bytes");
    let mut st = init(String::from("\\documentclass{article}"));

    match next_action(&st) {
        Some(Action::Stage { contents }) => {
            assert_eq!(contents, "\\documentclass{article}\n");
        },
        a => panic!("unexpected action: {:?}", a),
    }
    st = step(st, Event::StageOk { path: bytes("/tmp/.tmpXy42.tex") });

    match next_action(&st) {
        Some(Action::RunCompiler { source_path }) => {
            assert_eq!(source_path, bytes("/tmp/.tmpXy42.tex"));
        },
        a => panic!("unexpected action: {:?}", a),
    }
    st = step(st, Event::CompilerFinished { exit_ok: true, stderr: String::new() });

    match next_action(&st) {
        Some(Action::ReadFile { path }) => {
            assert_eq!(path, bytes("/tmp/.tmpXy42.pdf"));
        },
        a => panic!("unexpected action: {:?}", a),
    }
    st = step(st, Event::FileRead { bytes: pdf.clone() });

    match next_action(&st) {
        Some(Action::DeleteFile { path }) => {
            assert_eq!(path, bytes("/tmp/.tmpXy42.tex"));
        },
        a => panic!("unexpected action: {:?}", a),
    }
    st = step(st, Event::DeleteOk);

    match next_action(&st) {
        Some(Action::DeleteFile { path }) => {
            assert_eq!(path, bytes("/tmp/.tmpXy42.pdf"));
        },
        a => panic!("unexpected action: {:?}", a),
    }
    st = step(st, Event::DeleteOk);

    assert!(is_done(&st));
    match st {
        CompileState::Done { outcome, failed_source, failed_output } => {
            assert!(failed_source.is_none());
            assert!(failed_output.is_none());
            let harvested = outcome.as_ref().expect("outcome should be Ok").clone();
            assert_eq!(harvested, pdf);
            let encoded = encode_outcome(outcome).expect("encoding should succeed");
            assert!(!encoded.is_empty());
            let decoded = base64::Engine::decode(
                &base64::engine::general_purpose::STANDARD,
                encoded.as_bytes(),
            )
            .expect("the encoded text should decode again");
            assert_eq!(decoded, pdf);
            assert!(decoded.starts_with(b"%PDF"));
        },
        other => panic!("not done: {:?}", other),
    }
}

fn run_to_done(source: &str, staged_path: &str, compiler: &dyn Fn(&[u8]) -> Event) -> CompileState {
    let mut st = init(String::from(source));
    loop {
        let action = match next_action(&st) {
            Some(a) => a,
            None => return st,
        };
        let event = match action {
            Action::Stage { .. } => Event::StageOk { path: bytes(staged_path) },
            Action::RunCompiler { source_path } => compiler(&source_path),
            Action::ReadFile { .. } => Event::FileReadFailed {
                message: String::from("no output was produced"),
            },
            Action::DeleteFile { .. } => Event::DeleteOk,
        };
        st = step(st, event);
    }
}

#[test]
fn diagnostic_pass_through() {
    let stderr_text = "! Undefined control sequence.\nl.1 \\nosuchthing";
    let st = run_to_done("bad input", "/tmp/.tmpA1.tex", &|_p| Event::CompilerFinished {
        exit_ok: false,
        stderr: String::from(stderr_text),
    });
    match st {
        CompileState::Done { outcome, failed_source, failed_output } => {
            assert!(failed_source.is_none());
            assert!(failed_output.is_none());
            match outcome {
                Err(CompileError::CompilerExitFailed { stderr }) => {
                    assert_eq!(stderr, stderr_text);
                },
                other => panic!("unexpected outcome: {:?}", other),
            }
        },
        other => panic!("not done: {:?}", other),
    }
}

#[test]
fn failure_is_repeatable() {
    let stderr_text = "! Emergency stop.";
    let mut kinds: Vec<String> = Vec::new();
    for _ in 0..2 {
        let st = run_to_done("same bad input", "/tmp/.tmpB2.tex", &|_p| {
            Event::CompilerFinished { exit_ok: false, stderr: String::from(stderr_text) }
        });
        match st {
            CompileState::Done { outcome: Err(CompileError::CompilerExitFailed { stderr }), .. } => {
                kinds.push(stderr);
            },
            other => panic!("unexpected end state: {:?}", other),
        }
    }
    assert_eq!(kinds[0], kinds[1]);
}

#[test]
fn launch_failure_is_isolated() {
    let mut st = init(String::from("anything"));
    let mut deletes: Vec<Vec<u8>> = Vec::new();
    let mut saw_read = false;
    loop {
        let action = match next_action(&st) {
            Some(a) => a,
            None => break,
        };
        let event = match action {
            Action::Stage { .. } => Event::StageOk { path: bytes("/tmp/.tmpC3.tex") },
            Action::RunCompiler { .. } => Event::LaunchFailed {
                message: String::from("Failed to run latexmk: No such file or directory"),
            },
            Action::ReadFile { .. } => {
                saw_read = true;
                Event::FileReadFailed { message: String::new() }
            },
            Action::DeleteFile { path } => {
                deletes.push(path);
                Event::DeleteOk
            },
        };
        st = step(st, event);
    }
    assert!(!saw_read);
    assert_eq!(deletes, vec![bytes("/tmp/.tmpC3.tex")]);
    match st {
        CompileState::Done { outcome, .. } => {
            assert!(matches!(outcome, Err(CompileError::CompilerLaunchFailed { .. })));
        },
        other => panic!("not done: {:?}", other),
    }
}

#[test]
fn stage_create_failure_ends_at_once() {
    let mut st = init(String::from("anything"));
    st = step(st, Event::StageCreateFailed {
        message: String::from("Failed to create temp file: permission denied"),
    });
    assert!(is_done(&st));
    assert!(next_action(&st).is_none());
    match st {
        CompileState::Done { outcome, failed_source, failed_output } => {
            assert!(failed_source.is_none());
            assert!(failed_output.is_none());
            match outcome {
                Err(CompileError::TempFileCreateFailed { message }) => {
                    assert_eq!(message, "Failed to create temp file: permission denied");
                },
                other => panic!("unexpected outcome: {:?}", other),
            }
        },
        other => panic!("not done: {:?}", other),
    }
}

#[test]
fn stage_write_failure_ends_at_once() {
    let mut st = init(String::from("anything"));
    st = step(st, Event::StageWriteFailed { message: String::from("disk full") });
    match st {
        CompileState::Done { outcome, .. } => {
            assert!(matches!(outcome, Err(CompileError::TempFileWriteFailed { .. })));
        },
        other => panic!("not done: {:?}", other),
    }
}

#[test]
fn missing_output_still_cleans_both() {
    let mut st = init(String::from("ok input, broken compiler"));
    let mut deletes: Vec<Vec<u8>> = Vec::new();
    loop {
        let action = match next_action(&st) {
            Some(a) => a,
            None => break,
        };
        let event = match action {
            Action::Stage { .. } => Event::StageOk { path: bytes("/tmp/.tmpD4.tex") },
            Action::RunCompiler { .. } => Event::CompilerFinished {
                exit_ok: true,
                stderr: String::new(),
            },
            Action::ReadFile { .. } => Event::FileReadFailed {
                message: String::from("Failed to read PDF file: No such file or directory"),
            },
            Action::DeleteFile { path } => {
                deletes.push(path);
                Event::DeleteOk
            },
        };
        st = step(st, event);
    }
    assert_eq!(deletes, vec![bytes("/tmp/.tmpD4.tex"), bytes("/tmp/.tmpD4.pdf")]);
    match st {
        CompileState::Done { outcome, .. } => {
            assert!(matches!(outcome, Err(CompileError::OutputReadFailed { .. })));
        },
        other => panic!("not done: {:?}", other),
    }
}

#[test]
fn cleanup_failure_reports_but_keeps_result() {
    let pdf = bytes("%PDF-1.4 result");
    let mut st = init(String::from("fine"));
    st = step(st, Event::StageOk { path: bytes("/tmp/.tmpE5.tex") });
    st = step(st, Event::CompilerFinished { exit_ok: true, stderr: String::new() });
    st = step(st, Event::FileRead { bytes: pdf.clone() });
    st = step(st, Event::DeleteFailed);
    st = step(st, Event::DeleteOk);
    match st {
        CompileState::Done { outcome, failed_source, failed_output } => {
            assert_eq!(failed_source, Some(bytes("/tmp/.tmpE5.tex")));
            assert!(failed_output.is_none());
            assert_eq!(outcome.expect("result must not be masked by cleanup"), pdf);
        },
        other => panic!("not done: {:?}", other),
    }
}

#[test]
fn cleanup_failure_on_output_is_recorded() {
    let pdf = bytes("%PDF-1.4 result");
    let mut st = init(String::from("fine"));
    st = step(st, Event::StageOk { path: bytes("/tmp/.tmpF6.tex") });
    st = step(st, Event::CompilerFinished { exit_ok: true, stderr: String::new() });
    st = step(st, Event::FileRead { bytes: pdf.clone() });
    st = step(st, Event::DeleteOk);
    st = step(st, Event::DeleteFailed);
    match st {
        CompileState::Done { outcome, failed_source, failed_output } => {
            assert!(failed_source.is_none());
            assert_eq!(failed_output, Some(bytes("/tmp/.tmpF6.pdf")));
            assert_eq!(outcome.expect("result must not be masked by cleanup"), pdf);
        },
        other => panic!("not done: {:?}", other),
    }
}

#[test]
fn concurrent_runs_stay_independent() {
    let pdf_one = bytes("%PDF-1.4 first document");
    let pdf_two = bytes("%PDF-1.4 second document");
    let mut one = init(String::from("first input"));
    let mut two = init(String::from("second input"));

    one = step(one, Event::StageOk { path: bytes("/tmp/.tmpG7.tex") });
    two = step(two, Event::StageOk { path: bytes("/tmp/.tmpH8.tex") });

    match next_action(&one) {
        Some(Action::RunCompiler { source_path }) => {
            assert_eq!(source_path, bytes("/tmp/.tmpG7.tex"));
        },
        a => panic!("unexpected action: {:?}", a),
    }
    match next_action(&two) {
        Some(Action::RunCompiler { source_path }) => {
            assert_eq!(source_path, bytes("/tmp/.tmpH8.tex"));
        },
        a => panic!("unexpected action: {:?}", a),
    }

    one = step(one, Event::CompilerFinished { exit_ok: true, stderr: String::new() });
    two = step(two, Event::CompilerFinished { exit_ok: true, stderr: String::new() });

    match next_action(&two) {
        Some(Action::ReadFile { path }) => assert_eq!(path, bytes("/tmp/.tmpH8.pdf")),
        a => panic!("unexpected action: {:?}", a),
    }
    two = step(two, Event::FileRead { bytes: pdf_two.clone() });
    one = step(one, Event::FileRead { bytes: pdf_one.clone() });

    one = step(one, Event::DeleteOk);
    two = step(two, Event::DeleteOk);
    one = step(one, Event::DeleteOk);
    two = step(two, Event::DeleteOk);

    match (one, two) {
        (
            CompileState::Done { outcome: Ok(first), .. },
            CompileState::Done { outcome: Ok(second), .. },
        ) => {
            assert_eq!(first, pdf_one);
            assert_eq!(second, pdf_two);
        },
        other => panic!("unexpected end states: {:?}", other),
    }
}

#[test]
fn cleanup_report_becomes_errors() {
    let failures = cleanup_failures(Some(bytes("/tmp/.tmpI9.tex")), Some(bytes("/tmp/.tmpI9.pdf")));
    assert_eq!(failures.len(), 2);
    assert!(matches!(
        &failures[0],
        CompileError::CleanupFailed { path } if *path == bytes("/tmp/.tmpI9.tex")
    ));
    assert!(matches!(
        &failures[1],
        CompileError::CleanupFailed { path } if *path == bytes("/tmp/.tmpI9.pdf")
    ));
    assert!(cleanup_failures(None, None).is_empty());
}
