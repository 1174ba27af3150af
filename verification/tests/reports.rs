use bpf_verifier::bpf::instruction::Reg;
use bpf_verifier::elf::parser::{parse_elf, ParseError, SourceLoc};
use bpf_verifier::kverify::error::{can_format_errors, error_report, format_errors, ErrorKind, ErrorReport, Hue, VerifyError};
use bpf_verifier::verify::diagnostic::{insn_line_readable, r0_origin_readable, Diagnostic, FailedStage, SpecPostcondition};
use bpf_verifier::verify::runner::VerifyError as RunError;

fn loc(file: &str, path: &str, line: u32) -> SourceLoc {
    SourceLoc { file: file.to_string(), path: path.to_string(), line }
}

#[test]
fn plain_reports_without_source() {
    let errors = vec![
        VerifyError { pc: 3, kind: ErrorKind::UninitReturn, source_loc: None },
        VerifyError { pc: 12, kind: ErrorKind::DivByZero { divisor_reg: Reg::R2 }, source_loc: Some(loc("p.c", "/x/p.c", 9)) },
    ];
    let out = format_errors(&errors, &[], &[]);
    assert_eq!(
        out,
        "error[E0017]: r0 not written before exit\n  --> insn #3\n\n\
         error[E0011]: division by r2 which may be zero\n  --> insn #12\n  = source: p.c:9\n\n"
    );
}

#[test]
fn no_errors_no_report() {
    assert_eq!(format_errors(&[], &[], &[]), "");
}

#[test]
fn location_comes_from_the_instruction() {
    let errors = vec![VerifyError { pc: 1, kind: ErrorKind::FallThrough, source_loc: None }];
    let locs = vec![None, Some(loc("q.c", "/q.c", 5))];
    let out = format_errors(&errors, &locs, &[]);
    assert!(out.ends_with("  --> insn #1\n  = source: q.c:5\n\n"));
}

#[test]
fn drawn_report_marks_the_error_and_origin_lines() {
    let src = "int a;\nint b = *p;\n".to_string();
    let origin_src = "void *p = lookup();\n".to_string();
    let e = VerifyError {
        pc: 7,
        kind: ErrorKind::NullPointerDeref { reg: Reg::R1, origin_pc: Some(2), origin_loc: Some(loc("o.c", "/o.c", 1)) },
        source_loc: Some(loc("m.c", "/m.c", 2)),
    };
    let srcs = vec![("/m.c".to_string(), src.clone()), ("/o.c".to_string(), origin_src.clone())];
    match error_report(&e, &[], &srcs) {
        ErrorReport::Drawn(d) => {
            assert_eq!(d.path, "/m.c");
            assert_eq!((d.start, d.end), (7, 18));
            assert_eq!(d.note, "insn #7");
            assert_eq!(d.labels.len(), 2);
            assert_eq!(d.labels[0].message, "r1 may be null here");
            assert!(matches!(d.labels[0].hue, Hue::Red));
            assert_eq!((d.labels[1].source.as_str(), d.labels[1].start, d.labels[1].end), ("/o.c", 0, 19));
            assert_eq!(d.labels[1].message, "returns a possibly-null pointer");
            assert!(matches!(d.labels[1].hue, Hue::Yellow));
            assert_eq!(d.texts, srcs);
        }
        ErrorReport::Plain(_) => panic!("expected a drawn report"),
    }
    assert!(can_format_errors(&[e.clone()], &[], &srcs));
    let out = format_errors(&[e], &[], &srcs);
    assert!(out.contains("insn #7"));
    assert!(out.contains("r1 may be null here"));
}

#[test]
fn drawn_and_plain_reports_follow_in_order() {
    let src = "int a;\nint b = *p;\n".to_string();
    let drawn = VerifyError {
        pc: 7,
        kind: ErrorKind::NullPointerDeref { reg: Reg::R1, origin_pc: None, origin_loc: None },
        source_loc: Some(loc("m.c", "/m.c", 2)),
    };
    let plain = VerifyError { pc: 3, kind: ErrorKind::UninitReturn, source_loc: None };
    let srcs = vec![("/m.c".to_string(), src)];
    let message = match error_report(&drawn, &[], &srcs) {
        ErrorReport::Drawn(d) => d.message,
        ErrorReport::Plain(_) => panic!("expected a drawn report"),
    };
    let out = format_errors(&[drawn, plain], &[], &srcs);
    let bare = format!("Error: {}\n", message);
    let painted = format!("\u{1b}[31mError:\u{1b}[0m {}\n", message);
    assert!(out.starts_with(&bare) || out.starts_with(&painted));
    assert!(out.ends_with("error[E0017]: r0 not written before exit\n  --> insn #3\n\n"));
}

#[test]
fn first_source_for_a_path_counts() {
    let e = VerifyError { pc: 0, kind: ErrorKind::UninitReturn, source_loc: Some(loc("m.c", "/m.c", 1)) };
    let srcs = vec![("/m.c".to_string(), "first\n".to_string()), ("/m.c".to_string(), "second line\n".to_string())];
    match error_report(&e, &[], &srcs) {
        ErrorReport::Drawn(d) => {
            assert_eq!((d.start, d.end), (0, 5));
            assert_eq!(d.texts[0].1, "first\n");
        }
        ErrorReport::Plain(_) => panic!("expected a drawn report"),
    }
}

#[test]
fn line_past_unterminated_source_cannot_be_drawn() {
    let e = VerifyError { pc: 0, kind: ErrorKind::UninitReturn, source_loc: Some(loc("m.c", "/m.c", 5)) };
    let srcs = vec![("/m.c".to_string(), "one line".to_string())];
    assert!(!can_format_errors(&[e.clone()], &[], &srcs));
    let ok = vec![("/m.c".to_string(), "one line\n".to_string())];
    assert!(can_format_errors(&[e], &[], &ok));
}

#[test]
fn diagnostic_line_past_end_cannot_be_drawn() {
    let diag = Diagnostic {
        stage: FailedStage::FunctionalCorrectness,
        r0_origin: None,
        spec_file: None,
        spec_content: Some("let spec =\n  x".to_string()),
        spec_postcondition: Some(SpecPostcondition { start_line: 2, end_line: 3, text: "  x".to_string() }),
        spec_error_line: None,
        c_source_file: None,
        c_source_content: None,
        c_source_line: None,
        normalised_goal: None,
        conjuncts: vec![],
    };
    assert!(!diag.can_format());
}

#[test]
fn short_comment_on_the_instruction_line_is_found() {
    assert!(insn_line_readable("BPF_EXIT (* prog.c:3 *)\n", 0));
    assert!(!insn_line_readable("ok\n  BPF_EXIT (* *)\n", 0));
    assert!(insn_line_readable("  BPF_MOV (* *);\n  BPF_EXIT (* p.c:2 *)\n", 1));
    assert!(insn_line_readable("  BPF_EXIT (* *)\n", 4));
}

#[test]
fn r0_origin_line_must_be_readable() {
    let stderr = &[
        "proof-state: State dump @ depth 0 (R0_ORIGIN):\n",
        "Location: Verify_test.fst(42,2-42,25)\n",
        "Goal 1/1\n",
        "\n",
        "  |- _ : squash (forall (init: bpf_state). 0 == 0)\n",
        "\n",
        "proof-state: State dump @ depth 0 (NORMALISED_GOAL):\n",
        "Location: Verify_test.fst(61,2-61,35)\n",
        "Goal 1/1\n",
        "\n",
        "  |-\n",
        "  _\n",
        "  :\n",
        "  squash (Scalar 1uL == Scalar 5uL)\n",
        "\n",
        r#"{"msg":["Assertion failed"],"level":"Error","number":19,"ctx":["While typechecking the top-level declaration `let proof`"]}"#,
        "\n",
    ]
    .concat();
    assert!(!r0_origin_readable(stderr, "  BPF_EXIT (* *)\n"));
    assert!(r0_origin_readable(stderr, "  BPF_EXIT (* p.c:1 *)\n  BPF_EXIT (* *)\n"));
    assert!(r0_origin_readable("no failure here\n", "  BPF_EXIT (* *)\n"));
}

#[test]
fn parse_error_texts() {
    assert_eq!(ParseError::NoProgramSections.message(), "no BPF program sections found");
    assert_eq!(
        ParseError::UnalignedSection("xdp".to_string()).message(),
        "section 'xdp' data is not aligned to 8 bytes"
    );
    match parse_elf(b"not an elf file") {
        Err(e) => {
            assert!(matches!(e, ParseError::Elf(_)));
            assert!(e.message().starts_with("ELF parse error: "));
        }
        Ok(_) => panic!("expected an error"),
    }
}

#[test]
fn runner_error_texts() {
    assert_eq!(RunError::FstarNotFound("/opt/fstar.exe".to_string()).message(), "F* binary not found at /opt/fstar.exe");
    assert_eq!(RunError::FstarInvocation("denied".to_string()).message(), "failed to invoke F*: denied");
}
