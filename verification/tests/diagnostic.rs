use bpf_verifier::verify::diagnostic::{
    extract_instruction_at_pc, extract_postcondition, extract_r0_origin, line_to_byte_offset, parse_conjuncts,
    parse_dumps, parse_failed_stage, simplify_conjunct, ConjunctInfo, Diagnostic, DumpBlock, FailedStage,
    InstructionInfo, SpecPostcondition,
};
#[test]
fn parse_normalised_goal_dump() {
    let stderr = r#"proof-state: State dump @ depth 0 (NORMALISED_GOAL):
Location: Verify_test.fst(61,2-61,35)
Goal 1/1

  |-
  _
  :
  squash (forall (init: bpf_state).
    l_True ==> Scalar 1uL == Scalar 0uL \/ Scalar 1uL == Scalar 5uL)

* Error 19 at /tmp/Verify_test.fst(61,2-61,3):
  - Assertion failed
"#;
    let dumps = parse_dumps(stderr);
    assert_eq!(dumps.len(), 1);
    assert_eq!(dumps[0].label, "NORMALISED_GOAL");
    assert!(dumps[0].goal.contains("Scalar 1uL == Scalar 0uL"));
}

#[test]
fn parse_multiple_dumps() {
    let stderr = r#"proof-state: State dump @ depth 0 (TYPE_SAFETY_GOAL):
Location: Verify_test.fst(49,2-49,26)
Goal 1/1

  |- _ : squash (true == true)

proof-state: State dump @ depth 0 (NULL_SAFETY_GOAL):
Location: Verify_test.fst(55,2-55,26)
Goal 1/1

  |- _ : squash (true == true)

proof-state: State dump @ depth 0 (NORMALISED_GOAL):
Location: Verify_test.fst(61,2-61,35)
Goal 1/1

  |-
  _
  :
  squash (forall (init: bpf_state).
    l_True ==> Scalar 1uL == Scalar 0uL \/ Scalar 1uL == Scalar 5uL)

* Error 19 at /tmp/Verify_test.fst(61,2-61,3):
"#;
    let dumps = parse_dumps(stderr);
    assert_eq!(dumps.len(), 3);
    assert_eq!(dumps[0].label, "TYPE_SAFETY_GOAL");
    assert_eq!(dumps[1].label, "NULL_SAFETY_GOAL");
    assert_eq!(dumps[2].label, "NORMALISED_GOAL");
    assert!(dumps[0].goal.contains("true == true"));
    assert!(dumps[2].goal.contains("Scalar 1uL"));
}

#[test]
fn identify_failed_proof_from_json() {
    let stderr = r#"{"msg":["Assertion failed"],"level":"Error","number":19,"range":{"def":{"file_name":"/tmp/Verify_test.fst","start_pos":{"line":61,"col":2},"end_pos":{"line":61,"col":35}},"use":{"file_name":"/tmp/Verify_test.fst","start_pos":{"line":61,"col":2},"end_pos":{"line":61,"col":3}}},"number":19,"ctx":["While synthesizing term with a tactic","While typechecking the top-level declaration `let proof`"]}"#;
    let stage = parse_failed_stage(stderr);
    assert_eq!(stage, Some(FailedStage::FunctionalCorrectness));
}

#[test]
fn identify_type_safety_failure() {
    let stderr = r#"{"msg":["tactic failed"],"level":"Error","number":228,"ctx":["While typechecking the top-level declaration `let ts_proof`"]}"#;
    let stage = parse_failed_stage(stderr);
    assert_eq!(stage, Some(FailedStage::TypeSafety));
}

#[test]
fn identify_null_safety_failure() {
    let stderr = r#"{"msg":["tactic failed"],"level":"Error","number":228,"ctx":["While typechecking the top-level declaration `let ns_proof`"]}"#;
    let stage = parse_failed_stage(stderr);
    assert_eq!(stage, Some(FailedStage::NullSafety));
}

#[test]
fn identify_stack_bounds_failure() {
    let stderr = r#"{"msg":["tactic failed"],"level":"Error","number":228,"ctx":["While typechecking the top-level declaration `let sb_proof`"]}"#;
    let stage = parse_failed_stage(stderr);
    assert_eq!(stage, Some(FailedStage::StackBounds));
}

#[test]
fn parse_mixed_json_and_dumps() {
    let stderr = r#"proof-state: State dump @ depth 0 (NORMALISED_GOAL):
Location: Verify_test.fst(61,2-61,35)
Goal 1/1

  |- _ : squash (true == true)

{"msg":["Assertion failed"],"level":"Error","number":19,"ctx":["While synthesizing term with a tactic","While typechecking the top-level declaration `let proof`"]}
"#;
    let stage = parse_failed_stage(stderr);
    assert_eq!(stage, Some(FailedStage::FunctionalCorrectness));
}

#[test]
fn ignore_warnings() {
    let stderr = r#"{"msg":["Deprecated"],"level":"Warning","ctx":["While typechecking the top-level declaration `let proof`"]}"#;
    let stage = parse_failed_stage(stderr);
    assert_eq!(stage, None);
}

#[test]
fn failed_stage_display() {
    assert_eq!(FailedStage::StackBounds.to_string(), "stack bounds safety");
    assert_eq!(FailedStage::TypeSafety.to_string(), "type safety");
    assert_eq!(FailedStage::NullSafety.to_string(), "null safety");
    assert_eq!(FailedStage::FunctionalCorrectness.to_string(), "functional correctness");
}

#[test]
fn extract_spec_postcondition() {
    let spec_content = r#"module BranchResult

open FStar.UInt64
open BPF.State
open BPF.Spec

(* The map lookup can succeed or fail *)
let spec : bpf_spec =
  post_only (fun final_st ->
state_get_reg final_st r0 == Scalar 0uL \/
state_get_reg final_st r0 == Scalar 5uL
  )
"#;
    let post = extract_postcondition(spec_content);
    assert!(post.is_some());
    let post = post.unwrap();
    assert_eq!(post.start_line, 9);
    assert_eq!(post.end_line, 12);
    assert!(post.text.contains("Scalar 0uL"));
    assert!(post.text.contains("Scalar 5uL"));
}

#[test]
fn extract_r0_origin_from_dumps() {
    let dumps = vec![
        DumpBlock { label: "R0_ORIGIN".to_string(), goal: "7 == 7".to_string() },
        DumpBlock { label: "NORMALISED_GOAL".to_string(), goal: "something".to_string() },
    ];
    assert_eq!(extract_r0_origin(&dumps), Some(7));
}

#[test]
fn extract_instruction_at_pc_with_source() {
    let generated = &[
        "let program : bpf_program = [\n",
        "  BPF_ALU32_IMM MOV r1 (0l)  (* test.bpf.c:13 *);\n",
        "  BPF_STX W32 r10 r1 (-4l)  (* test.bpf.c:14 *);\n",
        "  BPF_ALU32_IMM MOV r0 (1l);\n",
        "  BPF_EXIT  (* test.bpf.c:19 *)\n",
        "]\n",
    ].concat();
    let info = extract_instruction_at_pc(generated, 2).unwrap();
    assert_eq!(info.pc, 2);
    assert_eq!(info.instruction, "BPF_ALU32_IMM MOV r0 (1l)");
    assert!(info.source_loc.is_none());

    let info = extract_instruction_at_pc(generated, 0).unwrap();
    assert_eq!(info.source_loc.as_deref(), Some("test.bpf.c:13"));
}

#[test]
fn build_diagnostic_from_fstar_output() {
    let stderr = &[
        "proof-state: State dump @ depth 0 (R0_ORIGIN):\n",
        "Location: Verify_test.fst(42,2-42,25)\n",
        "Goal 1/1\n",
        "\n",
        "  |- _ : squash (forall (init: bpf_state). 3 == 3)\n",
        "\n",
        "proof-state: State dump @ depth 0 (NORMALISED_GOAL):\n",
        "Location: Verify_test.fst(61,2-61,35)\n",
        "Goal 1/1\n",
        "\n",
        "  |-\n",
        "  _\n",
        "  :\n",
        "  squash (Scalar 1uL == Scalar 5uL)\n",
        "\n",
        r#"{"msg":["Assertion failed"],"level":"Error","number":19,"ctx":["While typechecking the top-level declaration `let proof`"]}"#,
        "\n",
    ].concat();
    let generated = &[
        "  BPF_ALU32_IMM MOV r1 (0l);\n",
        "  BPF_STX W32 r10 r1 (-4l);\n",
        "  BPF_ALU64_REG MOV r2 r10;\n",
        "  BPF_ALU32_IMM MOV r0 (1l)  (* test.bpf.c:5 *);\n",
        "  BPF_EXIT  (* test.bpf.c:10 *)\n",
    ].concat();
    let spec = "module T\nopen BPF.Spec\nlet spec : bpf_spec =\n  returns_value 5uL\n";

    let diag = Diagnostic::from_fstar_output(stderr, generated, Some("T.fst"), Some(spec));
    assert!(diag.is_some());
    let diag = diag.unwrap();
    assert_eq!(diag.stage, FailedStage::FunctionalCorrectness);
    assert!(diag.normalised_goal.as_ref().unwrap().contains("Scalar 1uL"));
    let origin = diag.r0_origin.as_ref().unwrap();
    assert_eq!(origin.pc, 3);
    assert_eq!(origin.source_loc.as_deref(), Some("test.bpf.c:5"));
}

#[test]
fn fallback_to_dump_labels() {
    let stderr = &[
        "proof-state: State dump @ depth 0 (NORMALISED_GOAL):\n",
        "Location: Verify_test.fst(61,2-61,35)\n",
        "Goal 1/1\n",
        "\n",
        "  |-\n",
        "  _\n",
        "  :\n",
        "  squash (Scalar 1uL == Scalar 5uL)\n",
        "\n",
        "* Error 19 at /tmp/Verify_test.fst(61,2-61,3):\n",
        "  - Assertion failed\n",
    ].concat();
    let stage = parse_failed_stage(stderr);
    assert_eq!(stage, Some(FailedStage::FunctionalCorrectness));
}

#[test]
fn identify_proof_nonnull_from_dump() {
    let stderr = &[
        "proof-state: State dump @ depth 0 (TYPE_SAFETY_GOAL):\n",
        "Location: Verify_test.fst(62,2-62,26)\n",
        "Goal 1/1\n",
        "\n",
        "  |- _ : squash (true == true)\n",
        "\n",
        "proof-state: State dump @ depth 0 (NULL_SAFETY_GOAL):\n",
        "Location: Verify_test.fst(68,2-68,26)\n",
        "Goal 1/1\n",
        "\n",
        "  |- _ : squash (true == true)\n",
        "\n",
        "proof-state: State dump @ depth 0 (NORMALISED_GOAL):\n",
        "Location: Verify_test.fst(84,2-84,55)\n",
        "Goal 1/1\n",
        "\n",
        "  |- _ : squash (Scalar 1uL == Scalar 0uL)\n",
        "\n",
        r#"{"msg":["Assertion failed"],"level":"Error","number":19,"ctx":["While synthesizing term with a tactic","While typechecking the top-level declaration `let proof_nonnull`"]}"#,
        "\n",
    ].concat();
    let stage = parse_failed_stage(stderr);
    assert_eq!(stage, Some(FailedStage::FunctionalCorrectness));
}

#[test]
fn fallback_no_dumps_no_json() {
    let stderr = "some random output\n";
    let stage = parse_failed_stage(stderr);
    assert_eq!(stage, None);
}

#[test]
fn parse_conjuncts_from_tactic_output() {
    let stderr = &[
        "TAC>> CONJUNCT|0|Eq (reg_val) (Scalar 0uL) (Scalar 0uL)\n",
        "TAC>> CONJUNCT|0|Eq (int) (1 + List.Tot.Base.length (some stuff)) (2)\n",
        "TAC>> CONJUNCT|0|Eq (bool) (true) (true)\n",
        "TAC>> CONJUNCT|0|Eq (bool) (match ringbuf_read_any rb 4 W32 with | FStar.Pervasives.Native.Some _ -> true | _ -> false) (true)\n",
        "TAC>> CONJUNCT|1|Eq (reg_val) (Scalar 0uL) (Scalar 1uL)\n",
        "TAC>> CONJUNCT|1|Eq (int) (1 + List.Tot.Base.length (stuff)) (0)\n",
    ].concat();
    let conjuncts = parse_conjuncts(stderr);
    assert_eq!(conjuncts.len(), 6);
    assert_eq!(conjuncts[0].disjunct, 0);
    assert_eq!(conjuncts[4].disjunct, 1);
    // Simplification: Scalar values extracted
    assert_eq!(conjuncts[0].text, "0uL == 0uL");
    // ringbuf_read_any recognised
    assert!(conjuncts[3].text.contains("Some?"));
    // Write count recognised
    assert!(conjuncts[1].text.contains("ringbuf_write_count"));
}

#[test]
fn simplify_conjunct_scalar_eq() {
    assert_eq!(simplify_conjunct("Eq (reg_val) (Scalar 42uL) (Scalar 0uL)"), "42uL == 0uL");
}

#[test]
fn simplify_conjunct_ringbuf_some() {
    let text = "Eq (bool) (match ringbuf_read_any rb 4 W32 with | FStar.Pervasives.Native.Some _ -> true | _ -> false) (true)";
    let result = simplify_conjunct(text);
    assert!(result.contains("Some?"), "expected Some? in: {result}");
    assert!(result.contains("W32"), "expected W32 in: {result}");
}

#[test]
fn line_byte_offset_calculation() {
    let source = "line 1\nline 2\nline 3\n";
    assert_eq!(line_to_byte_offset(source, 1), 0);
    assert_eq!(line_to_byte_offset(source, 2), 7);
    assert_eq!(line_to_byte_offset(source, 3), 14);
}

#[test]
fn format_shows_spec_and_stage() {
    let diag = Diagnostic {
        stage: FailedStage::FunctionalCorrectness,
        r0_origin: Some(InstructionInfo {
            pc: 0,
            instruction: "BPF_ALU32_IMM MOV r0 (0l)".to_string(),
            source_loc: Some("test.bpf.c:5".to_string()),
        }),
        spec_file: Some("Test.fst".to_string()),
        spec_content: Some("module Test\nopen BPF.Spec\nlet spec : bpf_spec =\n  returns_value 1uL\n".to_string()),
        spec_postcondition: Some(SpecPostcondition { start_line: 4, end_line: 4, text: "  returns_value 1uL".to_string() }),
        spec_error_line: None,
        c_source_file: Some("test.bpf.c".to_string()),
        c_source_content: Some("int main() {\n    return 0;\n}\n".to_string()),
        c_source_line: Some(2),
        normalised_goal: None,
        conjuncts: vec![],
    };
    let output = diag.format();
    assert!(output.contains("functional correctness check failed"));
    assert!(output.contains("Test.fst"));
    assert!(output.contains("returns_value 1uL"));
    assert!(output.contains("test.bpf.c"));
    assert!(output.contains("r0 set here"));
}

#[test]
fn format_without_c_source_shows_note() {
    let diag = Diagnostic {
        stage: FailedStage::FunctionalCorrectness,
        r0_origin: Some(InstructionInfo {
            pc: 0,
            instruction: "BPF_ALU32_IMM MOV r0 (0l)".to_string(),
            source_loc: Some("test.bpf.c:5".to_string()),
        }),
        spec_file: Some("Test.fst".to_string()),
        spec_content: Some("module Test\nopen BPF.Spec\nlet spec : bpf_spec =\n  returns_value 1uL\n".to_string()),
        spec_postcondition: Some(SpecPostcondition { start_line: 4, end_line: 4, text: "  returns_value 1uL".to_string() }),
        spec_error_line: None,
        c_source_file: None,
        c_source_content: None,
        c_source_line: None,
        normalised_goal: None,
        conjuncts: vec![],
    };
    let output = diag.format();
    assert!(output.contains("functional correctness check failed"));
    assert!(output.contains("r0 set at test.bpf.c:5"));
}

#[test]
fn report_plan_marks_postcondition_and_c_line() {
    let diag = Diagnostic {
        stage: FailedStage::FunctionalCorrectness,
        r0_origin: Some(InstructionInfo {
            pc: 0,
            instruction: "MOV r0".to_string(),
            source_loc: None,
        }),
        spec_file: None,
        spec_content: Some("a\nb\n\n  c\n".to_string()),
        spec_postcondition: Some(SpecPostcondition { start_line: 2, end_line: 4, text: String::new() }),
        spec_error_line: None,
        c_source_file: None,
        c_source_content: Some("x\nyy\n".to_string()),
        c_source_line: Some(2),
        normalised_goal: None,
        conjuncts: vec![
            ConjunctInfo { disjunct: 0, text: "r0 == r0".to_string() },
            ConjunctInfo { disjunct: 0, text: "r0 == 1".to_string() },
            ConjunctInfo { disjunct: 2, text: "r1 == 2".to_string() },
        ],
    };
    let plan = diag.report_plan();
    assert_eq!(plan.anchor, "spec.fst");
    assert_eq!(plan.message, "functional correctness check failed");
    let marks: Vec<(String, usize, usize)> = plan.marks.iter().map(|m| (m.source.clone(), m.start, m.end)).collect();
    assert_eq!(marks, vec![("spec.fst".to_string(), 2, 3), ("spec.fst".to_string(), 5, 8)]);
    assert_eq!(plan.labels.len(), 1);
    assert_eq!(plan.labels[0].source, "source.bpf.c");
    assert_eq!((plan.labels[0].start, plan.labels[0].end), (2, 4));
    assert_eq!(plan.labels[0].message, "r0 set here (MOV r0)");
    assert_eq!(
        plan.notes,
        vec!["postcondition requires (one of):\n  success path:\n    - r0 == 1\n  path 1:\n\n  path 2:\n    - r1 == 2".to_string()]
    );
}

#[test]
fn report_plan_blames_spec_line_and_notes_r0() {
    let diag = Diagnostic {
        stage: FailedStage::TypeSafety,
        r0_origin: Some(InstructionInfo { pc: 3, instruction: "EXIT".to_string(), source_loc: None }),
        spec_file: Some("S.fst".to_string()),
        spec_content: Some("one\ntwo\n".to_string()),
        spec_postcondition: None,
        spec_error_line: Some(2),
        c_source_file: None,
        c_source_content: None,
        c_source_line: Some(7),
        normalised_goal: None,
        conjuncts: vec![ConjunctInfo { disjunct: 0, text: "r0 == 1".to_string() }],
    };
    let plan = diag.report_plan();
    assert_eq!(plan.anchor, "source.bpf.c");
    assert_eq!(plan.message, "type safety check failed");
    assert!(plan.marks.is_empty());
    assert_eq!(plan.labels.len(), 1);
    assert_eq!((plan.labels[0].source.as_str(), plan.labels[0].start, plan.labels[0].end), ("S.fst", 4, 7));
    assert_eq!(plan.labels[0].message, "this condition could not be proved");
    assert_eq!(plan.notes, vec!["r0 set at unknown (EXIT)".to_string()]);
}

#[test]
fn format_opens_with_error_header() {
    let diag = Diagnostic {
        stage: FailedStage::FunctionalCorrectness,
        r0_origin: None,
        spec_file: Some("Test.fst".to_string()),
        spec_content: Some("module Test\n".to_string()),
        spec_postcondition: None,
        spec_error_line: None,
        c_source_file: None,
        c_source_content: None,
        c_source_line: None,
        normalised_goal: None,
        conjuncts: vec![],
    };
    let output = diag.format();
    let plain = "Error: functional correctness check failed\n";
    let painted = "\u{1b}[31mError:\u{1b}[0m functional correctness check failed\n";
    assert!(output.starts_with(plain) || output.starts_with(painted));
}
