use bpf_verifier::ast::load::{entry_path, extract_clang_args, find_compile_entry, CompileCommand};

/// The entries' canonical paths where no file exists: the paths as named.
fn named_paths(entries: &[CompileCommand]) -> Vec<String> {
    entries.iter().map(entry_path).collect()
}

#[test]
fn extract_args_from_arguments_field() {
    let entry = CompileCommand {
        directory: "/build".into(),
        file: "main.c".into(),
        command: None,
        arguments: Some(vec!["clang".into(), "-target".into(), "bpf".into(), "-c".into(), "main.c".into()]),
    };
    let args = extract_clang_args(&entry).unwrap();
    assert_eq!(args[0], "clang");
    assert!(args.contains(&"-target".to_string()));
}

#[test]
fn extract_args_from_command_field() {
    let entry = CompileCommand {
        directory: "/build".into(),
        file: "main.c".into(),
        command: Some("clang -target bpf -c main.c".into()),
        arguments: None,
    };
    let args = extract_clang_args(&entry).unwrap();
    assert_eq!(args[0], "clang");
    assert!(args.contains(&"-target".to_string()));
}

#[test]
fn extract_args_from_command_field_with_quotes() {
    let entry = CompileCommand {
        directory: "/build".into(),
        file: "main.c".into(),
        command: Some(r#"clang -DFOO="bar baz" -target bpf -c main.c"#.into()),
        arguments: None,
    };
    let args = extract_clang_args(&entry).unwrap();
    assert_eq!(args[0], "clang");
    assert!(args.contains(&"bar baz".to_string()) || args.contains(&"-DFOO=bar baz".to_string()));
}

#[test]
fn extract_args_neither_field() {
    let entry = CompileCommand { directory: "/build".into(), file: "main.c".into(), command: None, arguments: None };
    assert!(extract_clang_args(&entry).is_err());
}

#[test]
fn find_entry_by_absolute_path() {
    let entries = vec![CompileCommand {
        directory: "/home/user/project".into(),
        file: "/home/user/project/src/main.c".into(),
        command: Some("clang -c src/main.c".into()),
        arguments: None,
    }];
    let result = find_compile_entry(&entries, &named_paths(&entries), "/home/user/project/src/main.c");
    assert!(result.is_some());
}

#[test]
fn find_entry_by_relative_path() {
    let entries = vec![CompileCommand {
        directory: "/home/user/project".into(),
        file: "src/main.c".into(),
        command: Some("clang -c src/main.c".into()),
        arguments: None,
    }];
    let result = find_compile_entry(&entries, &named_paths(&entries), "/somewhere/else/main.c");
    assert!(result.is_some());
}

#[test]
fn find_entry_no_match() {
    let entries = vec![CompileCommand {
        directory: "/build".into(),
        file: "other.c".into(),
        command: Some("clang -c other.c".into()),
        arguments: None,
    }];
    let result = find_compile_entry(&entries, &named_paths(&entries), "/build/main.c");
    assert!(result.is_none());
}
