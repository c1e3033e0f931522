use sheesy_vault::error::Error;
use sheesy_vault::merge::{into_pointer, validate, Command, Kept, MergeMode, NeverDrop, OutputMode};

#[test]
fn output_modes_are_read_in_any_case() {
    assert_eq!(OutputMode::from_str("json"), Ok(OutputMode::Json));
    assert_eq!(OutputMode::from_str("JSON"), Ok(OutputMode::Json));
    assert_eq!(OutputMode::from_str("Yaml"), Ok(OutputMode::Yaml));
    let e = OutputMode::from_str("toml").unwrap_err();
    assert_eq!(e.to_string(), "Not a valid output mode: 'toml'");
    assert_eq!(OutputMode::default(), OutputMode::Json);
    assert_eq!(MergeMode::default(), MergeMode::NoOverwrite);
}

#[test]
fn standard_input_is_merged_once() {
    assert_eq!(validate(&vec![]), Ok(()));
    assert_eq!(validate(&vec![Command::MergeStdin, Command::Serialize]), Ok(()));
    let e = validate(&vec![
        Command::MergeStdin,
        Command::MergePath("a".into()),
        Command::MergeStdin,
        Command::MergeStdin,
    ])
    .unwrap_err();
    assert_eq!(e, Error::ManyStdinMerges { count: 3 });
    assert_eq!(
        e.to_string(),
        "Cannot read from stdin more than once, found 3 invocations"
    );
}

#[test]
fn pointers_start_with_a_slash() {
    assert_eq!(into_pointer("a.b.c".into()), "/a/b/c");
    assert_eq!(into_pointer("a/b.c".into()), "/a/b.c");
    assert_eq!(into_pointer("/a/b".into()), "/a/b");
    assert_eq!(into_pointer("".into()), "/");
    assert_eq!(into_pointer(".x".into()), "/x");
    assert_eq!(into_pointer("é.ü".into()), "/é/ü");
}

#[test]
fn clashes_are_remembered_unless_overwriting() {
    let keys = vec!["a".to_string(), "b".to_string(), "0".to_string()];
    let mut keep = NeverDrop::with_mode(&MergeMode::NoOverwrite);
    assert_eq!(keep.resolve_conflict(&keys), Kept::Old);
    assert_eq!(keep.resolve_conflict(&vec!["z".to_string()]), Kept::Old);
    assert_eq!(keep.clashed_keys, vec!["a.b.0".to_string(), "z".to_string()]);
    assert_eq!(
        keep.to_string(),
        "Refusing to merge due to the following clashing keys:\na.b.0\n\nz\n\n"
    );
    let mut over = NeverDrop::with_mode(&MergeMode::Overwrite);
    assert_eq!(over.resolve_conflict(&keys), Kept::New);
    assert!(over.clashed_keys.is_empty());
    assert_eq!(
        over.to_string(),
        "Refusing to merge due to the following clashing keys:\n"
    );
}
