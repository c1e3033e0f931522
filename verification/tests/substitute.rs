use sheesy_vault::error::Error;
use sheesy_vault::substitute::StreamOrPath::{Path, Stream};
use sheesy_vault::substitute::{validate, Engine, Spec, StreamOrPath};

#[test]
fn empty() {
    let actual = Spec::from("");
    assert_eq!(
        actual,
        Spec {
            src: Stream,
            dst: Stream,
        }
    );

    assert_eq!(actual.to_string(), ":")
}

#[test]
fn colon() {
    let actual = Spec::from(":");
    assert_eq!(
        actual,
        Spec {
            src: Stream,
            dst: Stream,
        }
    );

    assert_eq!(actual.to_string(), ":")
}

#[test]
fn stream_path() {
    let actual = Spec::from(":foo");
    assert_eq!(
        actual,
        Spec {
            src: Stream,
            dst: Path(String::from("foo")),
        }
    );

    assert_eq!(actual.to_string(), ":foo")
}

#[test]
fn path_stream() {
    let actual = Spec::from("foo:");
    assert_eq!(
        actual,
        Spec {
            src: Path(String::from("foo")),
            dst: Stream,
        }
    );

    assert_eq!(actual.to_string(), "foo")
}

#[test]
fn path_path() {
    let actual = Spec::from("foo:bar");
    assert_eq!(
        actual,
        Spec {
            src: Path(String::from("foo")),
            dst: Path(String::from("bar")),
        }
    );

    assert_eq!(actual.to_string(), "foo:bar")
}

#[test]
fn absolute_path_absolute_path() {
    let actual = Spec::from("/foo/sub:/bar/sub");
    assert_eq!(
        actual,
        Spec {
            src: Path(String::from("/foo/sub")),
            dst: Path(String::from("/bar/sub")),
        }
    );

    assert_eq!(actual.to_string(), "/foo/sub:/bar/sub")
}

#[test]
fn a_template_spec_reads_back_as_itself() {
    for text in ["", ":", "a", "a:", ":b", "a:b", "a:b:c", "/x/y:/z"] {
        let first = Spec::from(text);
        assert_eq!(Spec::from(&first.to_string()), first);
        assert_eq!(Spec::try_from(text), Ok(first));
    }
}

#[test]
fn streams_and_paths_are_named() {
    assert!(Stream.is_stream());
    assert!(!Path("a/b.txt".into()).is_stream());
    assert_eq!(Stream.name(), "stream");
    assert_eq!(Path("a/b.txt".into()).name(), "a/b.txt");
    assert_eq!(Stream.short_name(), "stream");
    assert_eq!(Path("a/b.txt".into()).short_name(), "b");
    assert_eq!(Path("..".into()).short_name(), "<invalid-file-stem>");
    assert_eq!(StreamOrPath::from(""), Stream);
    assert_eq!(StreamOrPath::from("x"), Path("x".into()));
    assert_eq!(Spec::sep(), ':');
}

#[test]
fn engines_are_read_by_name() {
    assert_eq!(Engine::from_str("liquid"), Ok(Engine::Liquid));
    assert_eq!(Engine::from_str("handlebars"), Ok(Engine::Handlebars));
    let e = Engine::from_str("jinja").unwrap_err();
    assert_eq!(e.to_string(), "Engine named 'jinja' is unknown");
}

#[test]
fn specs_of_a_call_are_checked() {
    let file = |s: &str| Path(s.to_string());
    assert_eq!(validate(&Stream, &vec![], &vec![]), Err(Error::NoSpecs));
    let two = vec![Spec::from(":a"), Spec::from(":b")];
    assert_eq!(
        validate(&file("d"), &two, &vec![false, false]),
        Err(Error::ManyStdinSpecs)
    );
    let one = vec![Spec::from(":a")];
    assert_eq!(
        validate(&Stream, &one, &vec![false]),
        Err(Error::DataAndTemplateFromStdin)
    );
    assert_eq!(validate(&file("d"), &one, &vec![false]), Ok(()));
    let same = vec![Spec::from("x:y"), Spec::from("t:t")];
    let err = validate(&Stream, &same, &vec![false, true]).unwrap_err();
    assert_eq!(err, Error::OverwritesInput { src: "t".into() });
    assert_eq!(
        err.to_string(),
        "Refusing to overwrite input file at 't' with output"
    );
    assert_eq!(validate(&Stream, &same, &vec![false, false]), Ok(()));
    assert_eq!(validate(&Stream, &same, &vec![false]), Ok(()));
}
