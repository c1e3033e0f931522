use sheesy_vault::error::Error;
use sheesy_vault::paths::{
    has_parent_component, has_parent_part, join_without_cur_dir, normalize, strip_ext, PathPart,
};
use sheesy_vault::resource::{
    added_message, check_overwrite, file_to_remove, EncryptTarget, InputSource,
};
use sheesy_vault::spec::{gpg_output_filename, SpecSourceType, VaultSpec};
use sheesy_vault::types::{CreateMode, Destination, WriteMode};
use sheesy_vault::vault::{TrustModel, Vault, VaultKind};

fn vault() -> Vault {
    let mut v = Vault::default().set_resolved_at("/v/sy.yml").unwrap();
    v.secrets = "main".into();
    v.gpg_keys = Some("keys".into());
    let mut p = Vault::default().set_resolved_at("/v/sy.yml").unwrap();
    p.kind = VaultKind::Partition;
    p.index = 1;
    p.secrets = "p".into();
    p.auto_import = None;
    p.trust_model = Some(TrustModel::Always);
    v.partitions = vec![p];
    v
}

#[test]
fn paths_are_normalized() {
    assert_eq!(normalize("."), ".");
    assert_eq!(normalize(""), ".");
    assert_eq!(normalize("./."), ".");
    assert_eq!(normalize("/a/./b/"), "/a/b");
    assert_eq!(normalize("a/../b"), "a/../b");
    assert_eq!(normalize("/"), "/");
    assert!(has_parent_component("a/../b"));
    assert!(has_parent_component(".."));
    assert!(!has_parent_component("a/..b/c"));
    assert_eq!(strip_ext("a/b.txt.gpg"), "a/b.txt");
    assert_eq!(strip_ext("a/b"), "a/b");
    assert_eq!(strip_ext(".."), "..");
}

#[test]
fn components_are_joined_without_the_current_directory() {
    let name = |s: &str| PathPart::Normal(s.to_string());
    let parts = vec![
        PathPart::CurDir,
        PathPart::ParentDir,
        name("a"),
        PathPart::CurDir,
        name("b"),
    ];
    assert_eq!(join_without_cur_dir(&parts), "../a/b");
    assert!(has_parent_part(&parts));
    let rooted = vec![PathPart::RootDir("/".to_string()), name("x"), PathPart::CurDir];
    assert_eq!(join_without_cur_dir(&rooted), "/x");
    assert!(!has_parent_part(&rooted));
    assert_eq!(join_without_cur_dir(&vec![PathPart::CurDir]), "");
    assert_eq!(join_without_cur_dir(&vec![]), "");
    assert!(!has_parent_part(&vec![]));
    assert!(!has_parent_part(&vec![name("..x"), PathPart::CurDir]));
    assert!(has_parent_part(&vec![name("x"), PathPart::ParentDir]));
}

#[test]
fn a_path_without_a_file_name_has_no_ciphertext() {
    let e = gpg_output_filename("a/..").unwrap_err();
    assert_eq!(e, Error::NoFilename { path: "a/..".into() });
    assert_eq!(e.to_string(), "'a/..' does not have a filename");
    assert!(gpg_output_filename("/").is_err());
    assert_eq!(gpg_output_filename("file"), Ok("file.gpg".to_string()));
    assert_eq!(gpg_output_filename("/abs/file"), Ok("/abs/file.gpg".to_string()));
}

#[test]
fn specs_are_written_below_a_root_or_left_as_they_are() {
    let s = VaultSpec::try_from("in:a/b").unwrap();
    assert_eq!(
        s.output_in("/root", Destination::ReolveAndAppendGpg),
        Ok("/root/a/b.gpg".to_string())
    );
    assert_eq!(
        s.output_in("/root", Destination::Unchanged),
        Ok("a/b".to_string())
    );
    let odd = VaultSpec {
        src: SpecSourceType::Stdin,
        dst: "..".into(),
    };
    assert_eq!(
        odd.output_in("/root", Destination::ReolveAndAppendGpg),
        Err(Error::NoFilename { path: "..".into() })
    );
    assert_eq!(odd.output_in("/root", Destination::Unchanged), Ok("..".to_string()));
}

#[test]
fn a_vault_alone_owns_every_path() {
    let v = Vault::default();
    let (owner, rest) = v.partition_by_owned_path("any/where".into()).unwrap();
    assert_eq!(owner.index, 0);
    assert_eq!(rest, "any/where");
}

#[test]
fn resources_go_to_the_vault_whose_secrets_lead_their_path() {
    let v = vault();
    let (owner, rest) = v.partition_by_owned_path("p/x/y".into()).unwrap();
    assert_eq!(owner.index, 1);
    assert_eq!(rest, "x/y");
    let (owner, rest) = v.partition_by_owned_path("main/z".into()).unwrap();
    assert_eq!(owner.index, 0);
    assert_eq!(rest, "z");
    let e = v.partition_by_owned_path("px/y".into()).unwrap_err();
    assert_eq!(e, Error::UnownedPath { path: "px/y".into() });
    assert_eq!(
        e.to_string(),
        "Path 'px/y' could not be associated with any partition. Prefix it with the partition resource directory."
    );
    let spec = VaultSpec::try_from("src:p/x").unwrap();
    let (owner, routed) = v.partition_by_spec(&spec).unwrap();
    assert_eq!(owner.index, 1);
    assert_eq!(
        routed,
        VaultSpec {
            src: SpecSourceType::Path("src".into()),
            dst: "x".into()
        }
    );
    let (owner, routed) = v.partition_by_owned_spec(spec).unwrap();
    assert_eq!(owner.index, 1);
    assert_eq!(routed.dst, "x");
}

#[test]
fn a_resource_is_read_from_its_ciphertext_first() {
    let v = vault();
    assert_eq!(
        v.resource_candidates("p/secret/one"),
        Ok((
            "/v/p/secret/one.gpg".to_string(),
            "/v/p/secret/one".to_string()
        ))
    );
    assert!(matches!(
        v.resource_candidates("elsewhere/one"),
        Err(Error::UnownedPath { .. })
    ));
    assert!(matches!(
        v.resource_candidates("p"),
        Ok((_, _)) | Err(Error::NoFilename { .. })
    ));
}

#[test]
fn a_resource_is_removed_as_ciphertext_or_as_named() {
    let v = vault();
    let (gpg, plain) = v.removal_candidates("main/a/b").unwrap();
    assert_eq!(gpg, "/v/main/a/b.gpg");
    assert_eq!(plain, "/v/main/a/b");
    assert_eq!(
        file_to_remove(gpg.clone(), plain.clone(), true, true),
        Ok(gpg.clone())
    );
    assert_eq!(
        file_to_remove(gpg.clone(), plain.clone(), false, true),
        Ok(plain.clone())
    );
    let e = file_to_remove(gpg.clone(), plain, false, false).unwrap_err();
    assert_eq!(e.to_string(), "No file present at '/v/main/a/b.gpg'");
}

#[test]
fn encryption_is_planned_per_spec() {
    let v = vault();
    let specs = vec![
        VaultSpec::try_from("in:p/a").unwrap(),
        VaultSpec::try_from(":main/b").unwrap(),
    ];
    let plan = v
        .encrypt_targets(&specs, WriteMode::RefuseOverwrite, Destination::ReolveAndAppendGpg)
        .unwrap();
    assert_eq!(
        plan,
        vec![
            EncryptTarget {
                src: SpecSourceType::Path("in".into()),
                partition: 1,
                trust_model: TrustModel::Always,
                import_dir: Some("/v/keys".into()),
                output: "/v/p/a.gpg".into(),
            },
            EncryptTarget {
                src: SpecSourceType::Stdin,
                partition: 0,
                trust_model: TrustModel::GpgWebOfTrust,
                import_dir: Some("/v/keys".into()),
                output: "/v/main/b.gpg".into(),
            },
        ]
    );
    assert_eq!(added_message(&specs), "Added 'p/a', 'main/b'.");
    assert_eq!(added_message(&vec![]), "Added .");
}

#[test]
fn two_specs_may_not_be_written_to_one_file() {
    let v = vault();
    let twice = vec![
        VaultSpec::try_from("one:p/a").unwrap(),
        VaultSpec::try_from("two:p/./a").unwrap(),
    ];
    let e = v
        .encrypt_targets(&twice, WriteMode::RefuseOverwrite, Destination::ReolveAndAppendGpg)
        .unwrap_err();
    assert_eq!(e, Error::DuplicateDestination { path: "/v/p/a.gpg".into() });
    assert_eq!(
        e.to_string(),
        "Refusing to write more than once to file at '/v/p/a.gpg'"
    );
    assert!(v
        .encrypt_targets(&twice, WriteMode::AllowOverwrite, Destination::ReolveAndAppendGpg)
        .is_ok());
    let lost = vec![
        VaultSpec::try_from("one:p/a").unwrap(),
        VaultSpec::try_from("two:q/a").unwrap(),
    ];
    assert_eq!(
        v.encrypt_targets(&lost, WriteMode::RefuseOverwrite, Destination::ReolveAndAppendGpg),
        Err(Error::UnownedPath { path: "q/a".into() })
    );
}

#[test]
fn existing_files_are_kept_where_overwriting_is_refused() {
    assert!(WriteMode::RefuseOverwrite.refuse_overwrite());
    assert!(!WriteMode::AllowOverwrite.refuse_overwrite());
    assert_eq!(check_overwrite("f", WriteMode::AllowOverwrite, true), Ok(()));
    assert_eq!(check_overwrite("f", WriteMode::RefuseOverwrite, false), Ok(()));
    let e = check_overwrite("f", WriteMode::RefuseOverwrite, true).unwrap_err();
    assert_eq!(e.to_string(), "Refusing to overwrite existing file at 'f'");
}

#[test]
fn content_comes_from_a_file_an_editor_or_standard_input() {
    let named = VaultSpec::try_from("from:to").unwrap();
    assert_eq!(named.input_source(true), InputSource::File("from".into()));
    assert_eq!(named.input_source(false), InputSource::File("from".into()));
    let piped = VaultSpec::try_from(":to").unwrap();
    assert_eq!(piped.input_source(true), InputSource::TerminalEditor);
    assert_eq!(piped.input_source(false), InputSource::Stdin);
}

#[test]
fn ciphertexts_are_encrypted_anew_in_place() {
    let v = vault();
    let single = v.partitions[0].reencrypt_target("a/b.gpg", false);
    assert_eq!(single.file, "/v/p/a/b.gpg");
    assert_eq!(single.shown, "a/b");
    let multi = v.partitions[0].reencrypt_target("a/b.gpg", true);
    assert_eq!(multi.file, "/v/p/a/b.gpg");
    assert_eq!(multi.shown, "/v/p/a/b");
}

#[test]
fn resources_are_listed_per_vault() {
    let v = vault();
    let found = vec![vec!["x.gpg".to_string(), "d/y.gpg".to_string()], vec!["z.gpg".to_string()]];
    assert_eq!(
        v.print_resources(&found),
        vec![
            "syv:///v/main",
            "/v/main/x",
            "/v/main/d/y",
            "syv:///v/p",
            "/v/p/z"
        ]
    );
    let alone = Vault::default();
    assert_eq!(
        alone.print_resources(&vec![vec!["x.gpg".to_string()]]),
        vec!["syv://.", "x"]
    );
    assert_eq!(alone.list(&vec![], false), vec!["syv://."]);
    assert_eq!(v.print_resources(&vec![]), vec!["syv:///v/main", "syv:///v/p"]);
}

#[test]
fn an_edit_writes_to_what_it_read_or_creates() {
    let v = vault();
    assert_eq!(
        v.edit_target("p/x", CreateMode::NoCreate, Some("/v/p/x.gpg".into()), false),
        Ok(Some("/v/p/x.gpg".to_string()))
    );
    assert_eq!(v.edit_target("p/x", CreateMode::NoCreate, None, true), Ok(None));
    assert_eq!(v.edit_target("p/x", CreateMode::Create, None, false), Ok(None));
    assert_eq!(
        v.edit_target("p/x", CreateMode::Create, None, true),
        Ok(Some("/v/p/x.gpg".to_string()))
    );
    assert_eq!(
        v.edit_target("..", CreateMode::Create, None, true),
        Err(Error::NoFilename { path: "..".into() })
    );
}
