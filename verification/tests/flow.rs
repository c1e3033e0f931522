use sheesy_vault::crypt::{
    flags_for_model, offender_line, DecryptionError, EncryptionError, ProviderFailure,
};
use sheesy_vault::dispatch::{
    amend_error_info, loads_vault, print_causes, provider_hint, vault_from, write_settings, Cause,
};
use sheesy_vault::edit::EditAction::{
    CreateTemp, Decrypt, Encrypt, Finish, ProbeEncryption, RemoveTemp, RunEditor,
};
use sheesy_vault::edit::{edit_step, EditAction, EditState};
use sheesy_vault::error::{Error, IOMode};
use sheesy_vault::init::{
    assure_empty_directory_exists, check_first_partition, check_fresh_recipients_file,
    export_target, DirectoryInfo,
};
use sheesy_vault::keys::KeyInfo;
use sheesy_vault::load::{assemble, fallback_recipients_path, fallback_vault, split_documents};
use sheesy_vault::lookup::{check_recipients_listed, IdLookup, KeyLookup};
use sheesy_vault::types::{
    CreateMode, Destination, ExtractionContext, SigningMode, VaultCommand, VaultContext, WriteMode,
};
use sheesy_vault::vault::{recipients_default, secrets_default, TrustModel, Vault, VaultKind};

fn run(outcomes: &[bool], try_encrypt: bool) -> Vec<EditAction> {
    let mut state = EditState::Start;
    let mut actions = vec![];
    let mut pending = outcomes.iter();
    loop {
        let ok = if state == EditState::Start {
            true
        } else {
            *pending.next().unwrap_or(&true)
        };
        let (next, action) = edit_step(state, ok, try_encrypt);
        actions.push(action);
        state = next;
        if let EditAction::Finish { .. } = action {
            return actions;
        }
    }
}

#[test]
fn an_edit_goes_through_its_steps_in_order() {
    assert_eq!(
        run(&[true, true, true, true, true, true], true),
        vec![
            CreateTemp,
            Decrypt,
            ProbeEncryption,
            RunEditor,
            Encrypt,
            RemoveTemp,
            Finish { success: true }
        ]
    );
    assert_eq!(
        run(&[true, true, true, true, true], false),
        vec![
            CreateTemp,
            Decrypt,
            RunEditor,
            Encrypt,
            RemoveTemp,
            Finish { success: true }
        ]
    );
}

#[test]
fn a_failed_step_ends_the_edit_and_removes_the_temporary_file() {
    assert_eq!(run(&[false], true), vec![CreateTemp, Finish { success: false }]);
    assert_eq!(
        run(&[true, false], true),
        vec![CreateTemp, Decrypt, RemoveTemp, Finish { success: false }]
    );
    assert_eq!(
        run(&[true, true, false], true),
        vec![
            CreateTemp,
            Decrypt,
            ProbeEncryption,
            RemoveTemp,
            Finish { success: false }
        ]
    );
    assert_eq!(
        run(&[true, true, false], false),
        vec![
            CreateTemp,
            Decrypt,
            RunEditor,
            RemoveTemp,
            Finish { success: false }
        ]
    );
    assert_eq!(
        run(&[true, true, true, false], false),
        vec![
            CreateTemp,
            Decrypt,
            RunEditor,
            Encrypt,
            RemoveTemp,
            Finish { success: false }
        ]
    );
    assert_eq!(
        edit_step(EditState::Finished { success: true }, false, true),
        (
            EditState::Finished { success: true },
            EditAction::Finish { success: true }
        )
    );
}

#[test]
fn provider_failures_are_told_apart() {
    assert_eq!(
        DecryptionError::caused_by(ProviderFailure::NoSecretKey, "Failed to decrypt data."),
        DecryptionError::NotForYou
    );
    assert_eq!(
        DecryptionError::NotForYou.to_string(),
        "The content was not encrypted for you."
    );
    assert_eq!(
        DecryptionError::caused_by(ProviderFailure::Other, "Failed to decrypt data.").to_string(),
        "Failed to decrypt data."
    );
    let untrusted = EncryptionError::caused_by(
        ProviderFailure::UnusablePublicKey,
        "Failed to encrypt data.".into(),
        vec!["one".into(), "two".into()],
    );
    assert_eq!(
        untrusted.to_string(),
        "At least one recipient you try to encrypt for is untrusted. Consider (locally) signing the key with `gpg --sign-key <recipient>` or ultimately trusting them.\none\ntwo"
    );
    let other = EncryptionError::caused_by(
        ProviderFailure::NotSupported,
        "Failed to encrypt data.".into(),
        vec![],
    );
    assert_eq!(other.to_string(), "Failed to encrypt data.");
    let key = KeyInfo {
        fingerprint: Some("ABCD".into()),
        user_ids: vec![Some("a".into()), Some("b".into())],
    };
    assert_eq!(
        offender_line(&key, "Unusable public key"),
        "Could not encrypt for recipient ABCD (a, b) with error: Unusable public key"
    );
    assert!(flags_for_model(&TrustModel::Always));
    assert!(!flags_for_model(&TrustModel::GpgWebOfTrust));
    let mut v = Vault::default();
    let mut p = Vault::default();
    assert!(!v.encrypt_buffer(&p));
    v.trust_model = Some(TrustModel::Always);
    assert!(v.encrypt_buffer(&p));
    p.trust_model = Some(TrustModel::GpgWebOfTrust);
    assert!(!v.encrypt_buffer(&p));
    v.trust_model = None;
    p.trust_model = Some(TrustModel::Always);
    assert!(v.encrypt_buffer(&p));
}

#[test]
fn failures_get_their_hints() {
    let chain = vec![Cause::Other, Cause::NotForYou, Cause::Provider(ProviderFailure::NoSecretKey)];
    assert_eq!(
        amend_error_info(&chain, "sy"),
        Some(
            "Export your public key using 'sy vault recipient init', then ask one of the existing recipients to import your public key using 'sy vault recipients add <your-userid>.'"
                .to_string()
        )
    );
    assert_eq!(amend_error_info(&vec![Cause::Other], "sy"), None);
    assert_eq!(provider_hint(&chain), None);
    assert_eq!(
        provider_hint(&vec![
            Cause::Other,
            Cause::Provider(ProviderFailure::NotSupported),
            Cause::Provider(ProviderFailure::UnsupportedProtocol)
        ]),
        Some("The GNU Privacy Guard (GPG) does not supported the attempted operation.\nGPG v2 is known to work, and you can install it here:\nhttps://www.gnupg.org for more information.")
    );
    assert_eq!(
        provider_hint(&vec![Cause::Provider(ProviderFailure::UnsupportedProtocol)]),
        Some("The GNU Privacy Guard (GPG) is not available on your system.\nPlease install it and try again.\nSee https://www.gnupg.org for more information.")
    );
    assert_eq!(provider_hint(&vec![]), None);
}

#[test]
fn causes_are_printed_most_specific_first() {
    assert_eq!(print_causes(&vec![]), "");
    assert_eq!(print_causes(&vec!["only".into()]), "only\n");
    assert_eq!(
        print_causes(&vec!["top".into(), "middle".into(), "root".into()]),
        "top\nCaused by: \n 2: middle\n 1: root\n"
    );
}

#[test]
fn commands_say_what_they_need() {
    let init = VaultCommand::Init {
        name: None,
        trust_model: None,
        auto_import: None,
        gpg_key_ids: vec![],
        gpg_keys_dir: ".gpg-keys".into(),
        secrets: ".".into(),
        recipients_file: ".gpg-id".into(),
    };
    assert!(!loads_vault(&init));
    assert!(loads_vault(&VaultCommand::List));
    assert_eq!(write_settings(&VaultCommand::List), None);
    assert_eq!(
        write_settings(&VaultCommand::ResourceAdd { specs: vec![] }),
        Some((WriteMode::RefuseOverwrite, Destination::ReolveAndAppendGpg))
    );
    let edit = VaultCommand::ResourceEdit {
        editor: "vim".into(),
        try_encrypt: true,
        spec: "a".into(),
        mode: CreateMode::Create,
    };
    assert_eq!(
        write_settings(&edit),
        Some((WriteMode::AllowOverwrite, Destination::Unchanged))
    );
    let ctx = VaultContext {
        vault_path: "sy-vault.yml".into(),
        vault_selector: "0".into(),
        command: VaultCommand::RecipientsAdd {
            partitions: vec![],
            gpg_key_ids: vec!["carol".into()],
            signing_key_id: None,
            sign: SigningMode::Public,
        },
    };
    assert!(loads_vault(&ctx.command));
    assert_eq!(
        ExtractionContext { file_path: "f".into() },
        ExtractionContext { file_path: "f".into() }
    );
}

#[test]
fn a_new_vault_leads_its_descriptor() {
    let v = Vault::init(
        ".",
        ".gpg-keys",
        ".gpg-id",
        "/home/me/sy-vault.yml",
        None,
        Some(TrustModel::Always),
        Some(true),
    )
    .unwrap();
    assert_eq!(v.name, None);
    assert_eq!(v.kind, VaultKind::Leader);
    assert_eq!(v.index, 0);
    assert_eq!(v.secrets, ".");
    assert_eq!(v.recipients, ".gpg-id");
    assert_eq!(v.gpg_keys, Some(".gpg-keys".to_string()));
    assert_eq!(v.trust_model, Some(TrustModel::Always));
    assert_eq!(v.auto_import, Some(true));
    assert_eq!(v.resolved_at, "/home/me");
    assert_eq!(v.gpg_keys_dir(), Ok("/home/me/.gpg-keys".to_string()));
    assert_eq!(v.recipients_path(), "/home/me/.gpg-id");
    let inside = Vault::init("sub", "k", ".gpg-id", "/home/me/sy.yml", None, None, None).unwrap();
    assert_eq!(inside.recipients_path(), "/home/me/sub/.gpg-id");
    assert!(Vault::init(".", "k", "r", "/", None, None, None).is_err());
    let key = KeyInfo {
        fingerprint: Some("ABCDEF01".into()),
        user_ids: vec![],
    };
    assert_eq!(
        v.init_recipients(&vec![key]),
        Ok(vec![(
            "ABCDEF01".to_string(),
            "/home/me/.gpg-keys/ABCDEF01".to_string()
        )])
    );
    assert!(matches!(
        Vault::default().init_recipients(&vec![]),
        Err(Error::NoGpgKeysDir { .. })
    ));
    assert_eq!(v.init_recipients(&vec![]), Err(Error::NoSecretKey));
    assert_eq!(recipients_default(), ".gpg-id");
    assert_eq!(secrets_default(), ".");
}

#[test]
fn directories_and_files_of_a_new_vault_must_be_fresh() {
    assert_eq!(
        assure_empty_directory_exists("d", false, 0),
        Ok(DirectoryInfo::Created)
    );
    assert_eq!(
        assure_empty_directory_exists("d", true, 0),
        Ok(DirectoryInfo::Existed)
    );
    assert_eq!(
        assure_empty_directory_exists("d", true, 2)
            .unwrap_err()
            .to_string(),
        "Refusing to write into non-empty directory at 'd'"
    );
    assert_eq!(check_first_partition("secrets", true), Ok(()));
    assert_eq!(check_first_partition(".", false), Ok(()));
    assert_eq!(check_first_partition("./", false), Ok(()));
    for here in [".", "./", "./."] {
        let e = check_first_partition(here, true).unwrap_err();
        assert_eq!(e, Error::FirstPartitionNeedsSecretsDir);
        assert_eq!(
            e.to_string(),
            "If --first-partition is present, --secrets-dir must not be set to '.' or left unset"
        );
    }
    assert_eq!(check_fresh_recipients_file("r", false), Ok(()));
    assert_eq!(
        check_fresh_recipients_file("r", true).unwrap_err().to_string(),
        "Cannot write recipients into existing file at 'r'"
    );
    let anonymous = KeyInfo {
        fingerprint: None,
        user_ids: vec![],
    };
    assert_eq!(export_target("d", &anonymous), Err(Error::NoFingerprint));
}

#[test]
fn descriptors_are_parted_into_documents() {
    let docs = split_documents("---\nname: a\n---\nname: b\nsecrets: p\n").unwrap();
    assert_eq!(docs.len(), 2);
    assert!(docs[0].contains("name: a"));
    assert!(docs[1].contains("secrets: p"));
    assert_eq!(split_documents("").unwrap().len(), 0);
    let e = split_documents("a: [unclosed").unwrap_err();
    assert_eq!(e, Error::InvalidYaml);
    assert_eq!(e.to_string(), "YAML deserialization failed");
}

#[test]
fn loaded_vaults_know_their_place() {
    let mut second = Vault::default();
    second.secrets = "p".into();
    second.recipients = "p/.gpg-id".into();
    let mut first = Vault::default();
    first.secrets = "main".into();
    first.recipients = "main/.gpg-id".into();
    let list = assemble(vec![first, second], "/v/./sy.yml").unwrap();
    assert_eq!(list.len(), 2);
    assert_eq!(list[0].index, 0);
    assert_eq!(list[1].index, 1);
    assert_eq!(list[1].resolved_at, "/v");
    assert_eq!(list[1].vault_path, Some("/v/./sy.yml".to_string()));
    assert_eq!(list[1].secrets, "p");
    assert!(assemble(vec![Vault::default()], "").is_err());
    assert_eq!(assemble(vec![], ""), Ok(vec![]));
    let picked = vault_from(list.clone(), "/v/sy.yml", "1").unwrap();
    assert_eq!(picked.index, 1);
    assert_eq!(picked.partitions.len(), 1);
    assert_eq!(picked.partitions[0].index, 0);
    let mut nested = list;
    nested[1].secrets = "./xy".into();
    nested[0].secrets = "x".into();
    assert!(vault_from(nested.clone(), "/v/sy.yml", "0").is_ok());
    nested[1].secrets = "x/..".into();
    assert!(matches!(
        vault_from(nested.clone(), "/v/sy.yml", "0"),
        Err(Error::NestedPartition { .. })
    ));
    nested[1].secrets = "x/y".into();
    assert!(matches!(
        vault_from(nested, "/v/sy.yml", "0"),
        Err(Error::NestedPartition { .. })
    ));
    assert!(vault_from(vec![], "/v/sy.yml", "0").is_err());
}

#[test]
fn a_directory_with_recipients_is_a_vault() {
    assert_eq!(
        fallback_recipients_path("/d/sy-vault.yml"),
        Some("/d/.gpg-id".to_string())
    );
    assert_eq!(fallback_recipients_path("/"), None);
    let v = fallback_vault("/d/.gpg-id").unwrap();
    assert_eq!(v.resolved_at, "/d");
    assert_eq!(v.vault_path, Some("/d/sy-vault.yml".to_string()));
    assert_eq!(v.auto_import, Some(false));
    assert_eq!(v.trust_model, Some(TrustModel::GpgWebOfTrust));
    assert_eq!(v.secrets, ".");
    assert_eq!(v.recipients, ".gpg-id");
    assert_eq!(v.gpg_keys, None);
    assert_eq!(v.kind, VaultKind::Leader);
}

#[test]
fn missing_keys_are_imported_or_reported() {
    let mut v = Vault::default().set_resolved_at("/v/sy.yml").unwrap();
    let alice = || KeyInfo {
        fingerprint: Some("AAAA".into()),
        user_ids: vec![Some("alice".into())],
    };
    let asked = |found: [bool; 3]| -> Vec<IdLookup> {
        ["AAAA", "BBBB", "CCCC"]
            .iter()
            .zip(found.iter())
            .map(|(id, f)| IdLookup {
                id: id.to_string(),
                key: if *f { Some(alice()) } else { None },
                key_file_present: *id == "BBBB",
            })
            .collect()
    };
    assert_eq!(
        v.keys_by_ids(&asked([true, true, true]), "recipient", Some("/k")),
        KeyLookup::Found
    );
    assert_eq!(v.keys_by_ids(&vec![], "recipient", None), KeyLookup::Found);
    assert_eq!(
        v.keys_by_ids(&asked([true, false, false]), "recipient", Some("/k")),
        KeyLookup::Import {
            dir: "/k".into(),
            missing: vec!["BBBB".into(), "CCCC".into()]
        }
    );
    let failed = v.keys_by_ids(&asked([true, false, false]), "recipient", None);
    assert_eq!(
        failed,
        KeyLookup::Failed(Error::MissingKeys {
            message: "Didn't find the key for 2 recipient(s) in the gpg database.\nThe following recipient(s) could not be found in the gpg key database:\nBBBB (No GPG keys directory)\nCCCC (No GPG keys directory)\nAll recipients found in gpg database:\nAAAA (alice)".into()
        })
    );
    v.gpg_keys = Some("keys".into());
    match v.keys_by_ids(&asked([false, false, false]), "user-id", None) {
        KeyLookup::Failed(e) => assert_eq!(
            e.to_string(),
            "Didn't find the key for 3 user-id(s) in the gpg database. This might mean it wasn't imported yet from the '/v/keys' directory.\nThe following user-id(s) could not be found in the gpg key database:\nAAAA (Key-file does not exist at '/v/keys/AAAA')\nBBBB (Import key-file using 'gpg --import '/v/keys/BBBB')\nCCCC (Key-file does not exist at '/v/keys/CCCC')"
        ),
        other => panic!("{:?}", other),
    }
    let ids = vec!["AAAA".to_string()];
    assert_eq!(check_recipients_listed(&v, &ids), Ok(()));
    assert_eq!(
        check_recipients_listed(&v, &vec![]).unwrap_err().to_string(),
        "No recipients found in recipients file at '.gpg-id'."
    );
}

#[test]
fn descriptor_failures_name_the_file() {
    assert_eq!(
        Error::from_io_err("f.yml", &IOMode::Read).to_string(),
        "Failed to read vault configuration file at 'f.yml'\n"
    );
    assert_eq!(
        Error::from_io_err("f.yml", &IOMode::Write).to_string(),
        "Failed to write vault configuration file at 'f.yml'\n"
    );
    assert_eq!(
        Error::Deserialization { path: "f".into() }.to_string(),
        "Failed to deserialize vault configuration file at 'f'\n"
    );
    assert_eq!(
        Error::Serialization { path: "f".into() }.to_string(),
        "Failed to serialize vault configuration file at 'f'\n"
    );
    assert_eq!(
        Error::FewerKeysImported.to_string(),
        "It should not be possible to successfully import less keys than specified."
    );
}
