use sheesy_vault::error::Error;
use sheesy_vault::partitions::{select_vault, VaultExt};
use sheesy_vault::types::WriteMode;
use sheesy_vault::vault::{TrustModel, Vault, VaultKind};

fn leader() -> Vault {
    Vault::default()
        .set_resolved_at("/home/me/vault/sy-vault.yml")
        .unwrap()
}

fn partition(index: usize, name: &str, secrets: &str) -> Vault {
    let mut p = leader();
    p.kind = VaultKind::Partition;
    p.index = index;
    p.name = Some(name.to_string());
    p.secrets = secrets.to_string();
    p.recipients = format!("{}/.gpg-id", secrets);
    p.auto_import = None;
    p
}

fn with_partitions() -> Vault {
    let mut v = leader();
    v.secrets = "secrets".to_string();
    v.recipients = "secrets/.gpg-id".to_string();
    v.partitions = vec![partition(1, "one", "p1"), partition(2, "two", "p2")];
    v
}

#[test]
fn the_descriptor_is_resolved_at_its_directory() {
    let v = leader();
    assert_eq!(v.resolved_at, "/home/me/vault");
    assert_eq!(v.vault_path, Some("/home/me/vault/sy-vault.yml".to_string()));
    assert_eq!(v.absolute_path("./a/./b"), "/home/me/vault/a/b");
    assert_eq!(v.secrets_path(), "/home/me/vault");
    assert_eq!(v.recipients_path(), "/home/me/vault/.gpg-id");
    assert_eq!(v.url(), "syv:///home/me/vault");
    assert_eq!(v.vault_path_for_display(), "/home/me/vault/sy-vault.yml");
    assert_eq!(Vault::default().vault_path_for_display(), "<unknown>");
    let relative = Vault::default().set_resolved_at("sy-vault.yml").unwrap();
    assert_eq!(relative.resolved_at, ".");
    assert_eq!(
        Vault::default().set_resolved_at("/").unwrap_err(),
        Error::InvalidVaultPath { path: "/".into() }
    );
    assert_eq!(
        Vault::default().set_resolved_at("").unwrap_err().to_string(),
        "The vault file path '' is invalid."
    );
}

#[test]
fn a_bare_recipients_file_lies_inside_the_secrets() {
    let mut v = leader();
    v.secrets = "sub".to_string();
    assert_eq!(v.recipients_path(), "/home/me/vault/sub/.gpg-id");
    v.recipients = "ids".to_string();
    assert_eq!(v.recipients_path(), "/home/me/vault/sub/ids");
    v.recipients = "./ids".to_string();
    assert_eq!(v.recipients_path(), "/home/me/vault/ids");
    v.recipients = "other/ids".to_string();
    assert_eq!(v.recipients_path(), "/home/me/vault/other/ids");
    v.recipients = "/abs/ids".to_string();
    assert_eq!(v.recipients_path(), "/abs/ids");
    v.secrets = "/elsewhere".to_string();
    v.recipients = ".gpg-id".to_string();
    assert_eq!(v.recipients_path(), "/elsewhere/.gpg-id");
    let mut shared = leader();
    shared.secrets = "a".into();
    let mut p = leader();
    p.index = 1;
    p.secrets = "b".into();
    shared.partitions = vec![p];
    assert_eq!(shared.validate(), Ok(()));
    shared.partitions[0].recipients = "a/.gpg-id".into();
    assert_eq!(
        shared.validate(),
        Err(Error::RecipientsPathReused {
            path: "/home/me/vault/a/.gpg-id".into()
        })
    );
}

#[test]
fn a_vault_alone_is_valid() {
    assert_eq!(leader().validate(), Ok(()));
    assert_eq!(with_partitions().validate(), Ok(()));
}

#[test]
fn nested_secrets_are_refused() {
    let mut v = with_partitions();
    v.partitions[1].secrets = "p1/inner".to_string();
    let e = v.validate().unwrap_err();
    assert_eq!(
        e,
        Error::NestedPartition {
            inner: "/home/me/vault/p1/inner".into(),
            outer: "/home/me/vault/p1".into()
        }
    );
    assert_eq!(
        e.to_string(),
        "Partition at '/home/me/vault/p1/inner' is contained in another partitions resources directory at '/home/me/vault/p1'"
    );
    let mut same = with_partitions();
    same.partitions[1].secrets = "p1".to_string();
    assert!(matches!(
        same.validate(),
        Err(Error::NestedPartition { .. })
    ));
    let mut under_leader = with_partitions();
    under_leader.secrets = ".".to_string();
    assert!(matches!(
        under_leader.validate(),
        Err(Error::NestedPartition { .. })
    ));
}

#[test]
fn relative_secrets_are_anchored_before_they_are_compared() {
    let mut v = Vault::default();
    v.secrets = "a".to_string();
    v.recipients = "a/.gpg-id".to_string();
    let mut p = Vault::default();
    p.kind = VaultKind::Partition;
    p.index = 1;
    p.secrets = "a/b".to_string();
    p.recipients = "a/b/.gpg-id".to_string();
    v.partitions = vec![p];
    assert_eq!(
        v.validate(),
        Err(Error::NestedPartition {
            inner: "./a/b".into(),
            outer: "./a".into()
        })
    );
}

#[test]
fn shared_recipients_files_are_refused() {
    let mut v = with_partitions();
    v.partitions[1].recipients = "p1/.gpg-id".to_string();
    let e = v.validate().unwrap_err();
    assert_eq!(
        e,
        Error::RecipientsPathReused {
            path: "/home/me/vault/p1/.gpg-id".into()
        }
    );
    assert_eq!(
        e.to_string(),
        "Recipients path '/home/me/vault/p1/.gpg-id' is already used, but must be unique across all partitions"
    );
}

#[test]
fn selectors_pick_by_index_name_or_secrets() {
    let v = with_partitions();
    let all: Vec<&Vault> = v.members();
    assert_eq!(Vault::partition_index("1", &all, None), Ok(1));
    assert_eq!(Vault::partition_index("+2", &all, None), Ok(2));
    assert_eq!(Vault::partition_index("0", &all, None), Ok(0));
    assert_eq!(Vault::partition_index("two", &all, None), Ok(2));
    assert_eq!(Vault::partition_index("p1", &all, None), Ok(1));
    assert_eq!(Vault::partition_index("p1/", &all, None), Ok(1));
    assert_eq!(Vault::partition_index("secrets", &all, None), Ok(0));
    assert_eq!(
        Vault::partition_index("7", &all, None),
        Err(Error::PartitionIndexNotFound { index: 7 })
    );
    assert_eq!(
        Vault::partition_index("120", &all, None)
            .unwrap_err()
            .to_string(),
        "Could not find partition with index 120"
    );
    assert_eq!(
        Vault::partition_index("99999999999999999999999999", &all, None),
        Err(Error::NoPartitionMatched {
            selector: "99999999999999999999999999".into()
        })
    );
    assert_eq!(
        Vault::partition_index("0", &all, Some(0)),
        Err(Error::RefuseRemoveLeader { index: 0 })
    );
    assert_eq!(
        Vault::partition_index("0", &all, Some(0))
            .unwrap_err()
            .to_string(),
        "Refusing to remove the leading partition at index 0"
    );
    assert_eq!(
        Vault::partition_index("nope", &all, None),
        Err(Error::NoPartitionMatched {
            selector: "nope".into()
        })
    );
    assert_eq!(
        Vault::partition_index("-1", &all, None),
        Err(Error::NoPartitionMatched {
            selector: "-1".into()
        })
    );
}

#[test]
fn a_number_is_an_index_even_where_it_is_a_name() {
    let mut v = with_partitions();
    v.partitions[0].name = Some("2".to_string());
    let all: Vec<&Vault> = v.members();
    assert_eq!(Vault::partition_index("2", &all, None), Ok(2));
}

#[test]
fn ambiguous_selectors_are_refused() {
    let mut v = with_partitions();
    v.partitions[1].name = Some("one".to_string());
    let all: Vec<&Vault> = v.members();
    let e = Vault::partition_index("one", &all, None).unwrap_err();
    assert_eq!(
        e.to_string(),
        "Multiple partitions matched the ambiguous selector 'one'"
    );
}

#[test]
fn the_selected_vault_leads_the_others() {
    let mut a = leader();
    a.name = Some("a".into());
    let mut b = leader();
    b.name = Some("b".into());
    b.index = 1;
    b.secrets = "b".into();
    let mut c = leader();
    c.name = Some("c".into());
    c.index = 2;
    c.secrets = "c".into();
    let picked = vec![a.clone(), b.clone(), c.clone()].select("b").unwrap();
    assert_eq!(picked.kind, VaultKind::Leader);
    assert_eq!(picked.name, Some("b".to_string()));
    assert_eq!(picked.index, 1);
    assert_eq!(picked.partitions.len(), 2);
    assert_eq!(picked.partitions[0].name, Some("a".to_string()));
    assert_eq!(picked.partitions[0].kind, VaultKind::Partition);
    assert_eq!(picked.partitions[1].name, Some("c".to_string()));
    assert_eq!(picked.partitions[1].kind, VaultKind::Partition);
    let by_index = select_vault(vec![a, b, c], "2").unwrap();
    assert_eq!(by_index.name, Some("c".to_string()));
    assert_eq!(by_index.partitions.len(), 2);
}

#[test]
fn vaults_come_in_the_order_of_their_indices() {
    let mut v = with_partitions();
    v.index = 1;
    v.partitions[0].index = 2;
    v.partitions[1].index = 0;
    let order: Vec<usize> = v.all_in_order().iter().map(|p| p.index).collect();
    assert_eq!(order, vec![0, 1, 2]);
    let names: Vec<Option<String>> = v.all_in_order().iter().map(|p| p.name.clone()).collect();
    assert_eq!(
        names,
        vec![Some("two".to_string()), None, Some("one".to_string())]
    );
}

#[test]
fn partitions_are_found_by_several_selectors() {
    let v = with_partitions();
    let only = v.partitions_by_name_or_path(&vec![]).unwrap();
    assert_eq!(only.len(), 1);
    assert_eq!(only[0].index, 0);
    let picked = v
        .partitions_by_name_or_path(&vec!["two".into(), "0".into(), "p2".into()])
        .unwrap();
    let indices: Vec<usize> = picked.iter().map(|p| p.index).collect();
    assert_eq!(indices, vec![0, 2]);
    assert_eq!(
        v.partitions_by_name_or_path(&vec!["one".into(), "zzz".into()])
            .unwrap_err(),
        Error::NoPartitionMatched {
            selector: "zzz".into()
        }
    );
}

#[test]
fn removing_a_partition_edits_the_descriptor_only() {
    let mut v = with_partitions();
    assert_eq!(v.remove_partition("one"), Ok(()));
    assert_eq!(v.partitions.len(), 1);
    assert_eq!(v.partitions[0].index, 2);
    assert_eq!(v.validate(), Ok(()));
    assert_eq!(
        v.remove_partition("0"),
        Err(Error::RefuseRemoveLeader { index: 0 })
    );
    assert_eq!(
        v.remove_partition("one"),
        Err(Error::NoPartitionMatched {
            selector: "one".into()
        })
    );
    assert_eq!(v.partitions.len(), 1);
    assert_eq!(v.remove_partition("2"), Ok(()));
    assert!(v.partitions.is_empty());
}

#[test]
fn removing_from_a_vault_without_a_descriptor_fails_after_the_edit() {
    let mut v = with_partitions();
    v.vault_path = None;
    assert_eq!(v.remove_partition("1"), Err(Error::UnknownVaultPath));
    assert_eq!(v.partitions.len(), 1);
    assert_eq!(
        Error::UnknownVaultPath.to_string(),
        "Expected vault to know its configuration file"
    );
}

#[test]
fn adding_a_partition_puts_it_beside_the_secrets() {
    let mut v = with_partitions();
    let p = v.add_partition("p3", None, None).unwrap();
    assert_eq!(p.index, 3);
    assert_eq!(p.kind, VaultKind::Partition);
    assert_eq!(p.name, Some("p3".to_string()));
    assert_eq!(p.secrets, "p3");
    assert_eq!(p.recipients, "p3/.gpg-id");
    assert_eq!(p.gpg_keys, None);
    assert_eq!(p.trust_model, None);
    assert_eq!(p.auto_import, None);
    assert_eq!(p.resolved_at, v.resolved_at);
    assert_eq!(p.vault_path, v.vault_path);
    assert_eq!(v.partitions.len(), 3);
    assert_eq!(v.partitions[2], p);
    assert_eq!(v.validate(), Ok(()));
    let named = v
        .add_partition("deep/p4", Some("four"), Some("elsewhere/ids"))
        .unwrap();
    assert_eq!(named.index, 4);
    assert_eq!(named.name, Some("four".to_string()));
    assert_eq!(named.secrets, "deep/p4");
    assert_eq!(named.recipients, "elsewhere/ids");
}

#[test]
fn a_partition_that_breaks_the_rules_stays_added_but_is_reported() {
    let mut v = with_partitions();
    let e = v.add_partition("p1/sub", None, None).unwrap_err();
    assert!(matches!(e, Error::NestedPartition { .. }));
    assert_eq!(v.partitions.len(), 3);
}

#[test]
fn no_partition_is_added_once_every_index_is_taken() {
    let mut v = with_partitions();
    v.partitions[1].index = usize::MAX;
    assert_eq!(v.largest_index(), usize::MAX);
    let e = v.add_partition("p3", None, None).unwrap_err();
    assert_eq!(e, Error::NoIndexLeft);
    assert_eq!(e.to_string(), "Cannot add a partition as no index is left for it");
    assert_eq!(v.partitions.len(), 2);
}

#[test]
fn a_partition_needs_a_place_beside_the_secrets() {
    let mut v = leader();
    v.secrets = "/".to_string();
    let e = v.add_partition("p", None, None).unwrap_err();
    assert_eq!(e, Error::NoSecretsParent { secrets: "/".into() });
    assert_eq!(
        e.to_string(),
        "Expected vault to have secrets directory ('/') from which a parent directory can be obtained."
    );
    let mut w = leader();
    w.secrets = "s".to_string();
    w.recipients = "..".to_string();
    let e = w.add_partition("p", None, None).unwrap_err();
    assert_eq!(
        e.to_string(),
        "Expected vault to have a recipients file ('..') from which a filename can be obtained"
    );
    assert!(w.partitions.is_empty());
}

#[test]
fn only_a_valid_leader_is_written() {
    let v = with_partitions();
    assert_eq!(v.to_file("x.yml", WriteMode::RefuseOverwrite, false), Ok(()));
    assert_eq!(v.to_file("x.yml", WriteMode::AllowOverwrite, true), Ok(()));
    let e = v
        .to_file("x.yml", WriteMode::RefuseOverwrite, true)
        .unwrap_err();
    assert_eq!(e, Error::ConfigurationFileExists { path: "x.yml".into() });
    assert_eq!(
        e.to_string(),
        "Cannot overwrite vault configuration file as it already exists at 'x.yml'\n"
    );
    assert_eq!(
        v.partitions[0].to_file("x.yml", WriteMode::AllowOverwrite, false),
        Err(Error::PartitionUnsupported)
    );
    assert_eq!(
        Error::PartitionUnsupported.to_string(),
        "Cannot perform this operation on a partition"
    );
    assert_eq!(v.serialize(), Ok("/home/me/vault/sy-vault.yml".to_string()));
}

#[test]
fn key_directories_and_settings_are_inherited() {
    let mut v = with_partitions();
    assert_eq!(
        v.gpg_keys_dir().unwrap_err().to_string(),
        "The vault at '/home/me/vault/sy-vault.yml' does not have a gpg_keys directory configured."
    );
    assert!(v.find_gpg_keys_dir().is_err());
    v.partitions[1].gpg_keys = Some("keys2".into());
    assert_eq!(v.find_gpg_keys_dir(), Ok("/home/me/vault/keys2".to_string()));
    v.gpg_keys = Some(".gpg-keys".into());
    assert_eq!(v.gpg_keys_dir(), Ok("/home/me/vault/.gpg-keys".to_string()));
    assert_eq!(
        v.find_gpg_keys_dir(),
        Ok("/home/me/vault/.gpg-keys".to_string())
    );
    assert_eq!(
        v.gpg_keys_dir_for_auto_import(&v.partitions[0]),
        Some("/home/me/vault/.gpg-keys".to_string())
    );
    v.partitions[0].auto_import = Some(false);
    assert_eq!(v.gpg_keys_dir_for_auto_import(&v.partitions[0]), None);
    v.auto_import = None;
    assert_eq!(v.gpg_keys_dir_for_auto_import(&v.partitions[1]), None);
    assert_eq!(
        v.find_trust_model(&v.partitions[0]),
        TrustModel::GpgWebOfTrust
    );
    v.trust_model = Some(TrustModel::Always);
    assert_eq!(v.find_trust_model(&v.partitions[0]), TrustModel::Always);
    v.partitions[0].trust_model = Some(TrustModel::GpgWebOfTrust);
    assert_eq!(
        v.find_trust_model(&v.partitions[0]),
        TrustModel::GpgWebOfTrust
    );
    assert_eq!(TrustModel::from_str("always"), Ok(TrustModel::Always));
    assert_eq!(
        TrustModel::from_str("web-of-trust"),
        Ok(TrustModel::GpgWebOfTrust)
    );
    assert_eq!(
        TrustModel::from_str("none"),
        Err("Unknown trust model: 'none'".to_string())
    );
}
