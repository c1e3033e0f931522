use sheesy_vault::partitions::VaultExt;
use sheesy_vault::paths::normalize;
use sheesy_vault::spec::gpg_output_filename;
use sheesy_vault::vault::Vault;

#[test]
fn it_appends_the_gpg_suffix_to_file_names() {
    assert_eq!(gpg_output_filename("a/file").unwrap(), String::from("a/file.gpg"))
}

#[test]
fn it_appends_the_gpg_suffix_to_file_names_with_extension() {
    assert_eq!(
        gpg_output_filename("a/file.ext").unwrap(),
        String::from("a/file.ext.gpg")
    )
}

#[test]
fn base_it_selects_by_name() {
    let vault = Vault {
        name: Some("foo".into()),
        ..Default::default()
    };
    let v = vec![vault.clone()];
    assert_eq!(v.select("foo").unwrap(), vault)
}

#[test]
fn it_selects_by_secrets_dir() {
    let vault = Vault {
        secrets: String::from("../dir"),
        ..Default::default()
    };
    let v = vec![vault.clone()];
    assert_eq!(v.select("../dir").unwrap(), vault)
}

#[test]
fn base_it_selects_by_index() {
    let v = vec![Vault::default()];
    assert!(v.select("0").is_ok())
}

#[test]
fn base_it_errors_if_name_is_unknown() {
    let v = Vec::<Vault>::new();
    assert_eq!(
        v.select("foo").unwrap_err().to_string(),
        "No partition matched the given selector 'foo'"
    )
}

#[test]
fn base_it_errors_if_index_is_out_of_bounds() {
    let v = Vec::<Vault>::new();
    assert_eq!(
        v.select("0").unwrap_err().to_string(),
        "Could not find partition with index 0"
    )
}

#[test]
fn base_it_will_always_remove_current_dirs_including_the_first_one() {
    assert_eq!(normalize("./././a"), "a")
}

#[test]
fn base_it_does_not_alter_parent_dirs() {
    assert_eq!(normalize("./../.././a"), "../../a")
}

#[test]
fn base_it_print_the_name_in_the_url_if_there_is_none() {
    let mut v = Vault::default();
    v.name = Some("name".into());
    assert_eq!(v.url(), "syv://name@.")
}

#[test]
fn base_it_does_not_print_the_name_in_the_url_if_there_is_none() {
    let v = Vault::default();
    assert_eq!(v.url(), "syv://.")
}

#[test]
fn vault_it_will_always_remove_current_dirs_including_the_first_one() {
    assert_eq!(normalize("./././a"), "a")
}

#[test]
fn vault_it_does_not_alter_parent_dirs() {
    assert_eq!(normalize("./../.././a"), "../../a")
}

#[test]
fn vault_it_print_the_name_in_the_url_if_there_is_none() {
    let mut v = Vault::default();
    v.name = Some("name".into());
    assert_eq!(v.url(), "syv://name@.")
}

#[test]
fn vault_it_does_not_print_the_name_in_the_url_if_there_is_none() {
    let v = Vault::default();
    assert_eq!(v.url(), "syv://.")
}

#[test]
fn vault_it_selects_by_name() {
    let vault = Vault {
        name: Some("foo".into()),
        ..Default::default()
    };
    let v = vec![vault.clone()];
    assert_eq!(v.select("foo").unwrap(), vault)
}

#[test]
fn vault_it_selects_by_index() {
    let v = vec![Vault::default()];
    assert!(v.select("0").is_ok())
}
