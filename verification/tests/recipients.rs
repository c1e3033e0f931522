use sheesy_vault::error::Error;
use sheesy_vault::keys::{fingerprint_of, fingerprints_of_keys, keylist_display, KeyInfo};
use sheesy_vault::recipients::{
    add_fingerprints, check_found_keys, check_imported, check_secret_keys, fingerprint_file,
    fold_imports, key_file_pattern, key_from_file_or_keychain, pick_signing_key,
    remaining_recipients, valid_fingerprint,
};
use sheesy_vault::vault::{Vault, VaultKind};

const ALICE: &str = "AAAAAAAAAAAAAAAAAAAAAAAAAAAAAAAAAAAAAAAA";
const BOB: &str = "BBBBBBBBBBBBBBBBBBBBBBBBBBBBBBBBBBBBBBBB";
const CAROL: &str = "CCCCCCCCCCCCCCCCCCCCCCCCCCCCCCCCCCCCCCCC";

fn key(fpr: &str, user: &str) -> KeyInfo {
    KeyInfo {
        fingerprint: Some(fpr.to_string()),
        user_ids: vec![Some(user.to_string())],
    }
}

fn list(items: &[&str]) -> Vec<String> {
    items.iter().map(|s| s.to_string()).collect()
}

#[test]
fn fingerprints_are_hex_of_eight_to_forty() {
    assert_eq!(valid_fingerprint("0123abCD"), Ok("0123abCD"));
    assert_eq!(valid_fingerprint(ALICE), Ok(ALICE));
    let short = valid_fingerprint("abc").unwrap_err();
    assert_eq!(short, Error::FingerprintLength { id: "abc".into() });
    assert_eq!(
        short.to_string(),
        "Fingerprint 'abc' must be between 8 and 40 characters long."
    );
    let long = format!("{}0", ALICE);
    assert!(matches!(
        valid_fingerprint(&long),
        Err(Error::FingerprintLength { .. })
    ));
    let bad = valid_fingerprint("0123abCg").unwrap_err();
    assert_eq!(
        bad.to_string(),
        "Fingerprint '0123abCg' must only contain characters a-f, A-F and 0-9."
    );
    assert!(matches!(
        valid_fingerprint("éééé"),
        Err(Error::FingerprintChars { .. })
    ));
    assert!(matches!(
        valid_fingerprint("ééé"),
        Err(Error::FingerprintLength { .. })
    ));
}

#[test]
fn the_recipients_list_is_written_sorted_and_without_repeats() {
    let v = Vault::default().set_resolved_at("/v/sy.yml").unwrap();
    let mut xs = list(&[CAROL, ALICE, BOB, ALICE, CAROL]);
    let (path, content) = v.write_recipients_list(&mut xs);
    assert_eq!(path, "/v/.gpg-id");
    assert_eq!(xs, list(&[ALICE, BOB, CAROL]));
    assert_eq!(content, format!("{}\n{}\n{}\n", ALICE, BOB, CAROL));
    let mut again = xs.clone();
    let (_, same) = v.write_recipients_list(&mut again);
    assert_eq!(again, xs);
    assert_eq!(same, content);
    let mut none: Vec<String> = vec![];
    assert_eq!(v.write_recipients_list(&mut none).1, "");
    let mut mixed = list(&["b", "B", "a", "ab", "", "é", "z"]);
    v.write_recipients_list(&mut mixed);
    assert_eq!(mixed, list(&["", "B", "a", "ab", "b", "z", "é"]));
}

#[test]
fn removing_an_added_recipient_gives_the_list_back() {
    let v = Vault::default();
    let before = list(&[ALICE, BOB]);
    let mut xs = before.clone();
    add_fingerprints(&mut xs, &vec![key(CAROL, "carol")]).unwrap();
    assert_eq!(xs, list(&[ALICE, BOB, CAROL]));
    v.write_recipients_list(&mut xs);
    let mut left = remaining_recipients(&xs, &vec![key(CAROL, "carol")], "ids").unwrap();
    v.write_recipients_list(&mut left);
    assert_eq!(left, before);
}

#[test]
fn keys_without_a_fingerprint_cannot_be_listed() {
    let anonymous = KeyInfo {
        fingerprint: None,
        user_ids: vec![],
    };
    assert_eq!(fingerprint_of(&anonymous), Err(Error::NoFingerprint));
    assert_eq!(fingerprint_of(&key(BOB, "bob")), Ok(BOB.to_string()));
    assert_eq!(
        fingerprints_of_keys(&vec![key(ALICE, "a"), key(BOB, "b")]),
        Ok(list(&[ALICE, BOB]))
    );
    let mut xs = list(&[ALICE]);
    assert_eq!(
        add_fingerprints(&mut xs, &vec![key(BOB, "b"), anonymous]),
        Err(Error::NoFingerprint)
    );
    assert_eq!(xs, list(&[ALICE]));
    assert_eq!(
        Error::NoFingerprint.to_string(),
        "Fingerprint extraction failed"
    );
}

#[test]
fn recipients_leave_unless_the_list_would_be_empty() {
    let recipients = list(&[ALICE, BOB, CAROL]);
    assert_eq!(
        remaining_recipients(&recipients, &vec![key(BOB, "bob")], "ids"),
        Ok(list(&[ALICE, CAROL]))
    );
    assert_eq!(
        remaining_recipients(&recipients, &vec![], "ids"),
        Ok(recipients.clone())
    );
    let all = vec![key(ALICE, "alice"), key(CAROL, "carol"), key(BOB, "bob")];
    let e = remaining_recipients(&recipients, &all, "/v/.gpg-id").unwrap_err();
    assert_eq!(
        e,
        Error::RecipientsWouldBeEmpty {
            user: format!("bob ({})", BOB),
            path: "/v/.gpg-id".into()
        }
    );
    assert_eq!(
        e.to_string(),
        format!(
            "Cannot remove user bob ({}) from '/v/.gpg-id' as it would be empty afterwards.",
            BOB
        )
    );
    let strangers = vec![key("DDDDDDDD", "dave"), key(BOB, "bob"), key("EEEEEEEE", "eve")];
    let e = remaining_recipients(&recipients, &strangers, "ids").unwrap_err();
    assert_eq!(
        e.to_string(),
        "The following key(s) for removal could not be found in the recipients list.\ndave (DDDDDDDD)\neve (EEEEEEEE)"
    );
}

#[test]
fn a_key_file_may_not_bring_keys_of_others() {
    assert_eq!(check_imported(&list(&[CAROL]), &list(&[CAROL])), Ok(()));
    assert_eq!(check_imported(&list(&[CAROL]), &list(&["CCCCCCCC"])), Ok(()));
    let e = check_imported(&list(&[CAROL, BOB]), &list(&[CAROL])).unwrap_err();
    assert_eq!(
        e,
        Error::SneakedKeys {
            fingerprints: list(&[BOB])
        }
    );
    assert_eq!(
        e.to_string(),
        format!(
            "One of the imported key-files contained more than one recipient.\nThis might mean somebody trying to sneak in their key. The offending fingerprints are listed below\n{}",
            BOB
        )
    );
    assert_eq!(
        check_imported(&list(&[CAROL]), &list(&[CAROL, BOB])),
        Err(Error::FewerKeysImported)
    );
    assert_eq!(
        check_imported(&list(&[CAROL, BOB, BOB]), &list(&[CAROL, BOB])),
        Ok(())
    );
}

#[test]
fn the_keychain_stands_in_for_a_key_file_that_fails() {
    assert_eq!(
        key_from_file_or_keychain(Ok(list(&[CAROL, BOB])), false, CAROL),
        Ok(list(&[CAROL, BOB]))
    );
    assert_eq!(
        key_from_file_or_keychain(Ok(vec![]), true, CAROL),
        Ok(vec![])
    );
    assert_eq!(
        key_from_file_or_keychain(Err(list(&["no file"])), true, CAROL),
        Ok(list(&[CAROL]))
    );
    assert_eq!(
        key_from_file_or_keychain(Err(list(&["no file", "os error"])), false, "CCCCCCCC"),
        Err(list(&[
            "Could not find fingerprint 'CCCCCCCC', tried local file as well as gpg keychain.",
            "no file",
            "os error"
        ]))
    );
}

#[test]
fn imports_are_gathered_until_one_fails() {
    assert_eq!(
        fold_imports(&vec![Ok(list(&[ALICE])), Ok(list(&[BOB, CAROL]))]),
        Ok(list(&[ALICE, BOB, CAROL]))
    );
    assert_eq!(fold_imports(&vec![]), Ok(vec![]));
    assert_eq!(
        fold_imports(&vec![
            Ok(list(&[ALICE])),
            Err("first".to_string()),
            Ok(list(&[BOB])),
            Err("second".to_string())
        ]),
        Err("second\nfirst".to_string())
    );
}

#[test]
fn the_signing_key_is_the_one_secret_key_on_the_list() {
    let recipients = list(&[ALICE, BOB]);
    let secret = vec![key(CAROL, "carol"), key(BOB, "bob")];
    assert_eq!(pick_signing_key(&recipients, &secret, None), Ok(1));
    assert_eq!(pick_signing_key(&recipients, &secret, Some(BOB)), Ok(1));
    assert_eq!(
        pick_signing_key(&recipients, &secret, Some(CAROL)),
        Err(Error::NoSigningKey)
    );
    assert_eq!(
        pick_signing_key(&vec![], &secret, None),
        Err(Error::EmptyRecipients)
    );
    let both = vec![key(ALICE, "alice"), key(CAROL, "carol"), key(BOB, "bob")];
    let e = pick_signing_key(&recipients, &both, None).unwrap_err();
    assert_eq!(
        e.to_string(),
        format!(
            "Multiple keys are suitable for signing, which is ambiguous.\nalice ({})\nbob ({})",
            ALICE, BOB
        )
    );
    assert_eq!(pick_signing_key(&recipients, &both, Some(ALICE)), Ok(0));
    assert_eq!(
        Error::NoSigningKey.to_string(),
        "Didn't find a single secret key suitable to sign keys."
    );
    assert_eq!(
        Error::EmptyRecipients.to_string(),
        "The recipients list is empty, but you are expected to be on that list."
    );
}

#[test]
fn listed_keys_are_counted() {
    let two = vec![key(ALICE, "alice"), key(BOB, "bob")];
    assert_eq!(keylist_display(&two), "alice, bob");
    assert_eq!(check_secret_keys(&two, 1, false), Ok(()));
    assert_eq!(check_secret_keys(&two[..1].iter().map(|k| key(k.fingerprint.as_ref().unwrap(), "alice")).collect(), 0, false), Ok(()));
    assert_eq!(check_secret_keys(&two, 0, true), Err(Error::KeyListTruncated));
    assert_eq!(check_secret_keys(&vec![], 3, false), Err(Error::NoSecretKey));
    let e = check_secret_keys(&two, 0, false).unwrap_err();
    assert_eq!(
        e.to_string(),
        "Found 2 viable keys for key-ids (alice, bob), which is ambiguous. Please specify one with the --gpg-key-id argument."
    );
    assert_eq!(check_found_keys(&two, 2, false), Ok(()));
    assert_eq!(check_found_keys(&two, 2, true), Err(Error::KeyListTruncated));
    let e = check_found_keys(&two, 3, false).unwrap_err();
    assert_eq!(
        e.to_string(),
        "Found 2 viable keys for key-ids (alice, bob), for 3 given user ids."
    );
    assert_eq!(
        Error::KeyListTruncated.to_string(),
        "The key list was truncated unexpectedly, while iterating it"
    );
    assert_eq!(
        Error::NoSecretKey.to_string(),
        "No existing GPG key found for which you have a secret key. Please create one with 'gpg --gen-key' and try again."
    );
}

#[test]
fn key_files_are_named_by_fingerprint() {
    assert_eq!(key_file_pattern(ALICE), None);
    assert_eq!(key_file_pattern("AAAAAAAA"), Some("*AAAAAAAA".to_string()));
    assert_eq!(
        fingerprint_file(ALICE, "/keys", &vec![]),
        Ok(format!("/keys/{}", ALICE))
    );
    assert_eq!(
        fingerprint_file("AAAAAAAA", "/keys", &list(&[ALICE])),
        Ok(format!("/keys/{}", ALICE))
    );
    assert_eq!(
        fingerprint_file("AAAAAAAA", "/keys", &vec![])
            .unwrap_err()
            .to_string(),
        "Did not find key file matching glob pattern '*AAAAAAAA' in directory '/keys'."
    );
    assert_eq!(
        fingerprint_file("AAAAAAAA", "/keys", &list(&[ALICE, BOB]))
            .unwrap_err()
            .to_string(),
        "Found 2 matching key files for glob pattern '*AAAAAAAA' in directory '/keys', but expected just one."
    );
}

#[test]
fn key_files_stay_while_another_vault_needs_them() {
    let mut leader = Vault::default().set_resolved_at("/v/sy.yml").unwrap();
    let mut p = Vault::default();
    p.kind = VaultKind::Partition;
    p.index = 1;
    p.secrets = "p".into();
    leader.partitions = vec![p];
    let lists = vec![list(&[ALICE, BOB]), list(&[BOB, "CCCCCCCC"])];
    assert!(leader.recipient_used_in_other_partitions(BOB, 0, &lists));
    assert!(leader.recipient_used_in_other_partitions(BOB, 1, &lists));
    assert!(!leader.recipient_used_in_other_partitions(ALICE, 0, &lists));
    assert!(leader.recipient_used_in_other_partitions(ALICE, 1, &lists));
    assert!(leader.recipient_used_in_other_partitions(CAROL, 0, &lists));
    assert!(!leader.recipient_used_in_other_partitions(CAROL, 1, &lists));
    assert_eq!(
        leader.removable_key_files(&list(&[ALICE, BOB]), 0, &lists, "/v/keys"),
        vec![format!("/v/keys/{}", ALICE)]
    );
    assert_eq!(
        leader.removable_key_files(&list(&[BOB]), 1, &lists, "/v/keys"),
        Vec::<String>::new()
    );
    assert!(!leader.recipient_used_in_other_partitions(BOB, 0, &vec![]));
    assert!(!leader.recipient_used_in_other_partitions(BOB, 0, &lists[..1].to_vec()));
    assert!(leader.recipient_used_in_other_partitions(BOB, 1, &lists[..1].to_vec()));
}

#[test]
fn recipients_are_listed_by_fingerprint() {
    let mut leader = Vault::default();
    let keys = vec![
        vec![key(ALICE, "alice"), key(BOB, "bob")],
        vec![KeyInfo {
            fingerprint: None,
            user_ids: vec![None, Some("carol".into())],
        }],
    ];
    assert_eq!(
        leader.list_recipients(&keys[0]),
        vec![format!("{} (alice)", ALICE), format!("{} (bob)", BOB)]
    );
    assert_eq!(
        leader.print_recipients(&vec![vec![key(ALICE, "alice")]]),
        vec![format!("{} (alice)", ALICE)]
    );
    let mut p = Vault::default();
    p.kind = VaultKind::Partition;
    p.index = 1;
    p.name = Some("p".into());
    p.secrets = "part".into();
    leader.partitions = vec![p];
    assert_eq!(
        leader.print_recipients(&keys),
        vec![
            "syv://.".to_string(),
            format!("{} (alice)", ALICE),
            format!("{} (bob)", BOB),
            "syv://p@part".to_string(),
            "[no fingerprint!] ([none], carol)".to_string(),
        ]
    );
    assert_eq!(
        leader.print_recipients(&vec![]),
        vec!["syv://.".to_string(), "syv://p@part".to_string()]
    );
    assert_eq!(
        keys[1][0].user_id_fingerprint(),
        "[none], carol ([no fingerprint!])"
    );
    assert_eq!(keys[1][0].key_display(), "[none], carol");
}
