use tackd::keys::{Key, Keys};

fn registry(entries: &[(u8, &str)]) -> Keys {
    Keys {
        keys: entries
            .iter()
            .map(|(ver, key)| Key { ver: *ver, key: key.to_string() })
            .collect(),
    }
}

#[test]
fn latest_key_is_the_greatest_version() {
    let keys = registry(&[(1, "a"), (7, "b"), (3, "c")]);
    let latest = keys.latest_key();
    assert_eq!(latest.ver, 7);
    assert_eq!(latest.key, "b");
}

#[test]
fn latest_key_of_equal_versions_is_the_last() {
    let keys = registry(&[(2, "first"), (2, "second"), (1, "third")]);
    let latest = keys.latest_key();
    assert_eq!(latest.ver, 2);
    assert_eq!(latest.key, "second");
}

#[test]
fn get_ver_finds_the_first_entry_of_a_version() {
    let keys = registry(&[(2, "first"), (2, "second"), (1, "third")]);
    assert_eq!(keys.get_ver(2).map(|k| k.key.as_str()), Some("first"));
    assert_eq!(keys.get_ver(1).map(|k| k.key.as_str()), Some("third"));
    assert!(keys.get_ver(9).is_none());
}
