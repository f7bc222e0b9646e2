use amorfly_ai::stamps::{draw_random, new_uuid, random_failure};

#[test]
fn fresh_ids_are_version_four_uuids() {
    let a = new_uuid().unwrap();
    let b = new_uuid().unwrap();
    assert_eq!(a.len(), 36);
    assert_ne!(a, b);
    let chars: Vec<char> = a.chars().collect();
    for i in [8, 13, 18, 23] {
        assert_eq!(chars[i], '-');
    }
    assert_eq!(chars[14], '4');
    assert!(a.chars().all(|c| c == '-' || c.is_ascii_hexdigit() && !c.is_ascii_uppercase()));
}

#[test]
fn random_bytes_have_the_asked_length() {
    assert_eq!(draw_random(12).unwrap().len(), 12);
    assert_eq!(draw_random(0).unwrap().len(), 0);
    assert_ne!(draw_random(16).unwrap(), draw_random(16).unwrap());
}

#[test]
fn a_failing_random_source_is_reported() {
    assert_eq!(random_failure("boom"), "Rastgele kaynak okunamadı: boom");
}
