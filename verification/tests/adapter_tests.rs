use card_registry::LookupOutcome;
use card_registry::RegisterOutcome;
use card_registry::Registry;
use card_registry::canonical_card_id;
use card_registry::list_cards;
use card_registry::lookup_own;
use card_registry::register_or_update;

#[test]
fn round_trip_register_then_lookup() {
    let mut reg = Registry::new();
    let owner = String::from("U1");
    let outcome = register_or_update(
        &mut reg,
        &owner,
        &String::from("1234567890abcdef"),
        &String::from("alice"),
    );
    match outcome {
        RegisterOutcome::Created { id } => assert_eq!(id, "1234567890ABCDEF"),
        _ => panic!("expected a created outcome"),
    }
    match lookup_own(&reg, &owner) {
        LookupOutcome::Found { username, id } => {
            assert_eq!(username, "alice");
            assert_eq!(id, "1234567890ABCDEF");
        }
        _ => panic!("expected the registered card"),
    }
}

#[test]
fn normalization_equivalence() {
    let owner = String::from("U1");
    let name = String::from("alice");

    let mut reg_spaced = Registry::new();
    register_or_update(&mut reg_spaced, &owner, &String::from("1234 5678 90AB cdef"), &name);
    let rows_spaced = reg_spaced.list();

    let mut reg_plain = Registry::new();
    register_or_update(&mut reg_plain, &owner, &String::from("1234567890abcdef"), &name);
    let rows_plain = reg_plain.list();

    assert_eq!(rows_spaced.len(), 1);
    assert_eq!(rows_plain.len(), 1);
    assert_eq!(rows_spaced[0].id, rows_plain[0].id);
    assert_eq!(rows_spaced[0].username, rows_plain[0].username);
    assert_eq!(rows_spaced[0].id, "1234567890ABCDEF");
}

#[test]
fn rejection_leaves_registry_untouched() {
    let mut reg = Registry::new();
    let owner = String::from("U2");
    let outcome = register_or_update(
        &mut reg,
        &owner,
        &String::from("not-a-card"),
        &String::from("bob"),
    );
    assert!(matches!(outcome, RegisterOutcome::InvalidFormat));
    assert!(matches!(lookup_own(&reg, &owner), LookupOutcome::NotRegistered));
    assert_eq!(reg.list().len(), 0);
}

#[test]
fn repeat_registration_reports_updated() {
    let mut reg = Registry::new();
    let owner = String::from("U1");
    register_or_update(&mut reg, &owner, &String::from("1234567890ABCDEF"), &String::from("alice"));
    let outcome = register_or_update(
        &mut reg,
        &owner,
        &String::from("FFFFFFFFFFFFFFFF"),
        &String::from("alicia"),
    );
    match outcome {
        RegisterOutcome::Updated { id } => assert_eq!(id, "FFFFFFFFFFFFFFFF"),
        _ => panic!("expected an updated outcome"),
    }
    let rows = reg.list();
    assert_eq!(rows.len(), 1);
    assert_eq!(rows[0].id, "FFFFFFFFFFFFFFFF");
    assert_eq!(rows[0].username, "alicia");
}

#[test]
fn canonical_card_id_normalizes_and_validates() {
    assert_eq!(
        canonical_card_id(&String::from("  1234 5678 90ab CDEF\t")).as_deref(),
        Some("1234567890ABCDEF")
    );
    assert_eq!(canonical_card_id(&String::from("not-a-card")), None);
    assert_eq!(canonical_card_id(&String::from("")), None);
}

#[test]
fn lookup_on_empty_registry_is_not_registered() {
    let reg = Registry::new();
    assert!(matches!(lookup_own(&reg, &String::from("U9")), LookupOutcome::NotRegistered));
}

#[test]
fn wrong_secret_is_rejected() {
    let mut reg = Registry::new();
    register_or_update(
        &mut reg,
        &String::from("U1"),
        &String::from("1234567890ABCDEF"),
        &String::from("alice"),
    );
    let configured = String::from("SECRET-REDACTED");
    let wrong = String::from("guess");
    assert!(list_cards(&reg, Some(&wrong), &configured).is_err());
}

#[test]
fn missing_secret_is_rejected() {
    let reg = Registry::new();
    let configured = String::from("SECRET-REDACTED");
    assert!(list_cards(&reg, None, &configured).is_err());
}

#[test]
fn exact_secret_returns_single_page_listing() {
    let mut reg = Registry::new();
    register_or_update(
        &mut reg,
        &String::from("U1"),
        &String::from("1234567890ABCDEF"),
        &String::from("alice"),
    );
    register_or_update(
        &mut reg,
        &String::from("U3"),
        &String::from("00000000000000AA"),
        &String::from("carol"),
    );
    let configured = String::from("SECRET-REDACTED");
    let supplied = String::from("SECRET-REDACTED");
    let listing = list_cards(&reg, Some(&supplied), &configured).ok().unwrap();
    assert_eq!(listing.pages.len(), 1);
    let cards = &listing.pages[0].cards;
    assert_eq!(cards.len(), 2);
    let mut ids: Vec<&str> = cards.iter().map(|c| c.id.as_str()).collect();
    ids.sort();
    assert_eq!(ids, vec!["00000000000000AA", "1234567890ABCDEF"]);
}
