use masterserver::routes::{
    _get_total_player_count, apply_forwarded_headers, check_length, find_server,
    length_violation, review_submission, review_submission_combined, Rejection,
};
use masterserver::servers::structs::Server;

fn announcement(address: &str, port: u16, players: u16) -> Server {
    Server {
        address: address.to_string(),
        port,
        name: "Route server".to_string(),
        version: "1.0".to_string(),
        players,
        max_players: 16,
        country: "US".to_string(),
        description: "hello".to_string(),
        website: "example.com".to_string(),
        game_mode: "race".to_string(),
        language: "en".to_string(),
        use_p2p: false,
        use_zt: true,
        zt_id: "id".to_string(),
        zt_address: "zt".to_string(),
        public_key_modulus: "modulus".to_string(),
        public_key_exponent: "AQAB".to_string(),
        last_update: 0,
    }
}

#[test]
fn check_length_limits() {
    assert_eq!(check_length("name", 25), None);
    assert_eq!(check_length("name", 26), Some("Your `name` is too long!"));
    assert_eq!(check_length("description", 390), None);
    assert_eq!(check_length("description", 391), Some("Your `description` is too long!"));
    assert_eq!(check_length("website", 51), Some("Your `website` is too long!"));
    assert_eq!(check_length("website", 50), None);
    assert_eq!(check_length("country", 3), None);
    assert_eq!(check_length("country", 4), Some("Your `country` is too long!"));
    assert_eq!(check_length("public_key_modulus", 345), Some("Your `public_key_modulus` is too long!"));
    assert_eq!(check_length("public_key_modulus", 344), None);
    assert_eq!(check_length("public_key_exponent", 17), Some("Your `public_key_exponent` is too long!"));
    assert_eq!(check_length("public_key_exponent", 16), None);
    assert_eq!(check_length("language", 1000), None);
}

#[test]
fn lengths_are_counted_in_bytes() {
    let mut s = announcement("1.1.1.1", 1, 1);
    s.country = "ÄÖ".to_string();
    assert_eq!(length_violation(&s), Some("Your `country` is too long!"));
    s.country = "ÄB".to_string();
    assert_eq!(length_violation(&s), None);
}

#[test]
fn first_violation_in_field_order() {
    let mut s = announcement("1.1.1.1", 1, 1);
    s.website = "w".repeat(60);
    s.public_key_exponent = "e".repeat(20);
    assert_eq!(length_violation(&s), Some("Your `website` is too long!"));
    s.name = "n".repeat(30);
    assert_eq!(length_violation(&s), Some("Your `name` is too long!"));
}

#[test]
fn missing_address_header_is_refused() {
    let mut s = announcement("9.9.9.9", 1, 1);
    let r = review_submission(&mut s, None, Some("FR"));
    assert!(matches!(r, Err(Rejection::MissingHeader)));
    let e = r.unwrap_err();
    assert_eq!((e.status(), e.body()), (500, "Missing header!"));
    assert_eq!(s.country, "US");
    assert!(!apply_forwarded_headers(&mut s, None, None));
}

#[test]
fn headers_amend_the_announcement() {
    let mut s = announcement("9.9.9.9", 1, 1);
    assert!(review_submission(&mut s, Some("1.2.3.4"), Some("FR")).is_ok());
    assert_eq!(s.address, "1.2.3.4");
    assert_eq!(s.country, "FR");
    let mut t = announcement("9.9.9.9", 1, 1);
    assert!(review_submission(&mut t, Some("2001:db8::1"), None).is_ok());
    assert_eq!(t.address, "9.9.9.9");
    assert_eq!(t.country, "US");
}

#[test]
fn too_long_field_is_refused_with_its_message() {
    let mut s = announcement("9.9.9.9", 1, 1);
    let r = review_submission(&mut s, Some("1.2.3.4"), Some("FRANCE"));
    match r {
        Err(e) => assert_eq!((e.status(), e.body()), (400, "Your `country` is too long!")),
        Ok(()) => panic!("accepted"),
    }
}

#[test]
fn combined_check_uses_one_message() {
    let mut s = announcement("9.9.9.9", 1, 1);
    s.description = "d".repeat(400);
    match review_submission_combined(&mut s, Some("1.2.3.4"), None) {
        Err(Rejection::TooLong(m)) => assert_eq!(m, "Your server name, description, website, country, public-key-modulus or public-key-exponent length is too long!"),
        _ => panic!("not refused"),
    }
    let mut t = announcement("9.9.9.9", 1, 1);
    assert!(review_submission_combined(&mut t, Some("1.2.3.4"), None).is_ok());
    assert!(matches!(review_submission_combined(&mut t, None, None), Err(Rejection::MissingHeader)));
}

#[test]
fn find_server_and_total_players() {
    let servers = vec![
        announcement("1.1.1.1", 1, 3),
        announcement("2.2.2.2", 2, 4),
        announcement("2.2.2.2", 3, 5),
    ];
    assert_eq!(find_server(&servers, "2.2.2.2", 3), Some(2));
    assert_eq!(find_server(&servers, "2.2.2.2", 4), None);
    assert_eq!(_get_total_player_count(&servers), 12);
    assert_eq!(_get_total_player_count(&[]), 0);
}
