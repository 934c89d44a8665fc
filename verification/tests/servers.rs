use masterserver::servers::cleanup_with_clock;
use masterserver::servers::structs::Server;
use masterserver::servers::{cleanup, cleanup_at, get_list, update_or_insert, update_or_insert_at, ServerList};

fn announcement(address: &str, port: u16, players: u16) -> Server {
    Server {
        address: address.to_string(),
        port,
        name: "My server".to_string(),
        version: "1.0".to_string(),
        players,
        max_players: 32,
        country: "DE".to_string(),
        description: "a shit server".to_string(),
        website: "example.com".to_string(),
        game_mode: "freeroam".to_string(),
        language: "en".to_string(),
        use_p2p: false,
        use_zt: false,
        zt_id: String::new(),
        zt_address: String::new(),
        public_key_modulus: "abc".to_string(),
        public_key_exponent: "AQAB".to_string(),
        last_update: 0,
    }
}

#[test]
fn new_server_is_filtered_stamped_and_appended() {
    let mut list = ServerList::new();
    let mut info = announcement("1.2.3.4", 4499, 3);
    update_or_insert_at(&mut list, &mut info, 1000);
    let all = get_list(&list);
    assert_eq!(all.len(), 1);
    assert_eq!(all[0].description, "a **** server");
    assert_eq!(all[0].name, "My server");
    assert_eq!(all[0].last_update, 1000);
    assert_eq!(all[0].players, 3);
    assert_eq!(info.description, "a **** server");
    assert_eq!(info.last_update, 1000);
}

#[test]
fn known_server_gets_players_and_time_only() {
    let mut list = ServerList::new();
    let mut first = announcement("1.2.3.4", 4499, 3);
    update_or_insert_at(&mut list, &mut first, 1000);
    let mut second = announcement("1.2.3.4", 4499, 7);
    second.name = "Renamed".to_string();
    update_or_insert_at(&mut list, &mut second, 1005);
    let all = get_list(&list);
    assert_eq!(all.len(), 1);
    assert_eq!(all[0].players, 7);
    assert_eq!(all[0].last_update, 1005);
    assert_eq!(all[0].name, "My server");
    assert_eq!(second.last_update, 0);
    assert_eq!(second.description, "a shit server");
}

#[test]
fn same_address_other_port_is_another_server() {
    let mut list = ServerList::new();
    update_or_insert_at(&mut list, &mut announcement("1.2.3.4", 4499, 1), 10);
    update_or_insert_at(&mut list, &mut announcement("1.2.3.4", 4500, 2), 11);
    update_or_insert_at(&mut list, &mut announcement("5.6.7.8", 4499, 3), 12);
    let all = get_list(&list);
    assert_eq!(all.len(), 3);
    assert_eq!((all[0].port, all[1].port, all[2].address.as_str()), (4499, 4500, "5.6.7.8"));
}

#[test]
fn cleanup_drops_servers_older_than_twelve_seconds() {
    let mut list = ServerList::new();
    update_or_insert_at(&mut list, &mut announcement("1.1.1.1", 1, 1), 100);
    update_or_insert_at(&mut list, &mut announcement("2.2.2.2", 2, 1), 107);
    update_or_insert_at(&mut list, &mut announcement("3.3.3.3", 3, 1), 108);
    cleanup_at(&mut list, 120);
    let all = get_list(&list);
    let kept: Vec<&str> = all.iter().map(|s| s.address.as_str()).collect();
    assert_eq!(kept, vec!["3.3.3.3"]);
    cleanup_at(&mut list, 108);
    assert_eq!(list.len(), 1);
}

#[test]
fn announced_server_survives_cleanup_at_same_time() {
    let mut list = ServerList::new();
    update_or_insert_at(&mut list, &mut announcement("1.1.1.1", 1, 1), 100);
    update_or_insert_at(&mut list, &mut announcement("1.1.1.1", 1, 5), 500);
    cleanup_at(&mut list, 500);
    assert_eq!(list.len(), 1);
    assert_eq!(get_list(&list)[0].players, 5);
}

#[test]
fn clock_reading_versions_use_the_current_time() {
    let mut list = ServerList::new();
    let mut info = announcement("1.2.3.4", 4499, 3);
    assert!(update_or_insert(&mut list, &mut info));
    let now = std::time::SystemTime::now()
        .duration_since(std::time::UNIX_EPOCH)
        .unwrap()
        .as_secs();
    let stamped = get_list(&list)[0].last_update;
    assert!(stamped <= now && now - stamped < 5);
    assert!(cleanup(&mut list));
    assert_eq!(list.len(), 1);
}

#[test]
fn position_finds_first_match() {
    let mut list = ServerList::new();
    update_or_insert_at(&mut list, &mut announcement("1.1.1.1", 1, 1), 1);
    update_or_insert_at(&mut list, &mut announcement("2.2.2.2", 2, 1), 1);
    assert_eq!(list.position(&"2.2.2.2".to_string(), 2), Some(1));
    assert_eq!(list.position(&"2.2.2.2".to_string(), 3), None);
}

#[test]
fn filter_bad_words_censors_name_description_and_website() {
    let mut s = announcement("1.1.1.1", 1, 1);
    s.name = "fuck".to_string();
    s.website = "shit.com".to_string();
    s.game_mode = "shit".to_string();
    s.filter_bad_words();
    assert_eq!(s.name, "****");
    assert_eq!(s.description, "a **** server");
    assert_eq!(s.website, "****.com");
    assert_eq!(s.game_mode, "shit");
}

#[test]
fn cleanup_with_clock_decides_on_what_the_clock_gave() {
    let mut list = ServerList::new();
    update_or_insert_at(&mut list, &mut announcement("1.1.1.1", 1, 1), 100);
    update_or_insert_at(&mut list, &mut announcement("2.2.2.2", 2, 1), 90);
    assert!(!cleanup_with_clock(&mut list, None));
    assert!(!cleanup_with_clock(&mut list, Some(99)));
    assert_eq!(list.len(), 2);
    assert!(cleanup_with_clock(&mut list, Some(105)));
    assert_eq!(get_list(&list)[0].address, "1.1.1.1");
    assert_eq!(list.len(), 1);
}

#[test]
fn listed_for_twelve_seconds_after_announcing() {
    let mut list = ServerList::new();
    update_or_insert_at(&mut list, &mut announcement("1.1.1.1", 1, 4), 1000);
    cleanup_at(&mut list, 1012);
    assert_eq!(list.len(), 1);
    assert_eq!(get_list(&list)[0].players, 4);
    cleanup_at(&mut list, 1013);
    assert_eq!(list.len(), 0);
}
