use masterserver::stats::{cleanup_with_clock, update_or_insert_with_clock};
use masterserver::stats::{
    cleanup, cleanup_at, get_all, get_count, update_or_insert, update_or_insert_at, PlayerStats,
    Server, ServerList, PLAYER_HISTORY_LEN,
};

fn announcement(address: &str, port: u16, players: u16) -> Server {
    Server {
        address: address.to_string(),
        port,
        name: "Stats server".to_string(),
        version: "1.1".to_string(),
        players,
        max_players: 64,
        country: Some("NL".to_string()),
        description: None,
        website: Some("example.org".to_string()),
        game_mode: None,
        language: None,
        use_p2p: true,
        use_zt: false,
        zt_id: None,
        zt_address: None,
        public_key_modulus: "m".to_string(),
        public_key_exponent: "e".to_string(),
        player_stats: PlayerStats::default(),
        last_update: 0,
    }
}

#[test]
fn new_server_starts_with_six_empty_samples() {
    let mut list = ServerList::new();
    let mut info = announcement("1.2.3.4", 4499, 9);
    update_or_insert_at(&mut list, &mut info, 1000);
    let all = get_all(&list);
    assert_eq!(all.len(), 1);
    assert_eq!(all[0].player_stats.players, vec![0; PLAYER_HISTORY_LEN]);
    assert_eq!(all[0].player_stats.last_update, 1000);
    assert_eq!(all[0].last_update, 1000);
    assert_eq!(all[0].players, 9);
    assert_eq!(info.player_stats.players, vec![0; 6]);
    assert_eq!(all[0].country.as_deref(), Some("NL"));
}

#[test]
fn within_the_window_the_newest_sample_keeps_the_peak() {
    let mut list = ServerList::new();
    update_or_insert_at(&mut list, &mut announcement("1.2.3.4", 4499, 9), 1000);
    update_or_insert_at(&mut list, &mut announcement("1.2.3.4", 4499, 5), 1100);
    assert_eq!(get_all(&list)[0].player_stats.players, vec![0, 0, 0, 0, 0, 5]);
    update_or_insert_at(&mut list, &mut announcement("1.2.3.4", 4499, 3), 1200);
    let s = &get_all(&list)[0];
    assert_eq!(s.player_stats.players, vec![0, 0, 0, 0, 0, 5]);
    assert_eq!(s.players, 3);
    assert_eq!(s.last_update, 1200);
    assert_eq!(s.player_stats.last_update, 1000);
}

#[test]
fn after_ten_minutes_a_new_sample_is_taken() {
    let mut list = ServerList::new();
    update_or_insert_at(&mut list, &mut announcement("1.2.3.4", 4499, 9), 1000);
    update_or_insert_at(&mut list, &mut announcement("1.2.3.4", 4499, 4), 1600);
    assert_eq!(get_all(&list)[0].player_stats.players, vec![0, 0, 0, 0, 0, 4]);
    update_or_insert_at(&mut list, &mut announcement("1.2.3.4", 4499, 4), 1601);
    let s = &get_all(&list)[0];
    assert_eq!(s.player_stats.players, vec![0, 0, 0, 0, 4, 4]);
    assert_eq!(s.player_stats.last_update, 1601);
    update_or_insert_at(&mut list, &mut announcement("1.2.3.4", 4499, 2), 2202);
    assert_eq!(get_all(&list)[0].player_stats.players, vec![0, 0, 0, 4, 4, 2]);
}

#[test]
fn count_reports_servers_and_players() {
    let mut list = ServerList::new();
    assert_eq!(get_count(&list), (0, 0));
    update_or_insert_at(&mut list, &mut announcement("1.1.1.1", 1, 4), 10);
    update_or_insert_at(&mut list, &mut announcement("2.2.2.2", 2, 6), 10);
    update_or_insert_at(&mut list, &mut announcement("1.1.1.1", 1, 1), 11);
    assert_eq!(get_count(&list), (2, 7));
}

#[test]
fn cleanup_keeps_recent_servers_in_order() {
    let mut list = ServerList::new();
    update_or_insert_at(&mut list, &mut announcement("1.1.1.1", 1, 1), 100);
    update_or_insert_at(&mut list, &mut announcement("2.2.2.2", 2, 1), 101);
    update_or_insert_at(&mut list, &mut announcement("3.3.3.3", 3, 1), 95);
    cleanup_at(&mut list, 112);
    let all = get_all(&list);
    let kept: Vec<&str> = all.iter().map(|s| s.address.as_str()).collect();
    assert_eq!(kept, vec!["1.1.1.1", "2.2.2.2"]);
    cleanup_at(&mut list, 113);
    assert_eq!(get_count(&list), (1, 1));
}

#[test]
fn clock_reading_versions_succeed() {
    let mut list = ServerList::new();
    let mut info = announcement("1.2.3.4", 4499, 3);
    assert!(update_or_insert(&mut list, &mut info));
    assert!(update_or_insert(&mut list, &mut announcement("1.2.3.4", 4499, 8)));
    assert_eq!(get_count(&list), (1, 8));
    assert!(cleanup(&mut list));
    assert_eq!(list.len(), 1);
}

#[test]
fn bad_words_in_name_or_description() {
    let mut s = announcement("1.1.1.1", 1, 1);
    assert!(!s.contains_bad_words());
    s.name = "fuck".to_string();
    assert!(s.contains_bad_words());
    assert_eq!(s.duplicate().name, "fuck");
    s.name = "clean".to_string();
    s.description = Some("a shit place".to_string());
    assert!(s.contains_bad_words());
    s.description = Some("a nice place".to_string());
    s.website = Some("shit.com".to_string());
    assert!(!s.contains_bad_words());
}

#[test]
fn both_lists_keep_the_same_positions() {
    let mut plain = masterserver::servers::ServerList::new();
    let mut with_stats = ServerList::new();
    let stamps = [(100u64, "1.1.1.1"), (90, "2.2.2.2"), (105, "3.3.3.3"), (80, "4.4.4.4")];
    for (t, a) in stamps {
        let mut p = plain_announcement(a);
        masterserver::servers::update_or_insert_at(&mut plain, &mut p, t);
        update_or_insert_at(&mut with_stats, &mut announcement(a, 1, 1), t);
    }
    masterserver::servers::cleanup_at(&mut plain, 110);
    cleanup_at(&mut with_stats, 110);
    let a: Vec<String> = masterserver::servers::get_list(&plain).into_iter().map(|s| s.address).collect();
    let b: Vec<String> = get_all(&with_stats).into_iter().map(|s| s.address).collect();
    assert_eq!(a, vec!["1.1.1.1", "3.3.3.3"]);
    assert_eq!(a, b);
}

fn plain_announcement(address: &str) -> masterserver::servers::structs::Server {
    masterserver::servers::structs::Server {
        address: address.to_string(),
        port: 1,
        name: "n".to_string(),
        version: "v".to_string(),
        players: 1,
        max_players: 2,
        country: "NL".to_string(),
        description: String::new(),
        website: String::new(),
        game_mode: String::new(),
        language: String::new(),
        use_p2p: false,
        use_zt: false,
        zt_id: String::new(),
        zt_address: String::new(),
        public_key_modulus: String::new(),
        public_key_exponent: String::new(),
        last_update: 0,
    }
}

#[test]
fn clock_dependent_decisions() {
    let mut list = ServerList::new();
    assert!(!update_or_insert_with_clock(&mut list, &mut announcement("1.1.1.1", 1, 2), None));
    assert_eq!(list.len(), 0);
    assert!(update_or_insert_with_clock(&mut list, &mut announcement("1.1.1.1", 1, 2), Some(50)));
    assert!(!update_or_insert_with_clock(&mut list, &mut announcement("1.1.1.1", 1, 9), Some(49)));
    assert_eq!(get_count(&list), (1, 2));
    assert!(update_or_insert_with_clock(&mut list, &mut announcement("2.2.2.2", 2, 9), Some(10)));
    assert_eq!(get_count(&list), (2, 11));
    assert!(!cleanup_with_clock(&mut list, Some(40)));
    assert!(!cleanup_with_clock(&mut list, None));
    assert!(cleanup_with_clock(&mut list, Some(55)));
    assert_eq!(get_count(&list), (1, 2));
}
