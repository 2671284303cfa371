use famiibo::catalog::{collect_game_amiibo, list_games, CategoryEntry, Entry, GameEntry};
use famiibo::names::{name_replacer, Character, Game};
use famiibo::numbers::{decimal_text, parse_unsigned_text};
use famiibo::requests::{
    decode_game_name, decode_request_path, dump_path_of, missing_dump, port_from_setting,
    timeout_from_setting, writer_command,
};
use famiibo::status::Error;

#[test]
fn ac_names_keep_what_follows_the_first_dash() {
    assert_eq!(name_replacer("[AC] 001 - Isabelle"), " Isabelle");
    assert_eq!(name_replacer("  [AC]Tom Nook-Card-2"), "Card-2");
}

#[test]
fn ac_names_without_dash_stay_whole() {
    assert_eq!(name_replacer("[AC] Isabelle"), "[AC] Isabelle");
    assert_eq!(name_replacer("[AC]"), "[AC]");
}

#[test]
fn other_names_lose_tags_and_outer_space() {
    assert_eq!(name_replacer("Mario [AC] "), "Mario");
    assert_eq!(name_replacer("  Zelda\t"), "Zelda");
    assert_eq!(name_replacer("Link"), "Link");
    assert_eq!(name_replacer("A[AC]B[AC]"), "AB");
    assert_eq!(name_replacer(""), "");
    assert_eq!(name_replacer("\u{3000}Kirby\u{a0}"), "Kirby");
}

#[test]
fn game_titles_drop_the_amiibo_word() {
    let g = Game::from_stem("Super Smash Bros Amiibo");
    assert_eq!(g.name, "Super Smash Bros");
    assert_eq!(g.url, "/game/Super Smash Bros Amiibo");
    let g = Game::from_stem("AmiiboAmiibo");
    assert_eq!(g.name, "");
}

#[test]
fn games_are_named_after_the_file_stem() {
    let g = Game::from_path("public/amiibo/Zelda Amiibo.d").unwrap();
    assert_eq!(g.name, "Zelda");
    assert_eq!(g.url, "/game/Zelda Amiibo");
    assert!(Game::from_path("public/amiibo/..").is_none());
    assert!(Game::from_path("/").is_none());
}

#[test]
fn characters_link_to_their_encoded_path() {
    let c = Character::from_path("public/amiibo/Zelda/Link (Archer).bin").unwrap();
    assert_eq!(c.name, "Link (Archer)");
    assert_eq!(c.url, "/write?path=public%2Famiibo%2FZelda%2FLink%20%28Archer%29.bin");
    let c = Character::from_path("public/amiibo/AC/[AC] 012 - Tom Nook.bin").unwrap();
    assert_eq!(c.name, " Tom Nook");
}

#[test]
fn games_are_listed_from_directories_only() {
    let entries = vec![
        Entry::Dir("Zelda Amiibo".to_string()),
        Entry::File("readme.txt".to_string()),
        Entry::Dir(".hidden".to_string()),
        Entry::Dir("Smash Amiibo.v2".to_string()),
    ];
    let games = list_games(&entries);
    let names: Vec<&str> = games.iter().map(|g| g.name.as_str()).collect();
    let urls: Vec<&str> = games.iter().map(|g| g.url.as_str()).collect();
    assert_eq!(names, vec!["Zelda", ".hidden", "Smash"]);
    assert_eq!(urls, vec!["/game/Zelda Amiibo", "/game/.hidden", "/game/Smash Amiibo"]);
}

#[test]
fn game_characters_are_collected_by_category() {
    let entries = vec![
        GameEntry::File("Link.bin".to_string()),
        GameEntry::Dir(
            "Fighters".to_string(),
            vec![
                CategoryEntry::File("Mario.bin".to_string()),
                CategoryEntry::Dir(
                    "Gold".to_string(),
                    vec![Entry::File("Mario Gold.bin".to_string()), Entry::Dir("Deep".to_string())],
                ),
                CategoryEntry::Dir("Empty".to_string(), vec![]),
            ],
        ),
        GameEntry::Dir("Nothing".to_string(), vec![]),
        GameEntry::File("Zelda.bin".to_string()),
    ];
    let ga = collect_game_amiibo("Smash".to_string(), &entries);
    assert_eq!(ga.game, "Smash");
    let basic: Vec<(&str, &str)> =
        ga.basic.iter().map(|c| (c.name.as_str(), c.url.as_str())).collect();
    assert_eq!(
        basic,
        vec![
            ("Link", "/write?path=public%2Famiibo%2FSmash%2FLink.bin"),
            ("Zelda", "/write?path=public%2Famiibo%2FSmash%2FZelda.bin"),
        ]
    );
    let titles: Vec<&str> = ga.categories.iter().map(|(t, _)| t.as_str()).collect();
    assert_eq!(titles, vec!["Smash Fighters Gold ", "Smash Fighters "]);
    assert_eq!(ga.categories[0].1[0].name, "Mario Gold");
    assert_eq!(
        ga.categories[0].1[0].url,
        "/write?path=public%2Famiibo%2FSmash%2FFighters%2FGold%2FMario%20Gold.bin"
    );
    assert_eq!(ga.categories[1].1.len(), 1);
    assert_eq!(ga.categories[1].1[0].name, "Mario");
}

#[test]
fn games_outside_the_root_have_no_categories() {
    let entries = vec![
        GameEntry::Dir("Fighters".to_string(), vec![CategoryEntry::File("Mario.bin".to_string())]),
        GameEntry::File("Link.bin".to_string()),
    ];
    let ga = collect_game_amiibo("/tmp/elsewhere".to_string(), &entries);
    assert!(ga.categories.is_empty());
    assert_eq!(ga.basic.len(), 1);
    assert_eq!(ga.basic[0].url, "/write?path=%2Ftmp%2Felsewhere%2FLink.bin");
}

#[test]
fn a_category_seen_twice_keeps_its_last_characters() {
    let entries = vec![
        GameEntry::Dir(
            "A".to_string(),
            vec![CategoryEntry::Dir("B".to_string(), vec![Entry::File("x.bin".to_string())])],
        ),
        GameEntry::Dir(
            "A/B".to_string(),
            vec![CategoryEntry::File("y.bin".to_string())],
        ),
    ];
    let ga = collect_game_amiibo("G".to_string(), &entries);
    assert_eq!(ga.categories.len(), 1);
    assert_eq!(ga.categories[0].0, "G A B ");
    assert_eq!(ga.categories[0].1[0].name, "y");
}

#[test]
fn dump_paths_follow_set_and_name() {
    assert_eq!(dump_path_of("Smash", "Mario%20Gold"), "public/amiibo/Smash/Mario Gold.bin");
    assert_eq!(dump_path_of("Smash", "Mario.bak"), "public/amiibo/Smash/Mario.bin");
    assert_eq!(dump_path_of("Smash/", "x.y.z"), "public/amiibo/Smash/x.y.bin");
    assert_eq!(dump_path_of("/abs", ".hidden"), "/abs/.hidden.bin");
    assert_eq!(dump_path_of("Smash", "/etc/passwd"), "/etc/passwd.bin");
    assert_eq!(dump_path_of("Smash", ""), "public/amiibo/Smash.bin");
    assert_eq!(dump_path_of("Smash", ".."), "public/amiibo/Smash/..");
}

#[test]
fn request_paths_are_percent_decoded() {
    match decode_request_path("public%2Famiibo%2FZelda%2FLink%20%28Archer%29.bin") {
        Ok(p) => assert_eq!(p, "public/amiibo/Zelda/Link (Archer).bin"),
        Err(_) => panic!("expected a path"),
    }
    match decode_request_path("a%2") {
        Ok(p) => assert_eq!(p, "a%2"),
        Err(_) => panic!("expected a path"),
    }
    match decode_request_path("%FF") {
        Err(Error::NotFound(m)) => {
            assert_eq!(m, "%FF: invalid utf-8 sequence of 1 bytes from index 0")
        }
        _ => panic!("expected an error"),
    }
    assert_eq!(decode_game_name("Zelda%20Amiibo"), Some("Zelda Amiibo".to_string()));
    assert_eq!(decode_game_name("%C3%28"), None);
}

#[test]
fn encoded_urls_decode_to_the_path() {
    let path = "public/amiibo/Pokémon/Pikachu & Co 100%.bin";
    let c = Character::from_path(path).unwrap();
    let query = c.url.strip_prefix("/write?path=").unwrap();
    match decode_request_path(query) {
        Ok(p) => assert_eq!(p, path),
        Err(_) => panic!("expected a path"),
    }
}

#[test]
fn missing_dumps_are_reported() {
    match missing_dump("public/amiibo/x.bin") {
        Error::NotFound(m) => assert_eq!(m, "Amiibo not found: public/amiibo/x.bin"),
        _ => panic!("expected not found"),
    }
    assert_eq!(
        missing_dump("a").message(),
        "Amiibo not found: a was not found"
    );
    assert_eq!(Error::Internal("boom".to_string()).message(), "Error: boom");
}

#[test]
fn writer_command_names_key_and_dump() {
    let c = writer_command("public/amiibo/x.bin");
    assert_eq!(c.program, "pimiibo");
    assert_eq!(c.args, vec!["public/key_retail.bin".to_string(), "public/amiibo/x.bin".to_string()]);
}

#[test]
fn settings_are_parsed_like_std() {
    assert_eq!(port_from_setting(None), 80);
    assert_eq!(port_from_setting(Some("8080".to_string())), 8080);
    assert_eq!(port_from_setting(Some("+8080".to_string())), 8080);
    assert_eq!(port_from_setting(Some("65535".to_string())), 65535);
    assert_eq!(port_from_setting(Some("65536".to_string())), 80);
    assert_eq!(port_from_setting(Some("-1".to_string())), 80);
    assert_eq!(port_from_setting(Some("".to_string())), 80);
    assert_eq!(port_from_setting(Some("+".to_string())), 80);
    assert_eq!(port_from_setting(Some(" 80".to_string())), 80);
    assert_eq!(port_from_setting(Some("0081".to_string())), 81);
    assert_eq!(timeout_from_setting(None), 120);
    assert_eq!(timeout_from_setting(Some("5".to_string())), 5);
    assert_eq!(timeout_from_setting(Some("18446744073709551615".to_string())), u64::MAX);
    assert_eq!(timeout_from_setting(Some("18446744073709551616".to_string())), 120);
    assert_eq!(timeout_from_setting(Some("1x".to_string())), 120);
}

#[test]
fn numbers_read_back_what_was_written() {
    for n in [0u64, 7, 10, 159, 65535, 1234567890, u64::MAX] {
        let s = decimal_text(n);
        assert_eq!(s, n.to_string());
        assert_eq!(parse_unsigned_text(&s, u64::MAX), Some(n));
        assert_eq!(s.parse::<u64>().ok(), Some(n));
    }
    for s in ["", "+", "-0", "1_000", "12a", "+12", "00", "99999999999999999999"] {
        assert_eq!(parse_unsigned_text(s, u64::MAX), s.parse::<u64>().ok());
        assert_eq!(parse_unsigned_text(s, 65535).map(|v| v as u16), s.parse::<u16>().ok());
    }
}

#[test]
fn outer_blanks_do_not_change_untagged_names() {
    for n in ["Mario", "A[AC]B", "  x ", "", "[A C]"] {
        assert_eq!(name_replacer(&format!(" {n} ")), name_replacer(n));
    }
    assert_ne!(name_replacer(" [AC] a-b "), name_replacer("[AC] a-b"));
}
