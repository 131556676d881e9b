use deck_optimizer::games::{
    cover_candidates, discover_all_games, discover_prism_games, discover_steam_games,
    parse_libraryfolders, GameInfo, PrismInstance, SteamEntry,
};

fn game(name: &str, exe_path: &str, cover_image: Option<&str>, source: &str) -> GameInfo {
    GameInfo {
        name: name.to_string(),
        exe_path: exe_path.to_string(),
        cover_image: cover_image.map(|c| c.to_string()),
        source: source.to_string(),
    }
}

#[test]
fn library_index_names_the_other_libraries() {
    let index = [
        "\"libraryfolders\"",
        "{",
        "\t\"0\"",
        "\t{",
        "\t\t\"path\"\t\t\"/home/deck/.local/share/Steam\"",
        "\t\t\"label\"\t\t\"\"",
        "\t}",
        "\t\"1\"",
        "\t{",
        "\t\t\"path\"\t\t\"/run/media/mmcblk0p1\"",
        "\t}",
        "}",
        "",
    ]
    .join("\n");
    assert_eq!(
        parse_libraryfolders("/home/deck/.steam/steam", Some(&index)),
        vec![
            "/home/deck/.steam/steam",
            "/home/deck/.local/share/Steam",
            "/run/media/mmcblk0p1",
        ]
    );
}

#[test]
fn steam_root_is_always_a_library() {
    assert_eq!(parse_libraryfolders("/steam", None), vec!["/steam"]);
    assert_eq!(parse_libraryfolders("/steam", Some("")), vec!["/steam"]);
    assert_eq!(parse_libraryfolders("/steam", Some("\"path\"\n\"path\" x")), vec!["/steam"]);
    assert_eq!(
        parse_libraryfolders("/steam", Some("\"path\" \"")),
        vec!["/steam".to_string(), String::new()]
    );
    assert_eq!(
        parse_libraryfolders("/steam", Some("\"path\" \"\" x")),
        vec!["/steam".to_string(), String::new()]
    );
}

#[test]
fn cover_is_looked_for_as_png_then_jpg_then_jpeg() {
    assert_eq!(
        cover_candidates("/steam/userdata/1/config/grid", "Portal 2"),
        vec![
            "/steam/userdata/1/config/grid/Portal 2.png",
            "/steam/userdata/1/config/grid/Portal 2.jpg",
            "/steam/userdata/1/config/grid/Portal 2.jpeg",
        ]
    );
}

#[test]
fn steam_games_are_the_directories() {
    let entries = vec![
        SteamEntry {
            name: "Portal 2".to_string(),
            path: "/steam/steamapps/common/Portal 2".to_string(),
            is_dir: true,
            cover_image: Some("/grid/Portal 2.png".to_string()),
        },
        SteamEntry {
            name: "readme.txt".to_string(),
            path: "/steam/steamapps/common/readme.txt".to_string(),
            is_dir: false,
            cover_image: None,
        },
        SteamEntry {
            name: "Hades".to_string(),
            path: "/steam/steamapps/common/Hades".to_string(),
            is_dir: true,
            cover_image: None,
        },
    ];
    assert_eq!(
        discover_steam_games(&entries),
        vec![
            game(
                "Portal 2",
                "/steam/steamapps/common/Portal 2",
                Some("/grid/Portal 2.png"),
                "Steam"
            ),
            game("Hades", "/steam/steamapps/common/Hades", None, "Steam"),
        ]
    );
}

#[test]
fn prism_games_are_the_instances() {
    let instances = vec![
        PrismInstance {
            name: "Vanilla".to_string(),
            path: "/prism/Vanilla".to_string(),
            has_icon: true,
        },
        PrismInstance {
            name: "Modded".to_string(),
            path: "/prism/Modded".to_string(),
            has_icon: false,
        },
    ];
    assert_eq!(
        discover_prism_games(&instances),
        vec![
            game(
                "Vanilla",
                "/prism/Vanilla/.minecraft/launcher_profiles.json",
                Some("/prism/Vanilla/icon.png"),
                "Prism"
            ),
            game("Modded", "/prism/Modded/.minecraft/launcher_profiles.json", None, "Prism"),
        ]
    );
}

#[test]
fn all_games_are_steam_then_prism() {
    let steam = vec![game("A", "/a", None, "Steam"), game("B", "/b", None, "Steam")];
    let prism = vec![game("C", "/c", None, "Prism")];
    assert_eq!(
        discover_all_games(steam.clone(), prism.clone()),
        vec![steam[0].clone(), steam[1].clone(), prism[0].clone()]
    );
    assert_eq!(discover_all_games(vec![], vec![]), Vec::<GameInfo>::new());
    assert_eq!(discover_all_games(vec![], prism.clone()), prism);
}
