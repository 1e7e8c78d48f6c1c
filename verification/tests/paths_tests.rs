use church_presenter::paths::{
    choose_kjv_db_path, get_data_db_path, join_path, kjv_db_candidates, saves_dir_candidates, saves_fallback,
    user_data_dir, Platform,
};

#[test]
fn joining_paths() {
    assert_eq!(join_path(Platform::Other, "/home/u", "saves"), "/home/u/saves");
    assert_eq!(join_path(Platform::Other, "/home/u/", "saves"), "/home/u/saves");
    assert_eq!(join_path(Platform::Other, "", "saves"), "saves");
    assert_eq!(join_path(Platform::Other, "C:", "saves"), "C:/saves");
    assert_eq!(join_path(Platform::MacOs, "/Users/a\\", "x"), "/Users/a\\/x");
    assert_eq!(get_data_db_path(Platform::Other, "/srv/saves"), "/srv/saves/data.sqlite");
    assert_eq!(saves_fallback(), "saves");
}

#[test]
fn joining_paths_on_windows() {
    assert_eq!(get_data_db_path(Platform::Windows, "C:\\saves"), "C:\\saves\\data.sqlite");
    assert_eq!(join_path(Platform::Windows, "C:\\saves\\", "data.sqlite"), "C:\\saves\\data.sqlite");
    assert_eq!(join_path(Platform::Windows, "C:/saves/", "data.sqlite"), "C:/saves/data.sqlite");
    assert_eq!(join_path(Platform::Windows, "C:", "data.sqlite"), "C:data.sqlite");
    assert_eq!(join_path(Platform::Windows, "", "saves"), "saves");
    assert_eq!(saves_dir_candidates(Platform::Windows, Some("C:\\cp"), Some("C:\\Users\\a\\AppData\\Local")),
        vec!["C:\\cp\\saves", "C:\\Users\\a\\AppData\\Local\\church-presenter\\saves"]);
}

#[test]
fn joining_matches_std_here() {
    for base in ["/home/u", "/home/u/", "", "rel/dir", "C:", "a\\b"] {
        for name in ["saves", "data.sqlite", "Application Support"] {
            let want = std::path::Path::new(base).join(name).to_string_lossy().to_string();
            assert_eq!(join_path(Platform::Other, base, name), want, "{:?} {:?}", base, name);
        }
    }
}

#[test]
fn saves_directories_in_order() {
    assert_eq!(saves_dir_candidates(Platform::Other, Some("/opt/cp"), Some("/home/u/.local/share")),
        vec!["/opt/cp/saves", "/home/u/.local/share/church-presenter/saves"]);
    assert_eq!(saves_dir_candidates(Platform::Other, None, Some("/d")), vec!["/d/church-presenter/saves"]);
    assert!(saves_dir_candidates(Platform::Other, None, None).is_empty());
}

#[test]
fn user_data_directories() {
    assert_eq!(user_data_dir(Platform::Windows, Some("C:/L"), Some("C:/R"), None, None), Some("C:/L".to_string()));
    assert_eq!(user_data_dir(Platform::Windows, None, Some("C:/R"), None, None), Some("C:/R".to_string()));
    assert_eq!(user_data_dir(Platform::MacOs, None, None, Some("/Users/a"), None), Some("/Users/a/Library/Application Support".to_string()));
    assert_eq!(user_data_dir(Platform::Other, None, None, Some("/home/a"), Some("/x")), Some("/x".to_string()));
    assert_eq!(user_data_dir(Platform::Other, None, None, Some("/home/a"), None), Some("/home/a/.local/share".to_string()));
    assert_eq!(user_data_dir(Platform::Other, None, None, None, None), None);
}

#[test]
fn bible_database_places() {
    let c = kjv_db_candidates(Platform::Other, "/s", Some("/bin"), vec!["/usr/share/church-presenter/KJV.sqlite".to_string()]);
    assert_eq!(c, vec!["/s/KJV.sqlite", "/bin/KJV.sqlite", "/bin/saves/KJV.sqlite", "/usr/share/church-presenter/KJV.sqlite"]);
    assert_eq!(choose_kjv_db_path(&c, &vec![false, false, true, true]), ("/bin/saves/KJV.sqlite".to_string(), false));
    assert_eq!(choose_kjv_db_path(&c, &vec![false; 4]), ("/s/KJV.sqlite".to_string(), true));
    assert_eq!(kjv_db_candidates(Platform::Other, "/s", None, vec![]), vec!["/s/KJV.sqlite"]);
    assert_eq!(kjv_db_candidates(Platform::Windows, "C:\\s", Some("C:\\bin"), vec![]),
        vec!["C:\\s\\KJV.sqlite", "C:\\bin\\KJV.sqlite", "C:\\bin\\saves\\KJV.sqlite"]);
}
