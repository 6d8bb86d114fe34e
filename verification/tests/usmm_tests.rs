use std::collections::HashSet;

use usmm::{
    about_lines, cheat_names, cpkredir_action, cpkredir_folder_error, cpkredir_report,
    format_code_key, format_main_key, has_zip_extension, is_cheat, receive_file, renderer_label,
    trim_quotes_str, zip_stem, CpkAction, ModManager, PickedFile,
};

const DB: &str = "[Main]
ActiveModCount=2
ActiveMod0=\"modA\"
ActiveMod1=\"modB\"
ManifestVersion=1

[Mods]
modA=\"C:\\Mods\\A\\mod.ini\"
modB=\"C:/Mods/B/mod.ini\"

[Codes]
CodeCount=2
Code0=\"SkipIntroLogos\"
Code1=\"NotACheat\"
";

fn set_of(v: &[String]) -> HashSet<String> {
    v.iter().cloned().collect()
}

#[test]
fn main_keys_are_spelled_for_the_game() {
    assert_eq!(format_main_key("activemodcount"), "ActiveModCount");
    assert_eq!(format_main_key("activemod0"), "ActiveMod0");
    assert_eq!(format_main_key("activemod12"), "ActiveMod12");
    assert_eq!(format_main_key("activemodx"), "ActiveModX");
    assert_eq!(format_main_key("activemod"), "ActiveMod");
    assert_eq!(format_main_key("manifestversion"), "ManifestVersion");
    assert_eq!(format_main_key("reverseloadorder"), "ReverseLoadOrder");
    assert_eq!(format_main_key("favoritemodcount"), "FavoriteModCount");
    assert_eq!(format_main_key("other"), "Other");
    assert_eq!(format_main_key(""), "");
}

#[test]
fn code_keys_are_spelled_for_the_game() {
    assert_eq!(format_code_key("codecount"), "CodeCount");
    assert_eq!(format_code_key("code0"), "Code0");
    assert_eq!(format_code_key("code7"), "Code7");
    assert_eq!(format_code_key("codex"), "CodeX");
    assert_eq!(format_code_key("misc"), "Misc");
    assert_eq!(format_code_key("ßig"), "SSig");
}

#[test]
fn quotes_are_trimmed_at_both_ends() {
    assert_eq!(trim_quotes_str("\"abc\""), "abc");
    assert_eq!(trim_quotes_str("\"\"abc\""), "abc");
    assert_eq!(trim_quotes_str("a\"b"), "a\"b");
    assert_eq!(trim_quotes_str("\"\"\""), "");
    assert_eq!(trim_quotes_str(""), "");
}

#[test]
fn cheat_list_has_the_known_codes() {
    let names = cheat_names();
    assert_eq!(names.len(), 18);
    assert_eq!(names[0], "UseOfficialTitleOnTitleBar");
    assert_eq!(names[17], "HomingAttackOnJump");
    assert!(is_cheat("SkipIntroLogos"));
    assert!(!is_cheat("skipintrologos"));
    assert!(!is_cheat("NotACheat"));
}

#[test]
fn reading_a_database_lists_mods_and_cheats() {
    let mut db = ModManager::new();
    let sources = db.read_database(DB.to_string()).unwrap();
    assert_eq!(
        set_of(db.active_mods()),
        ["modA", "modB"].iter().map(|s| s.to_string()).collect()
    );
    assert_eq!(
        set_of(db.enabled_cheats()),
        ["SkipIntroLogos"].iter().map(|s| s.to_string()).collect()
    );
    let mut src: Vec<(String, String)> = sources;
    src.sort();
    assert_eq!(
        src,
        vec![
            ("moda".to_string(), "C:\\Mods\\A\\mod.ini".to_string()),
            ("modb".to_string(), "C:/Mods/B/mod.ini".to_string()),
        ]
    );
    assert!(db.mods_list().is_empty());
    assert!(db.is_active("modA"));
    assert!(!db.is_active("moda"));
    assert!(db.has_cheat("SkipIntroLogos"));
}

#[test]
fn active_count_limits_the_active_list() {
    let mut db = ModManager::new();
    db.read_database("[Main]\nActiveModCount=1\nActiveMod0=a\nActiveMod1=b\n".to_string())
        .unwrap();
    assert_eq!(db.active_mods().clone(), vec!["a".to_string()]);
    db.read_database("[Main]\nActiveModCount=x\nActiveMod0=a\n".to_string())
        .unwrap();
    assert!(db.active_mods().is_empty());
    db.read_database("[Main]\nActiveModCount=+2\nActiveMod0=a\nActiveMod1=a\n".to_string())
        .unwrap();
    assert_eq!(db.active_mods().clone(), vec!["a".to_string()]);
}

#[test]
fn a_bad_database_is_refused_and_keeps_the_old_state() {
    let mut db = ModManager::new();
    db.read_database(DB.to_string()).unwrap();
    let err = db.read_database("[Main\nx=1\n".to_string()).unwrap_err();
    assert!(err.contains("closing bracket"));
    let err = db.read_database("[Main]\n=1\n".to_string()).unwrap_err();
    assert!(err.contains("Key cannot be empty"));
    assert_eq!(db.active_mods().len(), 2);
    assert_eq!(db.config().get("codes", "code0"), Some("\"SkipIntroLogos\"".to_string()));
}

#[test]
fn toggling_mods_and_cheats() {
    let mut db = ModManager::new();
    db.set_active("m1", true);
    db.set_active("m1", true);
    assert_eq!(db.active_mods().clone(), vec!["m1".to_string()]);
    db.set_active("m2", true);
    db.set_active("m1", false);
    assert_eq!(db.active_mods().clone(), vec!["m2".to_string()]);
    db.set_cheat("HUDToggleKey", true);
    assert!(db.has_cheat("HUDToggleKey"));
    db.set_cheat("HUDToggleKey", false);
    assert!(db.enabled_cheats().is_empty());
}

#[test]
fn mod_titles_come_from_the_mod_ini() {
    let mut db = ModManager::new();
    db.add_mod(
        "a".to_string(),
        "p".to_string(),
        Some("[Desc]\nTitle=\"Better Hud\"\n".to_string()),
    );
    db.add_mod("b".to_string(), "q".to_string(), None);
    db.add_mod("c".to_string(), "r".to_string(), Some("[Desc]\nAuthor=me\n".to_string()));
    db.add_mod("d".to_string(), "s".to_string(), Some("[oops\n".to_string()));
    let titles: Vec<String> = db.mods_list().iter().map(|m| m.title.clone()).collect();
    assert_eq!(titles, vec!["Better Hud", "<NoTitle>", "<NoTitle>", "<NoTitle>"]);
    assert_eq!(db.mods_list()[0].id, "a");
    assert_eq!(db.mods_list()[0].path, "p");
}

#[test]
fn saving_writes_the_lists_back() {
    let mut db = ModManager::new();
    db.read_database(DB.to_string()).unwrap();
    db.set_active("modB", false);
    db.set_cheat("HUDToggleKey", true);
    db.prepare_save();
    let cfg = db.config();
    assert_eq!(cfg.get("main", "activemodcount"), Some("1".to_string()));
    assert_eq!(cfg.get("main", "activemod0"), Some("\"modA\"".to_string()));
    assert_eq!(cfg.get("main", "activemod1"), None);
    assert_eq!(cfg.get("main", "manifestversion"), Some("1".to_string()));
    assert_eq!(cfg.get("codes", "codecount"), Some("2".to_string()));
    let codes: HashSet<String> = [cfg.get("codes", "code0").unwrap(), cfg.get("codes", "code1").unwrap()]
        .into_iter()
        .collect();
    assert_eq!(
        codes,
        ["\"SkipIntroLogos\"", "\"HUDToggleKey\""].iter().map(|s| s.to_string()).collect()
    );
}

#[test]
fn saved_text_reads_back_to_the_same_lists() {
    let mut db = ModManager::new();
    db.read_database(DB.to_string()).unwrap();
    db.set_active("modC", true);
    db.prepare_save();
    let text = db.render_database();
    assert!(text.starts_with("[Main]\n"));
    assert!(text.contains("\n[Mods]\n"));
    assert!(text.contains("\n[Codes]\n"));
    assert!(text.contains("ActiveModCount=3\n"));
    assert!(text.contains("ManifestVersion=1\n"));
    assert!(text.contains("CodeCount=1\n"));
    assert!(text.contains("Code0=\"SkipIntroLogos\"\n"));
    assert!(text.contains("moda=\"C:\\Mods\\A\\mod.ini\"\n"));
    assert!(text.ends_with("\n\n"));
    let before = set_of(db.active_mods());
    let mut again = ModManager::new();
    again.read_database(text).unwrap();
    assert_eq!(set_of(again.active_mods()), before);
    assert_eq!(
        set_of(again.enabled_cheats()),
        ["SkipIntroLogos"].iter().map(|s| s.to_string()).collect()
    );
}

#[test]
fn render_writes_one_line_per_key() {
    let mut db = ModManager::new();
    db.read_database("[main]\nactivemodcount=0\n[other]\nx=1\n".to_string()).unwrap();
    assert_eq!(db.render_database(), "[Main]\nActiveModCount=0\n\n");
}

#[test]
fn importing_a_mod_registers_it() {
    let mut db = ModManager::new();
    let id = db.import_mod("C:\\mods\\x\\mod.ini", Some("[desc]\ntitle=X\n".to_string()));
    assert_eq!(id.len(), 36);
    let chars: Vec<char> = id.chars().collect();
    for i in [8, 13, 18, 23] {
        assert_eq!(chars[i], '-');
    }
    assert_eq!(chars[14], '4');
    assert!("89ab".contains(chars[19]));
    assert!(id.chars().all(|c| c.is_ascii_hexdigit() && !c.is_ascii_uppercase() || c == '-'));
    assert_eq!(db.config().get("mods", &id), Some("\"C:/mods/x/mod.ini\"".to_string()));
    let m = &db.mods_list()[0];
    assert_eq!(m.id, id);
    assert_eq!(m.path, "C:/mods/x/mod.ini");
    assert_eq!(m.title, "X");
    let other = db.import_mod("y", None);
    assert_ne!(other, id);
}

#[test]
fn register_mod_uses_the_given_id() {
    let mut db = ModManager::new();
    db.register_mod("abc".to_string(), "a\\b", None);
    assert_eq!(db.config().get("mods", "abc"), Some("\"a/b\"".to_string()));
    assert_eq!(db.mods_list()[0].title, "<NoTitle>");
}

#[test]
fn picked_file_is_taken_once() {
    let mut p = PickedFile::new();
    assert!(p.take().is_none());
    receive_file(&mut p, "a.zip".to_string(), vec![1, 2]);
    receive_file(&mut p, "b.zip".to_string(), vec![3]);
    assert_eq!(p.take(), Some(("b.zip".to_string(), vec![3])));
    assert!(p.take().is_none());
}

#[test]
fn renderer_label_follows_the_gl_version() {
    assert_eq!(renderer_label("OpenGL ES 3.0 Mesa 23.1"), "GLES");
    assert_eq!(renderer_label("4.6.0 NVIDIA 535"), "GL");
    assert_eq!(renderer_label("OpenGL E"), "GL");
}

#[test]
fn zip_names() {
    assert!(has_zip_extension("Mod.ZIP"));
    assert!(has_zip_extension("a.zip"));
    assert!(!has_zip_extension("a.zip.txt"));
    assert!(!has_zip_extension("zip"));
    assert_eq!(zip_stem("mod.zip"), "mod");
    assert_eq!(zip_stem("mod.zip.zip"), "mod");
    assert_eq!(zip_stem("Mod.ZIP"), "Mod.ZIP");
}

#[test]
fn about_window_lines() {
    let lines = about_lines("usmm", "\"0.1.0\"", "Someone", "Linux", "GL", "4.6", "Mesa", 2024);
    assert_eq!(lines[0], "\"usmm\" Mod-Manager");
    assert_eq!(lines[1], "Version   : \"0.1.0\"");
    assert_eq!(lines[2], "Author    : Someone");
    assert_eq!(lines[3], "Platform  :  Linux");
    assert_eq!(lines[4], "OpenGL info");
    assert_eq!(lines[5], "Renderer  :  GL");
    assert_eq!(lines[6], "Version   :  4.6");
    assert_eq!(lines[7], "Vendor    :  Mesa");
    assert_eq!(lines[8], "Made with Rust, SDL2, ImGui & Glow.");
    assert_eq!(lines[9], "(C) 2024, Someone.");
    let neg = about_lines("a\"b", "v", "x", "p", "r", "g", "d", -5);
    assert_eq!(neg[0], "\"a\\\"b\" Mod-Manager");
    assert_eq!(neg[9], "(C) -5, x.");
}

#[test]
fn mod_label_shows_title_and_id() {
    let mut db = ModManager::new();
    db.add_mod("id7".to_string(), "p".to_string(), Some("[desc]\ntitle=\"T\"".to_string()));
    assert_eq!(db.mods_list()[0].label(), "T  :  id7");
}

#[test]
fn saving_twice_writes_the_same_document() {
    let mut db = ModManager::new();
    db.read_database(DB.to_string()).unwrap();
    db.prepare_save();
    let once = db.config().get_map_ref().clone();
    db.prepare_save();
    assert_eq!(db.config().get_map_ref(), &once);
}

#[test]
fn saving_keeps_other_sections() {
    let mut db = ModManager::new();
    db.read_database("[Main]\nActiveModCount=0\n[Mods]\nx=\"p\"\n[Extra]\nk=v\n".to_string())
        .unwrap();
    db.prepare_save();
    assert_eq!(db.config().get("extra", "k"), Some("v".to_string()));
    assert_eq!(db.config().get("mods", "x"), Some("\"p\"".to_string()));
    assert_eq!(db.config().get("codes", "codecount"), Some("0".to_string()));
}

#[test]
fn cpkredir_default_text_is_the_loader_config() {
    let expected = r#"[CPKREDIR]
Enabled=1
PlaceTocAtEnd=1
HandleCpksWithoutExtFiles=0
LogFile="cpkredir.log"
ReadBlockSizeKB=4096
ModsDbIni="E:\Unleashed\mods\ModsDB.ini"
EnableSaveFileRedirection=0
SaveFileFallback=""
SaveFileOverride=""
LogType=""

[HedgeModManager]
EnableFallbackSaveRedirection=0
ModProfile="Default"
UseLauncher=1
"#;
    assert_eq!(usmm::cpkredir_default(), expected);
}

#[test]
fn cpkredir_is_written_only_when_missing() {
    assert!(cpkredir_action(true, true) == CpkAction::Keep);
    assert!(cpkredir_action(true, false) == CpkAction::Keep);
    assert!(cpkredir_action(false, true) == CpkAction::Write { create_parent: false });
    assert!(cpkredir_action(false, false) == CpkAction::Write { create_parent: true });
}

#[test]
fn cpkredir_reports() {
    assert_eq!(
        cpkredir_report("E:/Unleashed/cpkredir.ini", Ok(())),
        (false, "Created default cpkredir.ini at E:/Unleashed/cpkredir.ini".to_string())
    );
    assert_eq!(
        cpkredir_report("x", Err("denied".to_string())),
        (true, "Failed to create cpkredir.ini: denied".to_string())
    );
    assert_eq!(
        cpkredir_folder_error("E:/Unleashed", "no drive"),
        "Failed to create directory \"E:/Unleashed\": no drive"
    );
}
