use mor_steg::paths::{
    apply_folder_choice, SaveFolder,
    active_cloud_dir, active_key_dir, clean_menu_path, clean_terminal_path, default_key_dir,
    expand_tilde, is_lone_quote_input, parent_dir, resolve_output_path, temp_payload_path,
    to_absolute_path, AppConfig,
};

fn config_with_output(dir: Option<&str>) -> AppConfig {
    let mut c = AppConfig::default();
    c.output_dir = dir.map(|d| d.to_string());
    c
}

#[test]
fn bare_file_name_goes_into_output_folder() {
    let c = config_with_output(Some("/home/u/out"));
    assert_eq!(resolve_output_path("photo.jpg", &c), "/home/u/out/photo.jpg");
    let c = config_with_output(Some("/home/u/out/"));
    assert_eq!(resolve_output_path("photo.jpg", &c), "/home/u/out/photo.jpg");
}

#[test]
fn paths_with_folder_part_are_kept() {
    let c = config_with_output(Some("/out"));
    assert_eq!(resolve_output_path("/tmp/x.jpg", &c), "/tmp/x.jpg");
    assert_eq!(resolve_output_path("sub/x.jpg", &c), "sub/x.jpg");
    assert_eq!(resolve_output_path("./x.jpg", &c), "./x.jpg");
    assert_eq!(resolve_output_path("x.jpg/", &c), "/out/x.jpg/");
}

#[test]
fn no_output_folder_keeps_typed_path() {
    let c = config_with_output(None);
    assert_eq!(resolve_output_path("photo.jpg", &c), "photo.jpg");
}

#[test]
fn key_folder_defaults() {
    assert_eq!(default_key_dir(Some("/x"), Some("/home/u")), "/x/mor-steg/keys");
    assert_eq!(default_key_dir(None, Some("/home/u")), "/home/u/.config/mor-steg/keys");
    assert_eq!(default_key_dir(None, None), "./mor-steg-keys");
    let mut c = AppConfig::default();
    assert_eq!(active_key_dir(&c, None, Some("/h")), "/h/.config/mor-steg/keys");
    c.key_dir = Some("/keys".to_string());
    assert_eq!(active_key_dir(&c, None, Some("/h")), "/keys");
}

#[test]
fn cloud_folder_defaults_to_current_folder() {
    let mut c = AppConfig::default();
    assert_eq!(active_cloud_dir(&c), ".");
    c.cloud_dir = Some("/cloud".to_string());
    assert_eq!(active_cloud_dir(&c), "/cloud");
}

#[test]
fn terminal_paths_are_cleaned() {
    assert_eq!(clean_terminal_path("  '/tmp/my file.jpg'  "), "/tmp/my file.jpg");
    assert_eq!(clean_terminal_path("\"/tmp/a.jpg\""), "/tmp/a.jpg");
    assert_eq!(clean_terminal_path("/tmp/my\\ file\\ 2.jpg\n"), "/tmp/my file 2.jpg");
    assert_eq!(clean_terminal_path("'only-open"), "'only-open");
    assert_eq!(clean_terminal_path("\"\""), "");
}

#[test]
fn lone_quotes_are_detected() {
    assert!(is_lone_quote_input(" \" "));
    assert!(is_lone_quote_input("'"));
    assert!(!is_lone_quote_input("''"));
    assert!(!is_lone_quote_input("a"));
}

#[test]
fn tilde_is_expanded() {
    assert_eq!(expand_tilde("~", Some("/home/u")), "/home/u");
    assert_eq!(expand_tilde("~/a.txt", Some("/home/u")), "/home/u/a.txt");
    assert_eq!(expand_tilde("~\\a.txt", Some("C:\\Users\\u")), "C:\\Users\\u\\a.txt");
    assert_eq!(expand_tilde("~bob/a.txt", Some("/home/u")), "~bob/a.txt");
    assert_eq!(expand_tilde("~/a.txt", None), "~/a.txt");
    assert_eq!(expand_tilde(" '~/my\\ file' ", Some("/h")), "/h/my file");
}

#[test]
fn menu_paths_expand_only_slash_form() {
    assert_eq!(clean_menu_path("~", Some("/home/u")), "/home/u");
    assert_eq!(clean_menu_path("~/k", Some("/home/u")), "/home/u/k");
    assert_eq!(clean_menu_path("~\\k", Some("/home/u")), "~\\k");
}

#[test]
fn absolute_paths() {
    assert_eq!(to_absolute_path("a.txt", Some("/work")), "/work/a.txt");
    assert_eq!(to_absolute_path("/etc/x", Some("/work")), "/etc/x");
    assert_eq!(to_absolute_path("a.txt", None), "a.txt");
}

#[test]
fn parents_follow_std_path() {
    assert_eq!(parent_dir("/a/b"), Some("/a".to_string()));
    assert_eq!(parent_dir("/a"), Some("/".to_string()));
    assert_eq!(parent_dir("/"), None);
    assert_eq!(parent_dir(""), None);
    assert_eq!(parent_dir("a"), Some("".to_string()));
    assert_eq!(parent_dir("a/b/"), Some("a".to_string()));
    assert_eq!(parent_dir("a//b"), Some("a".to_string()));
    assert_eq!(parent_dir("a/./b/."), Some("a".to_string()));
    assert_eq!(parent_dir("./a"), Some(".".to_string()));
    assert_eq!(parent_dir("."), Some("".to_string()));
    assert_eq!(parent_dir("../a"), Some("..".to_string()));
}

#[test]
fn parents_match_std_on_many_paths() {
    let samples = [
        "", "/", "//", "a", "a/", "/a", "/a/", "a/b", "a//b//", "./", ".", "..", "../", "./a/b",
        "/./a", "a/.", "a/..", "/..", ".a", "a/.b", "x/y/z.tar.gz",
    ];
    for s in samples {
        let expected = std::path::Path::new(s)
            .parent()
            .map(|p| p.to_string_lossy().into_owned());
        assert_eq!(parent_dir(s), expected, "parent of {s:?}");
    }
}

#[test]
fn temp_payload_inside_workspace() {
    assert_eq!(temp_payload_path("/tmp/mor-steg-abc"), "/tmp/mor-steg-abc/payload.age");
}

#[test]
fn choosing_one_folder_leaves_the_others() {
    let mut c = AppConfig {
        output_dir: Some("/out".to_string()),
        key_dir: Some("/keys".to_string()),
        cloud_dir: None,
    };
    apply_folder_choice(&mut c, SaveFolder::Cloud, Some("/cloud".to_string()), true);
    assert_eq!(c.cloud_dir.as_deref(), Some("/cloud"));
    assert_eq!(c.output_dir.as_deref(), Some("/out"));
    assert_eq!(c.key_dir.as_deref(), Some("/keys"));
    apply_folder_choice(&mut c, SaveFolder::Keys, None, true);
    assert_eq!(c.key_dir, None);
    assert_eq!(c.cloud_dir.as_deref(), Some("/cloud"));
    apply_folder_choice(&mut c, SaveFolder::Output, Some("/nowhere".to_string()), false);
    assert_eq!(c.output_dir.as_deref(), Some("/out"));
}
