use mclaunch::config::{config_or_default, select_mode, Config, Mode, Settings};
use mclaunch::exit_code;
use mclaunch::text::{decimal_string, find_last, is_jar_name, join, last_segment_of, str_contains, str_equal};

fn empty_config() -> Config {
    Config { game_dir: None, java: None, username: None, max_ram_mb: None, version: None, asset_index: None }
}

#[test]
fn default_config_holds_documented_defaults() {
    let c = Config::default();
    assert_eq!(c.game_dir.as_deref(), Some("."));
    assert_eq!(c.java.as_deref(), Some("java"));
    assert_eq!(c.username.as_deref(), Some("Player"));
    assert_eq!(c.max_ram_mb, Some(2048));
    assert_eq!(c.version.as_deref(), Some("1.8.9"));
    assert_eq!(c.asset_index.as_deref(), Some("1.8"));
}

#[test]
fn empty_config_resolves_to_defaults() {
    let s = Settings::from_config(&empty_config());
    assert_eq!(s.game_dir, ".");
    assert_eq!(s.java, "java");
    assert_eq!(s.username, "Player");
    assert_eq!(s.max_ram_mb, 2048);
    assert_eq!(s.version, "1.8.9");
    assert_eq!(s.asset_index, "1.8");
}

#[test]
fn present_keys_are_used_as_written() {
    let mut c = empty_config();
    c.username = Some("Steve".to_string());
    c.max_ram_mb = Some(4096);
    c.java = Some("C:\\jdk8\\bin\\java.exe".to_string());
    let s = Settings::from_config(&c);
    assert_eq!(s.username, "Steve");
    assert_eq!(s.max_ram_mb, 4096);
    assert_eq!(s.java, "C:\\jdk8\\bin\\java.exe");
    assert_eq!(s.game_dir, ".");
    assert_eq!(s.version, "1.8.9");
}

#[test]
fn unreadable_config_falls_back_to_defaults() {
    let c = config_or_default(None);
    assert_eq!(c.username.as_deref(), Some("Player"));
    let mut p = empty_config();
    p.version = Some("1.8.8".to_string());
    let c = config_or_default(Some(p));
    assert_eq!(c.version.as_deref(), Some("1.8.8"));
    assert_eq!(c.username, None);
}

#[test]
fn mode_from_first_argument() {
    assert_eq!(select_mode(Some("setup")), Mode::Setup);
    assert_eq!(select_mode(Some("launch")), Mode::Launch);
    assert_eq!(select_mode(Some("SETUP")), Mode::Launch);
    assert_eq!(select_mode(Some("anything")), Mode::Launch);
    assert_eq!(select_mode(None), Mode::Launch);
}

#[test]
fn exit_codes() {
    assert_eq!(exit_code(true), 0);
    assert_eq!(exit_code(false), 1);
}

#[test]
fn substring_search() {
    assert!(str_contains("java version \"1.8.0_381\"", "1.8"));
    assert!(str_contains("1.8", "1.8"));
    assert!(!str_contains("1.7.0", "1.8"));
    assert!(!str_contains("1.", "1.8"));
    assert!(str_contains("abc", ""));
    assert!(str_contains("openjdk 黑1.8x", "1.8"));
}

#[test]
fn last_position_of_a_char() {
    assert_eq!(find_last("a/b/c", '/'), Some(3));
    assert_eq!(find_last("abc", '/'), None);
    assert_eq!(find_last("", '/'), None);
}

#[test]
fn url_last_segment() {
    assert_eq!(last_segment_of("https://x.org/a/b/lwjgl-2.9.4.jar"), "lwjgl-2.9.4.jar");
    assert_eq!(last_segment_of("no-slash"), "no-slash");
    assert_eq!(last_segment_of("ends/"), "");
}

#[test]
fn jar_extension() {
    assert!(is_jar_name("lwjgl.jar"));
    assert!(is_jar_name("a.b.jar"));
    assert!(is_jar_name("..jar"));
    assert!(!is_jar_name(".jar"));
    assert!(!is_jar_name("jar"));
    assert!(!is_jar_name("x.JAR"));
    assert!(!is_jar_name("x.jar.sha1"));
    assert!(!is_jar_name("x.jarx"));
}

#[test]
fn joining() {
    let parts = vec!["a".to_string(), "b".to_string(), "c".to_string()];
    assert_eq!(join(&parts, ";"), "a;b;c");
    assert_eq!(join(&vec!["only".to_string()], ";"), "only");
    assert_eq!(join(&Vec::new(), ";"), "");
    assert_eq!(join(&vec!["x".to_string(), "".to_string()], "\n"), "x\n");
}

#[test]
fn decimal_rendering() {
    assert_eq!(decimal_string(0), "0");
    assert_eq!(decimal_string(7), "7");
    assert_eq!(decimal_string(2048), "2048");
    assert_eq!(decimal_string(10), "10");
    assert_eq!(decimal_string(4294967295), "4294967295");
    assert_eq!(decimal_string(u64::MAX), "18446744073709551615");
}

#[test]
fn string_equality() {
    assert!(str_equal("java", "java"));
    assert!(!str_equal("java", "javaw"));
}
