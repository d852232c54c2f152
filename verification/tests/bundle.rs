use gangplank::bundle::{
    app_dir_name, bin_name, bundle_names, dmg_file_name, escape, iconset_entries, parse_cli,
    plist, profile, signing_identity, string, string_in, BinNameError, Cli, Config, Target,
    MISSING_IDENTIFIER,
};
use std::path::PathBuf;

fn config() -> Config {
    Config {
        name: Some("Notes".to_string()),
        identifier: Some("com.example.notes".to_string()),
        icon: None,
        file_types: Vec::new(),
        url_schemes: Vec::new(),
        agent: false,
        minimum_system_version: None,
        sign: None,
        notarize_profile: None,
    }
}

fn args(a: &[&str]) -> Vec<String> {
    a.iter().map(|s| s.to_string()).collect()
}

#[test]
fn escape_replaces_xml_specials() {
    assert_eq!(escape("a<b>&\"c'"), "a&lt;b&gt;&amp;\"c'");
    assert_eq!(escape("plain"), "plain");
}

#[test]
fn string_entries_are_tab_indented() {
    let mut out = String::new();
    string(&mut out, "CFBundleName", "A&B");
    string_in(&mut out, 3, "k", "v");
    assert_eq!(out, "\t<key>CFBundleName</key>\n\t<string>A&amp;B</string>\n\t\t\t<key>k</key>\n\t\t\t<string>v</string>\n");
}

#[test]
fn plist_names_the_bundle_and_its_types() {
    let mut c = config();
    c.file_types = vec!["public.plain-text".to_string()];
    c.url_schemes = vec!["notes".to_string()];
    c.agent = true;
    c.minimum_system_version = Some("11.0".to_string());
    let p = plist(&c, "Notes", "com.example.notes", "notes", "0.1.0", true);
    assert!(p.starts_with("<?xml"));
    assert!(p.contains("\t<key>CFBundleExecutable</key>\n\t<string>notes</string>\n"));
    assert!(p.contains("\t<key>CFBundleIdentifier</key>\n\t<string>com.example.notes</string>\n"));
    assert!(p.contains("<string>public.plain-text</string>"));
    assert!(p.contains("<string>notes</string>"));
    assert!(p.contains("<key>LSUIElement</key>"));
    assert!(p.contains("<string>11.0</string>"));
    assert!(p.contains("AppIcon"));
    assert!(p.trim_end().ends_with("</plist>"));
    let bare = plist(&config(), "Notes", "com.example.notes", "notes", "0.1.0", false);
    assert!(!bare.contains("LSUIElement"));
    assert!(!bare.contains("CFBundleDocumentTypes"));
    assert!(!bare.contains("AppIcon"));
}

#[test]
fn bin_name_needs_exactly_one_binary() {
    let lib = || Target { name: "core".to_string(), is_bin: false };
    let app = || Target { name: "notes".to_string(), is_bin: true };
    let tool = || Target { name: "tool".to_string(), is_bin: true };
    assert_eq!(bin_name(&vec![lib(), app()]), Ok("notes".to_string()));
    assert_eq!(bin_name(&vec![lib()]), Err(BinNameError::NoBinary));
    assert_eq!(bin_name(&vec![app(), lib(), tool()]), Err(BinNameError::SeveralBinaries));
    assert_eq!(BinNameError::NoBinary.message(), "package has no [[bin]] target");
}

#[test]
fn command_line_as_cargo_passes_it() {
    assert_eq!(parse_cli(&args(&["gangplank", "bundle"])), Cli::Bundle { release: false });
    assert_eq!(parse_cli(&args(&["bundle", "--release"])), Cli::Bundle { release: true });
    assert_eq!(
        parse_cli(&args(&["gangplank", "run", "my data.csv", "--release", "b.csv"])),
        Cli::Run { release: true, files: args(&["my data.csv", "b.csv"]) }
    );
    assert_eq!(parse_cli(&args(&["dmg", "--release"])), Cli::Dmg { release: true });
    assert_eq!(parse_cli(&args(&["gangplank"])), Cli::Usage);
    assert_eq!(parse_cli(&args(&["build"])), Cli::Usage);
}

#[test]
fn bundle_layout_names() {
    assert_eq!(profile(true), "release");
    assert_eq!(profile(false), "debug");
    assert_eq!(app_dir_name("Notes"), "Notes.app");
    assert_eq!(dmg_file_name("Notes"), "Notes.dmg");
    assert_eq!(bundle_names(&config(), "notes-pkg"), Ok(("Notes".to_string(), "com.example.notes".to_string())));
    let mut unnamed = config();
    unnamed.name = None;
    assert_eq!(bundle_names(&unnamed, "notes-pkg").unwrap().0, "notes-pkg");
    unnamed.identifier = None;
    assert_eq!(bundle_names(&unnamed, "notes-pkg"), Err(MISSING_IDENTIFIER));
    let mut signed = config();
    assert_eq!(signing_identity(&signed), "-");
    signed.sign = Some("Developer ID Application: X (T)".to_string());
    assert_eq!(signing_identity(&signed), "Developer ID Application: X (T)");
    signed.icon = Some(PathBuf::from("assets/icon.png"));
}

#[test]
fn iconset_holds_every_size_twice() {
    let entries: Vec<(String, u32)> = iconset_entries().into_iter().map(|e| (e.file_name, e.pixels)).collect();
    let expected: Vec<(String, u32)> = [
        ("icon_16x16.png", 16),
        ("icon_16x16@2x.png", 32),
        ("icon_32x32.png", 32),
        ("icon_32x32@2x.png", 64),
        ("icon_128x128.png", 128),
        ("icon_128x128@2x.png", 256),
        ("icon_256x256.png", 256),
        ("icon_256x256@2x.png", 512),
        ("icon_512x512.png", 512),
        ("icon_512x512@2x.png", 1024),
    ]
    .iter()
    .map(|(n, p)| (n.to_string(), *p))
    .collect();
    assert_eq!(entries, expected);
}
