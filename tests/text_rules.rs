use moodle_watch::gen_module::{Content, FileInfo, GenModuleBuilder};
use moodle_watch::modules::generate::{match_type, ModuleKind};
use moodle_watch::text::remove_html;

fn builder() -> GenModuleBuilder {
    GenModuleBuilder::new(1, "icon".to_string(), "unit".to_string(), Some("link".to_string()))
}

#[test]
fn html_tags_are_dropped() {
    assert_eq!(remove_html("<p>Hello</p>"), " Hello ");
    assert_eq!(remove_html("a<b>b</b>c"), "a b c");
}

#[test]
fn html_nested_brackets() {
    assert_eq!(remove_html("x<a<b>>y"), "x  y");
    assert_eq!(remove_html("stray > bracket"), "stray > bracket");
}

#[test]
fn html_nbsp_becomes_space() {
    assert_eq!(remove_html("a&nbsp;b"), "a b");
    assert_eq!(remove_html("&nbsp;&nbsp;"), "  ");
}

#[test]
fn html_plain_text_unchanged() {
    assert_eq!(remove_html(""), "");
    assert_eq!(remove_html("plain"), "plain");
}

#[test]
fn file_link_loses_revision() {
    let mut b = builder();
    b.file(FileInfo {
        filename: "a.pdf".to_string(),
        fileurl: "https://x/pluginfile.php/5/mod_resource/content/7/a.pdf".to_string(),
    });
    let m = b.build();
    assert_eq!(m.files.get("a.pdf").unwrap(), "https://x/pluginfile.php/5/mod_resource/content/0/a.pdf");
}

#[test]
fn revisions_differing_only_in_number_normalize_equal() {
    let mut b1 = builder();
    b1.file(FileInfo { filename: "x".to_string(), fileurl: "https://h/content/7/x".to_string() });
    let mut b2 = builder();
    b2.file(FileInfo { filename: "x".to_string(), fileurl: "https://h/content/9/x".to_string() });
    assert_eq!(b1.build().files, b2.build().files);
}

#[test]
fn only_first_revision_segment_is_replaced() {
    let mut b = builder();
    b.file(FileInfo { filename: "f".to_string(), fileurl: "/content/12/content/34/".to_string() });
    assert_eq!(b.build().files.get("f").unwrap(), "/content/0/content/34/");
}

#[test]
fn link_without_revision_kept() {
    let mut b = builder();
    b.file(FileInfo { filename: "f".to_string(), fileurl: "/content/abc/f".to_string() });
    assert_eq!(b.build().files.get("f").unwrap(), "/content/abc/f");
}

#[test]
fn builder_entries() {
    let mut b = builder();
    b.string("Beschreibung", "<b>Hi</b>".to_string())
        .string("Leer", String::new())
        .date("Datum", 1700000000)
        .date("Null", 0)
        .num("Zahl", -42)
        .bool("Ja?", true)
        .bool("Nein?", false)
        .date_option("Opt", None)
        .string_option("S", Some("x".to_string()));
    let m = b.build();
    assert_eq!(m.entries.get("Beschreibung").unwrap(), " Hi ");
    assert!(m.entries.get("Leer").is_none());
    assert_eq!(m.entries.get("Datum").unwrap(), "<t:1700000000:F>");
    assert!(m.entries.get("Null").is_none());
    assert_eq!(m.entries.get("Zahl").unwrap(), "-42");
    assert_eq!(m.entries.get("Ja?").unwrap(), "Ja");
    assert_eq!(m.entries.get("Nein?").unwrap(), "Nein");
    assert!(m.entries.get("Opt").is_none());
    assert_eq!(m.entries.get("S").unwrap(), "x");
    let keys: Vec<&str> = m.entries.keys().map(|k| k.as_str()).collect();
    assert_eq!(keys, vec!["Beschreibung", "Datum", "Zahl", "Ja?", "Nein?", "S"]);
}

#[test]
fn contents_split_into_files_and_entries() {
    let mut b = builder();
    b.contents(vec![
        Content {
            type_field: "file".to_string(),
            filename: "doc.pdf".to_string(),
            fileurl: "https://h/content/3/doc.pdf".to_string(),
            ..Default::default()
        },
        Content {
            type_field: "url".to_string(),
            filename: "site".to_string(),
            fileurl: "https://example.org".to_string(),
            ..Default::default()
        },
    ]);
    let m = b.build();
    assert_eq!(m.files.get("doc.pdf").unwrap(), "https://h/content/0/doc.pdf");
    assert_eq!(m.entries.get("site").unwrap(), "https://example.org");
}

#[test]
fn module_types_map_to_kinds() {
    assert!(matches!(match_type("assign"), ModuleKind::Assign));
    assert!(matches!(match_type("questionnaire"), ModuleKind::Choice));
    assert!(matches!(match_type("choice"), ModuleKind::Choice));
    assert!(matches!(match_type("url"), ModuleKind::Url));
    assert!(matches!(match_type("lesson"), ModuleKind::Unknown));
}
