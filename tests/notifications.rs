use indexmap::IndexMap;
use moodle_watch::embed::{get_changes, MoodleEmbed};
use moodle_watch::gen_module::{FileInfo, GenModule, GenModuleBuilder};
use moodle_watch::moodle::{Moodle, ParameterBuilder};

fn unit(id: i64, entries: &[(&str, &str)], files: &[(&str, &str)]) -> GenModule {
    let mut b = GenModuleBuilder::new(id, "icon".to_string(), format!("unit {id}"), None);
    for (k, v) in entries {
        b.string(k, v.to_string());
    }
    for (k, v) in files {
        b.file(FileInfo { filename: k.to_string(), fileurl: v.to_string() });
    }
    b.build()
}

#[test]
fn unchanged_unit_gives_no_notification() {
    let changed = MoodleEmbed::changed(unit(1, &[("a", "1")], &[("f", "u")]), unit(1, &[("a", "1")], &[("f", "u")]));
    assert!(changed.is_none());
}

#[test]
fn changed_unit_lists_changes() {
    let (embed, fetch) =
        MoodleEmbed::changed(unit(1, &[("a", "1"), ("b", "x")], &[("old", "u1"), ("f", "u2")]), unit(1, &[("a", "2"), ("c", "y")], &[("f", "u3"), ("new", "u4")]))
            .unwrap();
    assert_eq!(embed.color, 0x0000FF);
    assert_eq!(
        embed.description,
        "🔵**a**\n__From:__ 1\n__To:__ 2\n🟢 **c:** y\n🔴 **b:** x\n__Removed file:__ f\n__Removed file:__ old"
    );
    assert_eq!(fetch, vec![("f".to_string(), "u3".to_string()), ("new".to_string(), "u4".to_string())]);
}

#[test]
fn removed_unit_lists_entries_and_files() {
    let embed = MoodleEmbed::removed(unit(3, &[("k", "v")], &[("doc", "u")]));
    assert_eq!(embed.color, 0xFF0000);
    assert_eq!(embed.description, "**k:** v\n__File:__ doc");
    assert!(embed.files.is_empty());
}

#[test]
fn added_unit_fetches_its_files() {
    let (embed, fetch) = MoodleEmbed::added(unit(4, &[("k", "v")], &[("doc", "u")]));
    assert_eq!(embed.color, 0x00FF00);
    assert_eq!(embed.description, "**k:** v");
    assert_eq!(fetch, vec![("doc".to_string(), "u".to_string())]);
}

#[test]
fn download_outcomes() {
    let mut embed = MoodleEmbed::new(1, "i".to_string(), "n".to_string(), None);
    embed.add_downloaded("small".to_string(), Some(vec![1, 2, 3]));
    embed.add_downloaded("huge".to_string(), None);
    assert_eq!(embed.files, vec![("small".to_string(), vec![1u8, 2, 3])]);
    assert_eq!(embed.description, "__Added large file:__ huge");
}

#[test]
fn entries_are_capped() {
    let mut embed = MoodleEmbed::new(1, "i".to_string(), "n".to_string(), None);
    assert!(embed.add_entry("x".repeat(2000)));
    assert_eq!(embed.len(), 1500);
    assert!(embed.add_entry("y".repeat(1500)));
    assert_eq!(embed.len(), 3001);
    assert!(!embed.add_entry("z".repeat(1000)));
    assert_eq!(embed.len(), 3001);
    assert!(embed.add_entry("w".repeat(999)));
    assert_eq!(embed.len(), 4001);
}

#[test]
fn course_changes_in_order() {
    let old = vec![unit(1, &[("a", "1")], &[]), unit(2, &[("b", "1")], &[]), unit(3, &[("c", "1")], &[])];
    let new = vec![unit(3, &[("c", "2")], &[]), unit(2, &[("b", "1")], &[]), unit(4, &[], &[("f", "u")])];
    let notes = get_changes(old, new);
    let colors: Vec<u32> = notes.iter().map(|(e, _)| e.color).collect();
    assert_eq!(colors, vec![0xFF0000, 0x00FF00, 0x0000FF]);
    assert_eq!(notes[0].0.name, "unit 1");
    assert_eq!(notes[1].1, vec![("f".to_string(), "u".to_string())]);
    assert_eq!(notes[2].0.description, "🔵**c**\n__From:__ 1\n__To:__ 2");
}

#[test]
fn first_observation_reports_everything_new() {
    let notes = get_changes(Vec::new(), vec![unit(1, &[("a", "1")], &[])]);
    assert_eq!(notes.len(), 1);
    assert_eq!(notes[0].0.color, 0x00FF00);
}

#[test]
fn request_parameters() {
    let client = Moodle::new_with_token("https://m.example".to_string(), "tok".to_string());
    let p = client.request_params("core_course_get_contents", Moodle::course_params(17));
    let expected: Vec<(String, String)> = vec![
        ("courseid".to_string(), "17".to_string()),
        ("moodlewsrestformat".to_string(), "json".to_string()),
        ("wsfunction".to_string(), "core_course_get_contents".to_string()),
        ("wstoken".to_string(), "tok".to_string()),
    ];
    assert_eq!(p.map, expected);
    assert_eq!(client.service_url(), "https://m.example/webservice/rest/server.php");
    assert_eq!(client.file_link("https://f/x.pdf"), "https://f/x.pdf?token=tok");
    assert_eq!(client.file_link("https://f/x.pdf?a=1"), "https://f/x.pdf?a=1&token=tok");
    let q = ParameterBuilder::new().add("k", "1").add("k", "2");
    assert_eq!(q.map, vec![("k".to_string(), "2".to_string())]);
    assert_eq!(Moodle::courses_params(None).map, vec![("classification".to_string(), "all".to_string())]);
    let _unused: IndexMap<String, String> = IndexMap::new();
}
