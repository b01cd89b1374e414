use alpha_tube::library::{
    is_hidden_folder, library_content, modified_text, playlist_folder, sort_by_name,
    sort_newest_first, video_extension, video_file, VideoFile,
};

fn vf(name: &str, date: &str) -> VideoFile {
    VideoFile {
        name: name.to_string(),
        path: format!("/lib/{}", name),
        size: 1,
        modified_date: date.to_string(),
        extension: "mp4".to_string(),
    }
}

#[test]
fn video_extensions() {
    assert_eq!(video_extension("MP4").as_deref(), Some("mp4"));
    assert_eq!(video_extension("mkv").as_deref(), Some("mkv"));
    assert!(video_extension("txt").is_none());
    assert!(video_extension("part").is_none());
}

#[test]
fn hidden_folders() {
    assert!(is_hidden_folder(".cache"));
    assert!(!is_hidden_folder("Music"));
    assert!(!is_hidden_folder(""));
}

#[test]
fn sorting_is_stable() {
    let v = vec![vf("b", "2024-01-01 10:00"), vf("a", "2024-01-02 10:00"), vf("c", "2024-01-01 10:00")];
    let by_name: Vec<String> = sort_by_name(v.clone()).into_iter().map(|f| f.name).collect();
    assert_eq!(by_name, vec!["a", "b", "c"]);
    let newest: Vec<String> = sort_newest_first(v).into_iter().map(|f| f.name).collect();
    assert_eq!(newest, vec!["a", "b", "c"]);
    let ties = vec![vf("z", "d"), vf("y", "d"), vf("x", "e")];
    let newest: Vec<String> = sort_newest_first(ties).into_iter().map(|f| f.name).collect();
    assert_eq!(newest, vec!["x", "z", "y"]);
}

#[test]
fn names_compare_as_strings() {
    let v = vec![vf("é", "1"), vf("Z", "1"), vf("a", "1"), vf("ab", "1"), vf("", "1")];
    let got: Vec<String> = sort_by_name(v).into_iter().map(|f| f.name).collect();
    let mut want = vec!["é", "Z", "a", "ab", ""];
    want.sort();
    assert_eq!(got, want);
}

#[test]
fn folders_and_library() {
    assert!(playlist_folder("Empty".to_string(), "/lib/Empty".to_string(), vec![]).is_none());
    let p = playlist_folder("Mix".to_string(), "/lib/Mix".to_string(), vec![vf("02 b", "x"), vf("01 a", "x")]).unwrap();
    assert_eq!(p.video_count, 2);
    assert_eq!(p.videos[0].name, "01 a");
    assert_eq!(p.thumbnail_path.as_deref(), Some("/lib/01 a"));
    let q = playlist_folder("Alpha".to_string(), "/lib/Alpha".to_string(), vec![vf("x", "x")]).unwrap();
    let lib = library_content(vec![p, q], vec![vf("old", "2020-01-01 00:00"), vf("new", "2024-01-01 00:00")]);
    assert_eq!(lib.playlists[0].name, "Alpha");
    assert_eq!(lib.singles[0].name, "new");
}

#[test]
fn modification_dates() {
    assert_eq!(modified_text(None), "Unknown");
    assert_eq!(modified_text(Some(0)), "1970-01-01 00:00");
    assert_eq!(modified_text(Some(1_700_000_000)), "2023-11-14 22:13");
    let f = video_file("a.mp4".to_string(), "/a.mp4".to_string(), 5, Some(86_400), "mp4".to_string());
    assert_eq!(f.modified_date, "1970-01-02 00:00");
    assert_eq!(f.size, 5);
}
