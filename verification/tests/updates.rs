use alpha_tube::json::JsonValue;
use alpha_tube::update::{
    app_update_info, version_less, update_complete, update_percent, update_progress, update_ytdlp_answer,
    ytdlp_update_gate, ytdlp_update_skipped, ytdlp_update_status,
};
use alpha_tube::registry::Registry;
use alpha_tube::state::{register_download, DownloadManager, DownloadOptions};
use alpha_tube::ytdlp::ProcessOutput;

fn s(x: &str) -> JsonValue {
    JsonValue::String(x.to_string())
}

fn obj(members: Vec<(&str, JsonValue)>) -> JsonValue {
    JsonValue::Object(members.into_iter().map(|(k, v)| (k.to_string(), v)).collect())
}

#[test]
fn release_feed() {
    let feed = obj(vec![
        ("version", s("1.2.0")),
        ("notes", s("Fixes")),
        ("platforms", obj(vec![("windows-x86_64", obj(vec![("url", s("https://dl/setup.exe"))]))])),
    ]);
    let info = app_update_info(&feed, "1.1.9");
    assert!(info.update_available);
    assert_eq!(info.version, "1.2.0");
    assert_eq!(info.notes, "Fixes");
    assert_eq!(info.download_url, "https://dl/setup.exe");
    assert_eq!(info.current_version, "1.1.9");
    assert!(!app_update_info(&feed, "1.2.0").update_available);
    let empty = app_update_info(&obj(vec![]), "0.1.0");
    assert_eq!(empty.version, "0.0.0");
    assert_eq!(empty.download_url, "");
    assert!(!empty.update_available);
    // versions compare component by component, as numbers
    assert!(app_update_info(&obj(vec![("version", s("1.10.0"))]), "1.9.0").update_available);
    assert!(!app_update_info(&obj(vec![("version", s("1.9.0"))]), "1.10.0").update_available);
    let newer = obj(vec![
        ("version", s("0.10.0")),
        ("notes", s("n")),
        ("platforms", obj(vec![("windows-x86_64", obj(vec![("url", s("d"))]))])),
    ]);
    let info = app_update_info(&newer, "0.9.0");
    assert!(info.update_available);
    assert_eq!((info.version.as_str(), info.current_version.as_str()), ("0.10.0", "0.9.0"));
    assert_eq!((info.notes.as_str(), info.download_url.as_str()), ("n", "d"));
}

#[test]
fn version_order() {
    let v = |x: &str| x.chars().collect::<Vec<char>>();
    assert!(version_less(&v("0.9.0"), &v("0.10.0")));
    assert!(!version_less(&v("0.10.0"), &v("0.9.0")));
    assert!(!version_less(&v("1.2"), &v("1.2.0")));
    assert!(!version_less(&v("1.2.0"), &v("1.2")));
    assert!(version_less(&v("1.2"), &v("1.2.1")));
    assert!(version_less(&v("2"), &v("10")));
    assert!(!version_less(&v("1.2.3"), &v("1.2.3")));
    assert!(version_less(&v(""), &v("0.0.1")));
    // components at or above 2^64 compare equal, so the next one decides
    assert!(version_less(&v("99999999999999999999999.0"), &v("99999999999999999999998.1")));
}

#[test]
fn update_download_percent() {
    assert_eq!(update_percent("[#a 1MiB/10MiB(10%) CN:16]").as_deref(), Some("10"));
    assert_eq!(update_percent("(x%) (7%)").as_deref(), Some("7"));
    assert!(update_percent("(1.5%)").is_none());
    assert!(update_percent("no progress").is_none());
    let p = update_progress("10".to_string());
    assert_eq!((p.percent.as_str(), p.status.as_str()), ("10", "downloading"));
    assert_eq!(update_complete().percent, "100");
}

fn run(success: bool, stdout: &str, stderr: &str) -> ProcessOutput {
    ProcessOutput { success, stdout: stdout.to_string(), stderr: stderr.to_string() }
}

#[test]
fn ytdlp_updates() {
    assert_eq!(update_ytdlp_answer(&run(true, "a", "b")).unwrap(), "a\nb");
    assert_eq!(update_ytdlp_answer(&run(false, "a", "b")).unwrap_err(), "Update failed: a b");
    let st = ytdlp_update_status(&run(true, "  Updating to 2024.1\n", ""));
    assert_eq!((st.status.as_str(), st.message.as_str(), st.updated), ("complete", "Updating to 2024.1", Some(true)));
    let st = ytdlp_update_status(&run(true, "yt-dlp is up to date", ""));
    assert_eq!(st.updated, Some(false));
    let st = ytdlp_update_status(&run(false, "", " boom \n"));
    assert_eq!((st.status.as_str(), st.message.as_str(), st.updated), ("error", "boom", None));
    assert_eq!(ytdlp_update_skipped().message, "Downloads in progress");
}

#[test]
fn ytdlp_update_waits_for_downloads() {
    let mut m: DownloadManager = Registry::new();
    assert!(ytdlp_update_gate(&m).is_none());
    let options = DownloadOptions {
        id: "d".to_string(),
        url: "u".to_string(),
        quality: "best".to_string(),
        output_path: "/tmp".to_string(),
        format_id: None,
    };
    register_download(&mut m, options, std::sync::Arc::new(std::sync::atomic::AtomicBool::new(false)));
    let st = ytdlp_update_gate(&m).unwrap();
    assert_eq!((st.status.as_str(), st.message.as_str()), ("skipped", "Downloads in progress"));
}
