use connected::mms::{
    mms_fallback_extension, mms_image_bytes, mms_image_leaf, mms_save_plan, numbered_name,
    suggested_mms_image_filename, MmsInlineImage,
};
use connected::preview::{
    is_media_mime, on_no_media_player, on_preview_failed, on_preview_read,
    on_preview_started, preview_plan, preview_view, PreviewView,
};
use connected::settings::AppSettings;
use connected::state::{AppState, PreviewData};
use connected::strmap::StrMap;
use connected::thumbs::encoded_thumbnails;

fn png_image(filename: Option<&str>, payload: &str) -> MmsInlineImage {
    MmsInlineImage {
        data_url: format!("data:image/png;base64,{}", payload),
        base64_data: payload.to_string(),
        content_type: "image/png".to_string(),
        filename: filename.map(|f| f.to_string()),
    }
}

#[test]
fn preview_plans_follow_the_extension() {
    let p = preview_plan("music/song.MP3");
    assert_eq!(p.mime_type, "audio/mpeg");
    assert_eq!(p.temp_extension, "MP3");
    assert!(p.is_media);
    let p = preview_plan("notes.txt");
    assert_eq!(p.mime_type, "text/plain");
    assert_eq!(p.temp_extension, "txt");
    assert!(!p.is_media);
    let p = preview_plan("README");
    assert_eq!(p.mime_type, "application/octet-stream");
    assert_eq!(p.temp_extension, "bin");
    let p = preview_plan("archive.");
    assert_eq!(p.mime_type, "application/octet-stream");
    assert_eq!(p.temp_extension, "bin");
    let p = preview_plan("home/.bashrc");
    assert_eq!(p.temp_extension, "bin");
    assert!(is_media_mime("video/mp4"));
    assert!(!is_media_mime("image/png"));
}

#[test]
fn previews_are_shown_by_kind() {
    let data = |mime: &str, bytes: &[u8]| PreviewData {
        filename: "f".to_string(),
        mime_type: mime.to_string(),
        data: bytes.to_vec(),
    };
    match preview_view(&data("image/png", &[1, 2, 3])) {
        PreviewView::Image { data_url } => assert_eq!(data_url, "data:image/png;base64,AQID"),
        other => panic!("unexpected {:?}", other),
    }
    match preview_view(&data("text/plain", b"hi \xff")) {
        PreviewView::Text { text } => assert_eq!(text, "hi \u{FFFD}"),
        other => panic!("unexpected {:?}", other),
    }
    match preview_view(&data("video/mp4", &[0])) {
        PreviewView::Video { data_url } => assert_eq!(data_url, "data:video/mp4;base64,AA=="),
        other => panic!("unexpected {:?}", other),
    }
    match preview_view(&data("application/pdf", &[0; 2048])) {
        PreviewView::Unsupported { mime_type, size_text } => {
            assert_eq!(mime_type, "application/pdf");
            assert_eq!(size_text, "2.0 KB");
        }
        other => panic!("unexpected {:?}", other),
    }
}

#[test]
fn thumbnails_are_held_as_base64() {
    let mut t: StrMap<Vec<u8>> = StrMap::new();
    t.insert("/a.png".to_string(), vec![1, 2, 3]);
    t.insert("/b.png".to_string(), vec![255]);
    let enc = encoded_thumbnails(&t);
    assert_eq!(enc.len(), 2);
    assert!(enc.contains(&("/a.png".to_string(), "AQID".to_string())));
    assert!(enc.contains(&("/b.png".to_string(), "/w==".to_string())));
}

#[test]
fn preview_course_tells_the_user() {
    let mut st = AppState::new(AppSettings::default(), 0);
    on_preview_started(&mut st, "clip.mp4", 1);
    assert_eq!(st.notifications[0].message, "Loading clip.mp4...");
    on_no_media_player(&mut st, "clip.mp4".to_string(), "video/mp4".to_string(), None, 2);
    assert_eq!(st.notifications[1].message, "No media player found to open this file");
    let p = st.preview_data.clone().unwrap();
    assert_eq!(p.filename, "clip.mp4");
    assert!(p.data.is_empty());
    on_no_media_player(
        &mut st,
        "clip.mp4".to_string(),
        "video/mp4".to_string(),
        Some("/home/u/Downloads/clip.mp4".to_string()),
        3,
    );
    assert_eq!(
        st.notifications[2].message,
        "No media player found. Saved to /home/u/Downloads/clip.mp4"
    );
    on_preview_read(&mut st, "a.txt".to_string(), "text/plain".to_string(), None, 4);
    assert_eq!(st.notifications[3].message, "Failed to read file");
    on_preview_read(&mut st, "a.txt".to_string(), "text/plain".to_string(), Some(vec![104, 105]), 5);
    assert_eq!(st.preview_data.clone().unwrap().data, vec![104, 105]);
    on_preview_failed(&mut st, "peer gone", 6);
    assert_eq!(st.notifications.last().unwrap().title, "Preview Failed");
    assert_eq!(st.notifications.last().unwrap().message, "peer gone");
}

#[test]
fn saved_pictures_get_sensible_names() {
    assert_eq!(mms_fallback_extension("image/png"), "png");
    assert_eq!(mms_fallback_extension("image/gif; charset=x"), "gif");
    assert_eq!(mms_fallback_extension("nonsense"), "jpg");
    assert_eq!(mms_image_leaf(&Some("  photos/cat.png ".to_string())).as_deref(), Some("cat.png"));
    assert_eq!(mms_image_leaf(&Some("   ".to_string())), None);
    assert_eq!(mms_image_leaf(&None), None);
    let img = png_image(Some("cat"), "AQID");
    assert_eq!(suggested_mms_image_filename(&img, Some("cat".to_string()), 9), "cat.png");
    assert_eq!(suggested_mms_image_filename(&img, Some("cat.gif".to_string()), 9), "cat.gif");
    assert_eq!(suggested_mms_image_filename(&img, Some("unnamed".to_string()), 9), "mms-image-9.png");
    assert_eq!(suggested_mms_image_filename(&img, None, 1700000000), "mms-image-1700000000.png");
}

#[test]
fn saving_a_picture_decodes_and_names_it() {
    let img = png_image(Some("cat.png"), "AQID");
    assert_eq!(mms_image_bytes(&img).unwrap(), vec![1, 2, 3]);
    let plan = mms_save_plan(&img, "  ", Some("cat.png".to_string()), 5).unwrap();
    assert!(plan.use_default_dir);
    assert_eq!(plan.bytes, vec![1, 2, 3]);
    assert_eq!(plan.file_name, "cat.png");
    assert_eq!(plan.stem, "cat");
    assert_eq!(plan.extension, "png");
    assert_eq!(numbered_name(&plan.stem, &plan.extension, 1), "cat-1.png");
    let plan = mms_save_plan(&img, "/tmp/pics", None, 5).unwrap();
    assert!(!plan.use_default_dir);
    assert_eq!(plan.stem, "mms-image-5");
    let bad = png_image(None, "not base64!");
    let err = mms_image_bytes(&bad).unwrap_err();
    assert!(err.starts_with("Invalid image payload: "));
    assert!(mms_save_plan(&bad, "", None, 1).is_err());
}

#[test]
fn media_players_are_tried_in_order() {
    let linux = connected::preview::media_player_commands(connected::preview::DesktopSystem::Linux);
    let names: Vec<&str> = linux.iter().map(|c| c.program.as_str()).collect();
    assert_eq!(names, vec!["vlc", "mpv", "totem", "smplayer", "xdg-open", "gio"]);
    assert_eq!(linux[5].args, vec!["open".to_string()]);
    let win = connected::preview::media_player_commands(connected::preview::DesktopSystem::Windows);
    assert_eq!(win[2].program, "cmd");
    assert_eq!(win[2].args, vec!["/c".to_string(), "start".to_string(), String::new()]);
    let mac = connected::preview::media_player_commands(connected::preview::DesktopSystem::MacOs);
    assert_eq!(mac.len(), 3);
    assert_eq!(mac[2].program, "open");
}
