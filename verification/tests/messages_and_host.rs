use connected::ffi::FfiMmsAttachment;
use connected::host::{choose_hostname, name_from_output, name_from_table_output};
use connected::mms::{attachment_preview_image, numbered_name};

fn att(ct: &str, data: Option<&str>, name: Option<&str>) -> FfiMmsAttachment {
    FfiMmsAttachment {
        id: "1".to_string(),
        content_type: ct.to_string(),
        filename: name.map(|s| s.to_string()),
        data: data.map(|s| s.to_string()),
    }
}

#[test]
fn first_picture_with_data_is_shown() {
    let atts = vec![
        att("text/plain", Some("aGk="), None),
        att("image/png", None, None),
        att("image/png", Some(""), None),
        att("image/jpeg", Some("/9j/"), Some("pic.jpg")),
        att("image/gif", Some("R0lG"), None),
    ];
    let img = attachment_preview_image(&atts).expect("a picture");
    assert_eq!(img.data_url, "data:image/jpeg;base64,/9j/");
    assert_eq!(img.base64_data, "/9j/");
    assert_eq!(img.content_type, "image/jpeg");
    assert_eq!(img.filename.as_deref(), Some("pic.jpg"));
    assert!(attachment_preview_image(&atts[..3]).is_none());
    assert!(attachment_preview_image(&[]).is_none());
}

#[test]
fn numbered_alternative_names() {
    assert_eq!(numbered_name("photo", "jpg", 1), "photo-1.jpg");
    assert_eq!(numbered_name("photo", "", 12), "photo-12");
}

#[test]
fn host_names_from_tool_output() {
    assert_eq!(name_from_output(b"  My Laptop\n").as_deref(), Some("My Laptop"));
    assert_eq!(name_from_output(b" \n\t").as_deref(), None);
    assert_eq!(name_from_output(&[0x66, 0xff, 0x6f]).as_deref(), Some("f\u{FFFD}o"));
    assert_eq!(name_from_table_output(b"Name  \r\nDESKTOP-1  \r\n\r\n").as_deref(), Some("DESKTOP-1"));
    assert_eq!(name_from_table_output(b"Name\n").as_deref(), None);
    assert_eq!(name_from_table_output(b"Name").as_deref(), None);
}

#[test]
fn host_name_preference() {
    let s = |x: &str| Some(x.to_string());
    assert_eq!(choose_hostname(s("Pretty"), s("ENV"), s("host")), "Pretty");
    assert_eq!(choose_hostname(None, s("ENV"), s("host")), "ENV");
    assert_eq!(choose_hostname(None, None, s("host")), "host");
    assert_eq!(choose_hostname(None, None, None), "Desktop");
}
