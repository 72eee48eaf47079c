use celestial_overlay::feeds::{
    catalogue_hrefs, catalogue_photo, daily_photo, daily_photos, has_wallpaper_extension,
    manifest_url, member_text, rover_camera_listed, rover_photo, rover_photos, single_byte,
};
use celestial_overlay::json::Json;
use celestial_overlay::photo::Photo;

fn text(value: &str) -> Json {
    Json::Text(value.to_string())
}

fn object(members: Vec<(&str, Json)>) -> Json {
    Json::Object(members.into_iter().map(|(key, value)| (key.to_string(), value)).collect())
}

fn rover_entry(camera: &str, src: &str) -> Json {
    object(vec![("camera", object(vec![("name", text(camera))])), ("img_src", text(src))])
}

fn photo(camera: &str, src: &str, name: &str) -> Photo {
    Photo::new(camera.to_string(), src.to_string(), name.to_string())
}

#[test]
fn member_text_reads_a_string_member() {
    let value = object(vec![("a", text("x")), ("b", Json::Bool(true))]);
    assert_eq!(member_text(&value, "a"), Some("x"));
    assert_eq!(member_text(&value, "b"), None);
    assert_eq!(member_text(&value, "c"), None);
    assert_eq!(member_text(&Json::Null, "a"), None);
}

#[test]
fn rover_camera_listed_knows_the_four_cameras() {
    assert!(rover_camera_listed("FRONT_HAZCAM_LEFT_A"));
    assert!(rover_camera_listed("FRONT_HAZCAM_RIGHT_A"));
    assert!(rover_camera_listed("REAR_HAZCAM_LEFT"));
    assert!(rover_camera_listed("REAR_HAZCAM_RIGHT"));
    assert!(!rover_camera_listed("MCZ_RIGHT"));
    assert!(!rover_camera_listed("MCZ_LEFT"));
    assert!(!rover_camera_listed("SHERLOC_WATSON"));
    assert!(!rover_camera_listed("front_hazcam_left_a"));
    assert!(!rover_camera_listed(""));
}

#[test]
fn rover_photo_names_the_photo_after_its_camera() {
    let entry = rover_entry("REAR_HAZCAM_LEFT", "https://mars.nasa.gov/r.png");
    assert_eq!(
        rover_photo(&entry),
        Some(Some(photo(
            "REAR_HAZCAM_LEFT",
            "https://mars.nasa.gov/r.png",
            "Perseverance REAR_HAZCAM_LEFT"
        )))
    );
}

#[test]
fn rover_photo_passes_over_other_cameras() {
    assert_eq!(rover_photo(&rover_entry("MCZ_LEFT", "https://mars.nasa.gov/m.png")), Some(None));
    let without_src = object(vec![("camera", object(vec![("name", text("MCZ_LEFT"))]))]);
    assert_eq!(rover_photo(&without_src), Some(None));
}

#[test]
fn rover_photo_cannot_read_an_entry_without_camera_or_address() {
    assert_eq!(rover_photo(&object(vec![("img_src", text("https://mars.nasa.gov/m.png"))])), None);
    assert_eq!(rover_photo(&object(vec![("camera", text("REAR_HAZCAM_LEFT"))])), None);
    let numbered = object(vec![("camera", object(vec![("name", Json::Number("1".to_string()))]))]);
    assert_eq!(rover_photo(&numbered), None);
    let without_src = object(vec![("camera", object(vec![("name", text("REAR_HAZCAM_LEFT"))]))]);
    assert_eq!(rover_photo(&without_src), None);
    assert_eq!(rover_photo(&Json::Null), None);
}

#[test]
fn rover_photos_keeps_the_listed_cameras_in_order() {
    let reply = object(vec![(
        "photos",
        Json::Array(vec![
            rover_entry("FRONT_HAZCAM_LEFT_A", "https://mars.nasa.gov/a.png"),
            rover_entry("MCZ_RIGHT", "https://mars.nasa.gov/b.png"),
            rover_entry("REAR_HAZCAM_RIGHT", "https://mars.nasa.gov/c.jpg"),
        ]),
    )]);
    assert_eq!(
        rover_photos(&reply),
        Some(vec![
            photo(
                "FRONT_HAZCAM_LEFT_A",
                "https://mars.nasa.gov/a.png",
                "Perseverance FRONT_HAZCAM_LEFT_A"
            ),
            photo("REAR_HAZCAM_RIGHT", "https://mars.nasa.gov/c.jpg", "Perseverance REAR_HAZCAM_RIGHT"),
        ])
    );
}

#[test]
fn rover_photos_of_a_reply_without_photos_are_none() {
    assert_eq!(rover_photos(&object(vec![])), Some(vec![]));
    assert_eq!(rover_photos(&object(vec![("photos", Json::Null)])), Some(vec![]));
    assert_eq!(rover_photos(&object(vec![("photos", Json::Array(vec![]))])), Some(vec![]));
    assert_eq!(rover_photos(&Json::Null), Some(vec![]));
    let others = object(vec![(
        "photos",
        Json::Array(vec![rover_entry("MCZ_RIGHT", "https://mars.nasa.gov/b.png")]),
    )]);
    assert_eq!(rover_photos(&others), Some(vec![]));
}

#[test]
fn rover_photos_cannot_read_a_wrong_shape() {
    assert_eq!(rover_photos(&object(vec![("photos", text("none"))])), None);
    assert_eq!(rover_photos(&object(vec![("photos", Json::Bool(false))])), None);
    let broken = object(vec![(
        "photos",
        Json::Array(vec![
            rover_entry("FRONT_HAZCAM_LEFT_A", "https://mars.nasa.gov/a.png"),
            object(vec![("img_src", text("https://mars.nasa.gov/b.png"))]),
        ]),
    )]);
    assert_eq!(rover_photos(&broken), None);
}

#[test]
fn has_wallpaper_extension_looks_behind_the_last_dot() {
    assert!(has_wallpaper_extension("https://apod.nasa.gov/image/a.jpg"));
    assert!(has_wallpaper_extension("https://apod.nasa.gov/image/a.jpeg"));
    assert!(has_wallpaper_extension("https://apod.nasa.gov/image/a.png"));
    assert!(has_wallpaper_extension("jpg"));
    assert!(!has_wallpaper_extension("https://apod.nasa.gov/image/a.gif"));
    assert!(!has_wallpaper_extension("https://apod.nasa.gov/image/a.JPG"));
    assert!(!has_wallpaper_extension("https://apod.nasa.gov/image/a.jpg?x=1"));
    assert!(!has_wallpaper_extension("https://www.youtube.com/embed/abc"));
    assert!(!has_wallpaper_extension("https://apod.nasa.gov/image/a.jpg."));
}

#[test]
fn daily_photo_prefers_the_high_definition_address() {
    let entry = object(vec![
        ("title", text("Orion")),
        ("url", text("https://apod.nasa.gov/o_small.jpg")),
        ("hdurl", text("https://apod.nasa.gov/o_large.png")),
    ]);
    assert_eq!(
        daily_photo(&entry),
        Some(Some(photo("APOD", "https://apod.nasa.gov/o_large.png", "Orion")))
    );
}

#[test]
fn daily_photo_falls_back_to_the_ordinary_address() {
    let entry =
        object(vec![("title", text("Orion")), ("url", text("https://apod.nasa.gov/o_small.jpg"))]);
    assert_eq!(
        daily_photo(&entry),
        Some(Some(photo("APOD", "https://apod.nasa.gov/o_small.jpg", "Orion")))
    );
    let numbered = object(vec![
        ("title", text("Orion")),
        ("hdurl", Json::Number("4".to_string())),
        ("url", text("https://apod.nasa.gov/o_small.jpeg")),
    ]);
    assert_eq!(
        daily_photo(&numbered),
        Some(Some(photo("APOD", "https://apod.nasa.gov/o_small.jpeg", "Orion")))
    );
}

#[test]
fn daily_photo_passes_over_what_is_no_image() {
    let video =
        object(vec![("title", text("Launch")), ("url", text("https://www.youtube.com/embed/abc"))]);
    assert_eq!(daily_photo(&video), Some(None));
    let by_hd = object(vec![
        ("title", text("Launch")),
        ("url", text("https://apod.nasa.gov/o.jpg")),
        ("hdurl", text("https://apod.nasa.gov/o.gif")),
    ]);
    assert_eq!(daily_photo(&by_hd), Some(None));
}

#[test]
fn daily_photo_cannot_read_an_entry_without_address_or_title() {
    assert_eq!(daily_photo(&object(vec![("title", text("Orion"))])), None);
    assert_eq!(daily_photo(&object(vec![("url", text("https://apod.nasa.gov/o.jpg"))])), None);
    assert_eq!(daily_photo(&Json::Array(vec![])), None);
}

#[test]
fn daily_photos_keeps_the_images_in_order() {
    let reply = Json::Array(vec![
        object(vec![("title", text("One")), ("url", text("https://apod.nasa.gov/1.jpg"))]),
        object(vec![("title", text("Two")), ("url", text("https://vimeo.com/2"))]),
        object(vec![
            ("title", text("Three")),
            ("url", text("https://apod.nasa.gov/3.jpg")),
            ("hdurl", text("https://apod.nasa.gov/3_hd.png")),
        ]),
    ]);
    assert_eq!(
        daily_photos(&reply),
        Some(vec![
            photo("APOD", "https://apod.nasa.gov/1.jpg", "One"),
            photo("APOD", "https://apod.nasa.gov/3_hd.png", "Three"),
        ])
    );
    assert_eq!(daily_photos(&Json::Array(vec![])), Some(vec![]));
}

#[test]
fn daily_photos_cannot_read_a_wrong_shape() {
    assert_eq!(daily_photos(&object(vec![("error", text("rate limit"))])), None);
    assert_eq!(daily_photos(&Json::Null), None);
    let broken = Json::Array(vec![
        object(vec![("title", text("One")), ("url", text("https://apod.nasa.gov/1.jpg"))]),
        object(vec![("title", text("Two"))]),
    ]);
    assert_eq!(daily_photos(&broken), None);
}

#[test]
fn catalogue_hrefs_gives_each_link_as_json_text() {
    let reply = object(vec![(
        "collection",
        object(vec![(
            "items",
            Json::Array(vec![
                object(vec![("href", text("https://images-assets.nasa.gov/image/A/collection.json"))]),
                object(vec![("href", text("https://images-assets.nasa.gov/image/B/collection.json"))]),
            ]),
        )]),
    )]);
    assert_eq!(
        catalogue_hrefs(&reply),
        Some(vec![
            "\"https://images-assets.nasa.gov/image/A/collection.json\"".to_string(),
            "\"https://images-assets.nasa.gov/image/B/collection.json\"".to_string(),
        ])
    );
}

#[test]
fn catalogue_hrefs_escapes_as_json_does() {
    let reply = object(vec![(
        "collection",
        object(vec![("items", Json::Array(vec![object(vec![("href", text("a\"b\\c\n"))])]))]),
    )]);
    assert_eq!(catalogue_hrefs(&reply), Some(vec!["\"a\\\"b\\\\c\\n\"".to_string()]));
}

#[test]
fn catalogue_hrefs_of_no_items_are_none() {
    let reply = object(vec![("collection", object(vec![("items", Json::Array(vec![]))]))]);
    assert_eq!(catalogue_hrefs(&reply), Some(vec![]));
}

#[test]
fn catalogue_hrefs_cannot_read_a_wrong_shape() {
    assert_eq!(catalogue_hrefs(&Json::Null), None);
    assert_eq!(catalogue_hrefs(&object(vec![("collection", object(vec![]))])), None);
    assert_eq!(
        catalogue_hrefs(&object(vec![("collection", object(vec![("items", text("none"))]))])),
        None
    );
    let without_href = object(vec![(
        "collection",
        object(vec![("items", Json::Array(vec![object(vec![("data", Json::Null)])]))]),
    )]);
    assert_eq!(catalogue_hrefs(&without_href), None);
    let numbered = object(vec![(
        "collection",
        object(vec![(
            "items",
            Json::Array(vec![object(vec![("href", Json::Number("7".to_string()))])]),
        )]),
    )]);
    assert_eq!(catalogue_hrefs(&numbered), None);
}

#[test]
fn single_byte_is_the_ascii_range() {
    assert!(single_byte('a'));
    assert!(single_byte('"'));
    assert!(single_byte('\u{7f}'));
    assert!(!single_byte('\u{80}'));
    assert!(!single_byte('\u{e9}'));
}

#[test]
fn manifest_url_drops_the_first_character_and_the_quotes() {
    assert_eq!(
        manifest_url("\"https://images-assets.nasa.gov/image/A/collection.json\""),
        Some("https://images-assets.nasa.gov/image/A/collection.json".to_string())
    );
    assert_eq!(manifest_url("xhttp://a/\"b\"c"), Some("http://a/bc".to_string()));
    assert_eq!(manifest_url("\"a\\\"b\""), Some("a\\b".to_string()));
    assert_eq!(manifest_url("\""), Some(String::new()));
    assert_eq!(manifest_url("x"), Some(String::new()));
}

#[test]
fn manifest_url_of_an_empty_or_strange_link_is_none() {
    assert_eq!(manifest_url(""), None);
    assert_eq!(manifest_url("\u{e9}http://a/b"), None);
}

#[test]
fn catalogue_photo_takes_the_first_entry_of_the_manifest() {
    let manifest = Json::Array(vec![
        text("https://images-assets.nasa.gov/image/A/A~orig.jpg"),
        text("https://images-assets.nasa.gov/image/A/A~thumb.jpg"),
    ]);
    assert_eq!(
        catalogue_photo(&manifest),
        Some(photo("NASA", "https://images-assets.nasa.gov/image/A/A~orig.jpg", ""))
    );
}

#[test]
fn catalogue_photo_keeps_the_escapes_of_the_json_text() {
    let manifest = Json::Array(vec![text("a\"b")]);
    assert_eq!(catalogue_photo(&manifest), Some(photo("NASA", "a\\\"b", "")));
    assert_eq!(catalogue_photo(&Json::Array(vec![text("")])), Some(photo("NASA", "", "")));
}

#[test]
fn catalogue_photo_cannot_read_a_wrong_shape() {
    assert_eq!(catalogue_photo(&Json::Array(vec![])), None);
    assert_eq!(catalogue_photo(&Json::Null), None);
    assert_eq!(catalogue_photo(&object(vec![("0", text("a"))])), None);
    assert_eq!(catalogue_photo(&Json::Array(vec![Json::Number("12".to_string())])), None);
    assert_eq!(catalogue_photo(&Json::Array(vec![Json::Null, text("a")])), None);
}
