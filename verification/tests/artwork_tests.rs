use emulator_hub::artwork::usable_api_key;
use emulator_hub::artwork::{
    artwork_search_terms, artwork_url_in_payload, cached_artwork_file_name,
    find_original_image_base_url, first_game_id, image_url_from_value, images_url,
    normalize_image_url, search_url, url_encode, ArtworkLookup, ArtworkStep,
};
use emulator_hub::json::{get, JsonNumber, JsonValue};

fn s(v: &str) -> JsonValue {
    JsonValue::Str(v.to_string())
}

fn n(v: i64) -> JsonValue {
    JsonValue::Number(JsonNumber { integer: Some(v), text: v.to_string() })
}

fn obj(entries: Vec<(&str, JsonValue)>) -> JsonValue {
    JsonValue::Object(entries.into_iter().map(|(k, v)| (k.to_string(), v)).collect())
}

/// A search answer in the shape TheGamesDB gives, with one box-art image.
fn answer_with_boxart() -> JsonValue {
    obj(vec![
        (
            "data",
            obj(vec![
                ("count", n(1)),
                ("games", JsonValue::Array(vec![obj(vec![("game_title", s("Pokemon Emerald")), ("id", n(1234))])])),
            ]),
        ),
        (
            "include",
            obj(vec![(
                "boxart",
                obj(vec![
                    (
                        "base_url",
                        obj(vec![
                            ("large", s("https://cdn.thegamesdb.net/images/large/")),
                            ("original", s("https://cdn.thegamesdb.net/images/original/")),
                        ]),
                    ),
                    (
                        "data",
                        obj(vec![(
                            "1234",
                            JsonValue::Array(vec![obj(vec![
                                ("filename", s("boxart/front/1234-1.jpg")),
                                ("id", n(1)),
                                ("side", s("front")),
                            ])]),
                        )]),
                    ),
                ]),
            )]),
        ),
    ])
}

/// A search answer that names a game but carries no image.
fn answer_with_game_only() -> JsonValue {
    obj(vec![("data", obj(vec![("games", JsonValue::Array(vec![obj(vec![("id", n(77))])]))]))])
}

#[test]
fn url_encoding_keeps_unreserved_bytes() {
    assert_eq!(url_encode("a b"), "a%20b");
    assert_eq!(url_encode("Pokemon Emerald"), "Pokemon%20Emerald");
    assert_eq!(url_encode("A-z_0.9~"), "A-z_0.9~");
    assert_eq!(url_encode("a&b=c/d"), "a%26b%3Dc%2Fd");
    assert_eq!(url_encode("é"), "%C3%A9");
    assert_eq!(url_encode(""), "");
}

#[test]
fn image_addresses_are_normalized() {
    assert_eq!(normalize_image_url("  https://x/y.png ", None).as_deref(), Some("https://x/y.png"));
    assert_eq!(normalize_image_url("http://x/y.png", Some("https://b/")).as_deref(), Some("http://x/y.png"));
    assert_eq!(normalize_image_url("//cdn/y.png", None).as_deref(), Some("https://cdn/y.png"));
    assert_eq!(
        normalize_image_url("/boxart/y.png", Some("https://cdn/original//")).as_deref(),
        Some("https://cdn/original/boxart/y.png")
    );
    assert_eq!(normalize_image_url("boxart/y.png", None), None);
    assert_eq!(normalize_image_url("   ", Some("https://cdn/")), None);
}

#[test]
fn search_terms_drop_tags_and_repeat_nothing() {
    assert_eq!(
        artwork_search_terms("Pokemon - Emerald (USA)"),
        vec!["Pokemon Emerald".to_string(), "Pokemon  Emerald".to_string()]
    );
    assert_eq!(artwork_search_terms("Metroid Fusion [!]"), vec!["Metroid Fusion".to_string()]);
    assert_eq!(artwork_search_terms("Spider-Man"), vec!["Spider-Man".to_string(), "Spider Man".to_string()]);
    assert_eq!(artwork_search_terms("(Beta)"), Vec::<String>::new());
}

#[test]
fn search_and_image_addresses() {
    assert_eq!(
        search_url("K Y", "Pokemon Emerald"),
        "https://api.thegamesdb.net/v1/Games/ByGameName?apikey=K%20Y&name=Pokemon%20Emerald&include=boxart"
    );
    assert_eq!(
        images_url("KEY", 1234),
        "https://api.thegamesdb.net/v1/Games/Images?apikey=KEY&games_id=1234"
    );
    assert_eq!(images_url("KEY", -5), "https://api.thegamesdb.net/v1/Games/Images?apikey=KEY&games_id=-5");
}

#[test]
fn answers_give_their_box_art() {
    let payload = answer_with_boxart();
    assert_eq!(
        find_original_image_base_url(&payload).as_deref(),
        Some("https://cdn.thegamesdb.net/images/original/")
    );
    assert_eq!(
        image_url_from_value(&payload, Some("https://cdn.thegamesdb.net/images/original/")).as_deref(),
        Some("https://cdn.thegamesdb.net/images/original/boxart/front/1234-1.jpg")
    );
    assert_eq!(
        artwork_url_in_payload(&payload).as_deref(),
        Some("https://cdn.thegamesdb.net/images/original/boxart/front/1234-1.jpg")
    );
    assert_eq!(first_game_id(&payload), Some(1234));
    assert_eq!(image_url_from_value(&payload, None), None);
    assert_eq!(first_game_id(&obj(vec![])), None);
    assert!(get(&payload, "data").is_some());
    assert!(get(&payload, "missing").is_none());
}

#[test]
fn image_keys_are_found_before_nested_members() {
    let v = obj(vec![
        ("nested", obj(vec![("url", s("https://nested/a.png"))])),
        ("FrontCover", s("https://direct/b.png")),
    ]);
    assert_eq!(image_url_from_value(&v, None).as_deref(), Some("https://direct/b.png"));
    let arr = JsonValue::Array(vec![n(3), obj(vec![("image", s("//img/c.png"))])]);
    assert_eq!(image_url_from_value(&arr, None).as_deref(), Some("https://img/c.png"));
}

#[test]
fn lookup_finds_artwork_in_the_first_answer() {
    let (mut lookup, step) = ArtworkLookup::start("KEY", "Pokemon - Emerald (USA)");
    match step {
        ArtworkStep::Fetch(u) => assert_eq!(
            u,
            "https://api.thegamesdb.net/v1/Games/ByGameName?apikey=KEY&name=Pokemon%20Emerald&include=boxart"
        ),
        _ => panic!("expected a search"),
    }
    match lookup.on_payload(&answer_with_boxart()) {
        ArtworkStep::Found(u) => {
            assert_eq!(u, "https://cdn.thegamesdb.net/images/original/boxart/front/1234-1.jpg")
        }
        _ => panic!("expected artwork"),
    }
    assert!(matches!(lookup.on_payload(&answer_with_boxart()), ArtworkStep::NotFound));
}

#[test]
fn lookup_asks_for_images_then_tries_the_next_term() {
    let (mut lookup, _) = ArtworkLookup::start("KEY", "Pokemon - Emerald (USA)");
    match lookup.on_payload(&answer_with_game_only()) {
        ArtworkStep::Fetch(u) => {
            assert_eq!(u, "https://api.thegamesdb.net/v1/Games/Images?apikey=KEY&games_id=77")
        }
        _ => panic!("expected an images request"),
    }
    match lookup.on_payload(&obj(vec![])) {
        ArtworkStep::Fetch(u) => assert_eq!(
            u,
            "https://api.thegamesdb.net/v1/Games/ByGameName?apikey=KEY&name=Pokemon%20%20Emerald&include=boxart"
        ),
        _ => panic!("expected the second search"),
    }
    assert!(matches!(lookup.on_payload(&JsonValue::Null), ArtworkStep::NotFound));
}

#[test]
fn lookup_without_terms_finds_nothing() {
    let (_, step) = ArtworkLookup::start("KEY", "  ");
    assert!(matches!(step, ArtworkStep::NotFound));
}

#[test]
fn cached_artwork_is_named_by_the_address_hash() {
    assert_eq!(
        cached_artwork_file_name("https://cdn.thegamesdb.net/images/original/boxart/front/1-1.PNG?x=1"),
        "97e1eaf291241de234dc3c3380ab2f7d032b862351a9f5c66989b300bdfda2c1.PNG"
    );
    assert_eq!(
        cached_artwork_file_name("https://example.com/a/b.gif"),
        "10cc54e600155b3686581decd6bfd4f81c2567b8ea3c4e6d5a67490fea428311.jpg"
    );
}

#[test]
fn only_a_non_blank_api_key_is_used() {
    assert_eq!(usable_api_key("  abc123 ").as_deref(), Some("abc123"));
    assert_eq!(usable_api_key("   "), None);
    assert_eq!(usable_api_key(""), None);
}

#[test]
fn cached_artwork_keeps_an_image_extension() {
    for url in ["https://x/a.JPEG", "https://x/a.webp", "https://x/noext", "https://x/a.png?v=2.gif"] {
        let name = cached_artwork_file_name(url);
        let ext = name.rsplit('.').next().unwrap().to_ascii_lowercase();
        assert!(ext == "png" || ext == "jpg" || ext == "jpeg", "{name}");
    }
    assert!(cached_artwork_file_name("https://x/a.JPEG").ends_with(".JPEG"));
    assert!(cached_artwork_file_name("https://x/a.png?v=2.gif").ends_with(".png"));
}
