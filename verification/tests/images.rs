use castoff::images::{
    extension_for_content_type, generate_id, name_upload, pick_random_avoiding_repeat,
    random_index, store_paths, ImageStore, Manifest, Remembered, StoredImage,
};

fn image(id: &str, wallpaper: bool) -> StoredImage {
    StoredImage {
        id: id.to_string(),
        file_name: format!("{id}.png"),
        content_type: "image/png".to_string(),
        wallpaper,
    }
}

fn empty_store() -> ImageStore {
    ImageStore::with_dir("/state", Manifest::default())
}

#[test]
fn storing_returns_a_usable_id() {
    let mut store = empty_store();
    let stored = name_upload("image/png", 255, 16).expect("an image/* upload must be accepted");

    assert!(!stored.id.is_empty());
    assert_eq!(stored.id, "ff-10");
    assert_eq!(stored.file_name, format!("{}.png", stored.id));
    assert!(!stored.wallpaper, "a freshly uploaded image starts untagged");
    assert_eq!(store.path_of(&stored), "/state/images/ff-10.png");

    store.store(stored.clone()).unwrap();
    let path = store
        .path_for(&stored.id)
        .expect("path_for must resolve a stored id");
    assert_eq!(path, "/state/images/ff-10.png");

    let url = store
        .file_url_for(&stored.id)
        .expect("file_url_for must resolve a stored id");
    assert!(url.starts_with("file://"));
    assert!(url.ends_with(&stored.file_name));
    assert_eq!(url, "file:///state/images/ff-10.png");
}

#[test]
fn store_rejects_non_image_content_types() {
    let err = name_upload("text/html", 1, 1)
        .expect_err("a non-image/* content type must be refused");
    assert!(err.message().contains("image/*"));
    assert_eq!(
        err.message(),
        "upload content type \"text/html\" is not an image/* MIME type"
    );
    let quoted = name_upload("a\"b", 1, 1).expect_err("refused");
    assert_eq!(
        quoted.message(),
        "upload content type \"a\\\"b\" is not an image/* MIME type"
    );
    assert!(name_upload("", 1, 1).is_err());

    let mut store = empty_store();
    let mut page = image("a", false);
    page.content_type = "text/html".to_string();
    let err = store
        .store(page)
        .expect_err("whoever stores it, it is no image");
    assert_eq!(
        err.message(),
        "upload content type \"text/html\" is not an image/* MIME type"
    );
    assert!(store.manifest.images.is_empty());
    assert_eq!(store.path_for("a"), None);
}

#[test]
fn a_wallpaper_tag_survives_a_reload() {
    let mut store = empty_store();
    let stored = name_upload("image/jpeg", 5, 0).expect("store");
    store.store(stored.clone()).unwrap();

    assert!(store.set_wallpaper(&stored.id, true), "id must be found");

    let mut reloaded =
        ImageStore::with_dir("/state", Manifest::load(Remembered::Found(store.manifest)));
    assert_eq!(
        reloaded.pick_next_wallpaper(1, 2),
        Some("/state/images/5-0.jpg".to_string())
    );
    assert_eq!(reloaded.last_wallpaper_id, Some("5-0".to_string()));

    assert!(reloaded.set_wallpaper(&stored.id, false), "id must be found");
    assert!(reloaded.pick_next_wallpaper(3, 4).is_none());
}

#[test]
fn set_wallpaper_on_an_unknown_id_reports_not_found() {
    let mut store = empty_store();
    assert!(!store.set_wallpaper("does-not-exist", true));
    store.store(image("a", false)).unwrap();
    assert!(!store.set_wallpaper("does-not-exist", true));
    assert!(!store.manifest.images[0].wallpaper);
}

#[test]
fn missing_manifest_loads_as_no_stored_images() {
    let mut store = ImageStore::with_dir("/state", Manifest::load(Remembered::Missing));
    assert!(store.pick_next_wallpaper(0, 0).is_none());
    assert!(store.path_for("anything").is_none());
    assert!(store.file_url_for("anything").is_none());
}

#[test]
fn a_damaged_manifest_costs_only_what_it_remembered() {
    for remembered in [
        Remembered::NoPlace,
        Remembered::Unreadable,
        Remembered::Unparsable,
    ] {
        assert!(Manifest::load(remembered).images.is_empty());
    }
    assert!(Remembered::Unreadable.is_lost());
    assert!(Remembered::Unparsable.is_lost());
    assert!(!Remembered::Missing.is_lost());
    assert!(!Remembered::NoPlace.is_lost());
    assert!(!Remembered::Found(Manifest::default()).is_lost());
}

#[test]
fn pick_next_wallpaper_is_none_when_nothing_is_tagged() {
    let mut store = empty_store();
    store.store(name_upload("image/png", 1, 0).unwrap()).unwrap();
    store.store(name_upload("image/png", 1, 1).unwrap()).unwrap();
    assert!(store.pick_next_wallpaper(9, 9).is_none());
}

#[test]
fn pick_random_avoiding_repeat_returns_the_only_candidate_even_if_it_was_previous() {
    let images = vec![image("solo", true)];
    for counter in 0..5 {
        let picked = pick_random_avoiding_repeat(&images, Some("solo"), 12345, counter);
        assert_eq!(picked.map(|i| i.id.as_str()), Some("solo"));
    }
}

#[test]
fn pick_random_avoiding_repeat_returns_none_for_no_candidates() {
    assert!(pick_random_avoiding_repeat(&vec![], None, 1, 1).is_none());
    assert!(pick_random_avoiding_repeat(&vec![], Some("x"), 1, 1).is_none());
}

#[test]
fn pick_random_avoiding_repeat_never_repeats_and_is_actually_random() {
    let images = vec![image("a", true), image("b", true), image("c", true)];
    let mut previous = "a".to_string();
    let mut seen = std::collections::HashSet::new();
    for counter in 0..300 {
        let picked = pick_random_avoiding_repeat(&images, Some(&previous), 1_700_000_000, counter)
            .expect("candidates are non-empty");
        assert_ne!(
            picked.id, previous,
            "must never immediately repeat the previous pick"
        );
        seen.insert(picked.id.clone());
        previous = picked.id.clone();
    }
    assert!(
        seen.len() > 1,
        "expected genuine variety across 300 picks, got only {seen:?}"
    );
}

#[test]
fn candidates_that_share_the_previous_id_are_still_shown() {
    let images = vec![image("a", true), image("a", true)];
    let picked = pick_random_avoiding_repeat(&images, Some("a"), 7, 7);
    assert_eq!(picked.map(|i| i.id.as_str()), Some("a"));
}

#[test]
fn the_rotation_shows_every_wallpaper_and_never_one_twice_in_a_row() {
    let mut store = empty_store();
    store.store(image("a", true)).unwrap();
    store.store(image("b", false)).unwrap();
    store.store(image("c", true)).unwrap();
    let mut last = None;
    for counter in 0..20 {
        let path = store.pick_next_wallpaper(99, counter);
        assert!(path.is_some());
        assert_ne!(path, last);
        assert_ne!(path, Some("/state/images/b.png".to_string()));
        last = path;
    }
}

#[test]
fn the_mixed_index_is_that_of_splitmix() {
    // The first output of splitmix64 seeded with 0 is 0xE220A8397B1DCDAF.
    assert_eq!(random_index(usize::MAX, 0, 1), 0xE220_A839_7B1D_CDAF);
    assert_eq!(random_index(1, 17, 3), 0);
    assert_eq!(random_index(10, 0, 1), (0xE220_A839_7B1D_CDAFu64 % 10) as usize);
}

#[test]
fn ids_are_made_of_the_time_and_the_count() {
    assert_eq!(generate_id(0, 0), "0-0");
    assert_eq!(generate_id(0xdead_beef, 0xabc), "deadbeef-abc");
    assert_ne!(generate_id(0x1, 0x11), generate_id(0x11, 0x1));
}

#[test]
fn every_known_type_has_its_extension() {
    for (media, extension) in [
        ("image/jpeg", "jpg"),
        ("image/jpg", "jpg"),
        ("image/png", "png"),
        ("image/gif", "gif"),
        ("image/webp", "webp"),
        ("image/bmp", "bmp"),
        ("image/heic", "heic"),
        ("image/heif", "heif"),
        ("image/tiff", "tiff"),
        ("image/svg+xml", "svg"),
        ("image/x-unknown", "img"),
    ] {
        assert_eq!(extension_for_content_type(media), extension);
    }
}

#[test]
fn a_content_type_is_taken_without_case_and_parameters() {
    let stored = name_upload(" Image/JPEG ; quality=high", 1, 2).unwrap();
    assert_eq!(stored.content_type, "image/jpeg");
    assert_eq!(stored.file_name, "1-2.jpg");
}

#[test]
fn the_store_is_in_the_state_directory_or_a_temporary_one() {
    let paths = store_paths(Some("/state".to_string()), "/tmp", "/home/kiosk");
    assert_eq!(paths.dir, "/state/images");
    assert_eq!(paths.manifest_path, Some("/state/images.json".to_string()));
    let paths = store_paths(None, "/tmp", "/home/kiosk");
    assert_eq!(paths.dir, "/tmp/castoff-images");
    assert_eq!(paths.manifest_path, None);
    let store = ImageStore::with_paths(paths, Manifest::default());
    assert_eq!(store.dir, "/tmp/castoff-images");
    assert!(store.last_wallpaper_id.is_none());
}

#[test]
fn a_stored_image_has_an_absolute_path() {
    let paths = store_paths(Some("state".to_string()), "/tmp", "/home/kiosk");
    assert_eq!(paths.dir, "/home/kiosk/state/images");
    assert_eq!(
        paths.manifest_path,
        Some("/home/kiosk/state/images.json".to_string())
    );
    let mut store = ImageStore::with_paths(paths, Manifest::default());
    store.store(image("a", false)).unwrap();
    assert_eq!(
        store.path_for("a"),
        Some("/home/kiosk/state/images/a.png".to_string())
    );
    assert_eq!(
        store.file_url_for("a"),
        Some("file:///home/kiosk/state/images/a.png".to_string())
    );
    assert_eq!(store.path_for("b"), None);
    assert_eq!(
        store_paths(None, "tmp", "/").dir,
        "/tmp/castoff-images"
    );
}

#[test]
fn stored_images_have_absolute_paths() {
    let mut store = ImageStore::with_dir("/srv/castoff", Manifest::default());
    store.store(image("a", false)).unwrap();
    assert_eq!(
        store.path_for("a").unwrap(),
        "/srv/castoff/images/a.png"
    );
}
