use castoff::images::{ImageStore, Manifest};
use castoff::upload::{
    accept, check_body, check_request, content_type_of, name_image, Answer, Header, Request,
    Upload, UploadStep, MAX_UPLOAD_BYTES, READ_LIMIT,
};

fn request(post: bool, url: &str, body_length: Option<usize>) -> Request {
    Request {
        post,
        url: url.to_string(),
        body_length,
        headers: Vec::new(),
    }
}

fn header(field: &str, value: &str) -> Header {
    Header {
        field: field.to_string(),
        value: value.to_string(),
    }
}

#[test]
fn uploading_an_image_stores_it_and_returns_a_usable_id() {
    let mut store = ImageStore::with_dir("/state", Manifest::default());
    let mut upload = request(true, "/images", Some(14));
    upload.headers.push(header("Content-Type", "image/png"));

    assert!(check_request(&upload).is_ok());
    let content_type = content_type_of(&upload);
    assert!(check_body(Some(b"fake png bytes".len())).is_ok());
    let image = name_image(&content_type, 0xabc, 1).unwrap();
    let response = accept(&mut store, image, Ok(())).unwrap();

    assert!(!response.id.is_empty());
    assert_eq!(response.container, "image/png");
    assert!(response.url.starts_with("file://"));
    assert_eq!(response.url, "file:///state/images/abc-1.png");
    let path = store.path_for(&response.id).expect("stored id must resolve");
    assert_eq!(path, "/state/images/abc-1.png");
}

#[test]
fn non_image_content_type_is_rejected() {
    let refusal = name_image("text/plain", 1, 1).unwrap_err();
    assert_eq!(refusal.status, 400);
    assert_eq!(
        refusal.body,
        "upload content type \"text/plain\" is not an image/* MIME type"
    );
}

#[test]
fn wrong_method_or_path_is_not_found() {
    for wrong in [
        request(true, "/not-images", Some(1)),
        request(false, "/images", Some(1)),
        request(true, "/images/", Some(usize::MAX)),
    ] {
        let refusal = check_request(&wrong).unwrap_err();
        assert_eq!(refusal.status, 404);
        assert_eq!(refusal.body, "");
    }
}

#[test]
fn an_upload_over_the_limit_is_refused() {
    assert!(check_request(&request(true, "/images", Some(MAX_UPLOAD_BYTES))).is_ok());
    assert!(check_request(&request(true, "/images", None)).is_ok());
    let refusal = check_request(&request(true, "/images", Some(MAX_UPLOAD_BYTES + 1))).unwrap_err();
    assert_eq!(refusal.status, 413);
    assert_eq!(refusal.body, "upload too large");

    assert!(check_body(Some(MAX_UPLOAD_BYTES)).is_ok());
    let refusal = check_body(Some(READ_LIMIT)).unwrap_err();
    assert_eq!(refusal.status, 413);
    assert_eq!(MAX_UPLOAD_BYTES, 33_554_432);
}

#[test]
fn a_body_that_cannot_be_read_is_refused() {
    let refusal = check_body(None).unwrap_err();
    assert_eq!(refusal.status, 400);
    assert_eq!(refusal.body, "failed to read request body");
}

#[test]
fn an_image_that_cannot_be_written_is_not_stored() {
    let mut store = ImageStore::with_dir("/state", Manifest::default());
    let image = name_image("image/gif", 1, 1).unwrap();
    let refusal = accept(&mut store, image, Err("disk full".to_string())).unwrap_err();
    assert_eq!(refusal.status, 400);
    assert_eq!(refusal.body, "disk full");
    assert!(store.manifest.images.is_empty());
}

#[test]
fn a_file_that_is_no_image_is_not_stored() {
    let mut store = ImageStore::with_dir("/state", Manifest::default());
    let mut image = name_image("image/gif", 1, 1).unwrap();
    image.content_type = "text/plain".to_string();
    let refusal = accept(&mut store, image, Ok(())).unwrap_err();
    assert_eq!(refusal.status, 400);
    assert_eq!(
        refusal.body,
        "upload content type \"text/plain\" is not an image/* MIME type"
    );
    assert!(store.manifest.images.is_empty());
}

#[test]
fn the_content_type_header_is_found_in_any_case() {
    let mut upload = request(true, "/images", None);
    assert_eq!(content_type_of(&upload), "");
    upload.headers.push(header("Host", "x"));
    upload.headers.push(header("CONTENT-type", "image/webp"));
    upload.headers.push(header("content-type", "text/plain"));
    assert_eq!(content_type_of(&upload), "image/webp");
}

/// The status and the text of a refusal.
fn refused(step: UploadStep) -> (u16, String) {
    match step {
        UploadStep::Answer(answer) => {
            let status = answer.status();
            match answer {
                Answer::Refused(refusal) => {
                    assert_eq!(refusal.status, status);
                    (status, refusal.body)
                }
                other => panic!("unexpected: {other:?}"),
            }
        }
        other => panic!("unexpected: {other:?}"),
    }
}

fn upload_of(content_type: &str) -> Upload {
    let mut post = request(true, "/images", None);
    post.headers.push(header("content-type", content_type));
    let (upload, step) = Upload::begin(&post);
    assert!(matches!(step, UploadStep::ReadBody));
    upload
}

#[test]
fn an_upload_is_read_then_written_then_answered() {
    let mut store = ImageStore::with_dir("/state", Manifest::default());
    let mut upload = upload_of("IMAGE/JPEG; q=1");
    assert_eq!(upload.content_type, "IMAGE/JPEG; q=1");

    match upload.body_read(&store, Some(12), 0x1f, 16) {
        UploadStep::WriteFile(path) => assert_eq!(path, "/state/images/1f-10.jpg"),
        other => panic!("unexpected: {other:?}"),
    }
    assert!(store.manifest.images.is_empty(), "not before it is written");

    let answered = upload.file_written(&mut store, Ok(()));
    match &answered {
        UploadStep::Answer(answer) => assert_eq!(answer.status(), 200),
        other => panic!("unexpected: {other:?}"),
    }
    match answered {
        UploadStep::Answer(Answer::Stored(response)) => {
            assert_eq!(response.id, "1f-10");
            assert_eq!(response.url, "file:///state/images/1f-10.jpg");
            assert_eq!(response.container, "image/jpeg");
        }
        other => panic!("unexpected: {other:?}"),
    }
    assert_eq!(store.manifest.images.len(), 1);
    assert!(!store.manifest.images[0].wallpaper);
    assert!(upload.image.is_none());
}

#[test]
fn an_upload_is_refused_at_the_step_that_fails() {
    let mut store = ImageStore::with_dir("/state", Manifest::default());

    let (_, step) = Upload::begin(&request(false, "/images", None));
    assert_eq!(refused(step), (404, String::new()));
    let (_, step) = Upload::begin(&request(true, "/images", Some(READ_LIMIT)));
    assert_eq!(refused(step), (413, "upload too large".to_string()));

    let mut upload = upload_of("image/png");
    let step = upload.body_read(&store, None, 1, 1);
    assert_eq!(
        refused(step),
        (400, "failed to read request body".to_string())
    );
    let step = upload.body_read(&store, Some(READ_LIMIT), 1, 1);
    assert_eq!(refused(step), (413, "upload too large".to_string()));
    assert!(upload.image.is_none());

    let step = upload_of("a\"b").body_read(&store, Some(1), 1, 1);
    assert_eq!(
        refused(step),
        (
            400,
            "upload content type \"a\\\"b\" is not an image/* MIME type".to_string()
        )
    );

    assert!(matches!(
        upload.body_read(&store, Some(1), 1, 1),
        UploadStep::WriteFile(_)
    ));
    let step = upload.file_written(&mut store, Err("disk full".to_string()));
    assert_eq!(refused(step), (400, "disk full".to_string()));
    assert!(store.manifest.images.is_empty());
}
