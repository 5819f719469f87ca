use castoff::fcast::Real;
use castoff::metadata::{
    described, fetch_metadata, is_youtube_url, ytdlp_args, ytdlp_program, Lookup, ToolOutput,
};

#[test]
fn recognizes_youtube_urls_regardless_of_host_variant() {
    for url in [
        "https://www.youtube.com/watch?v=jNQXAC9IVRw",
        "https://youtube.com/watch?v=jNQXAC9IVRw",
        "https://m.youtube.com/watch?v=jNQXAC9IVRw",
        "https://music.youtube.com/watch?v=jNQXAC9IVRw",
        "https://youtu.be/jNQXAC9IVRw",
        "http://www.youtube.com/watch?v=jNQXAC9IVRw",
        "https://WWW.YOUTUBE.COM/watch?v=jNQXAC9IVRw",
    ] {
        assert!(is_youtube_url(url), "{url:?} must be recognized as YouTube");
    }
}

#[test]
fn does_not_recognize_non_youtube_urls() {
    for url in [
        "https://jellyfin.example.invalid/stream/1",
        "file:///media/movie.mkv",
        "https://example.invalid/watch?v=jNQXAC9IVRw",
        "https://notyoutube.com/watch?v=jNQXAC9IVRw",
        "not a url",
    ] {
        assert!(
            !is_youtube_url(url),
            "{url:?} must not be recognized as YouTube"
        );
    }
}

#[test]
fn only_the_host_of_a_url_counts() {
    assert!(is_youtube_url("https://youtube.com"));
    assert!(is_youtube_url("https://youtube.com:443/watch"));
    assert!(is_youtube_url("https://youtube.com?v=1"));
    assert!(is_youtube_url("https://youtube.com#t"));
    assert!(!is_youtube_url("https://example.invalid/youtube.com"));
    assert!(!is_youtube_url("https://www.www.youtube.com/"));
    assert!(!is_youtube_url("https://"));
    assert!(!is_youtube_url("HTTPS://youtube.com/"));
}

#[test]
fn the_lookup_program_can_be_set() {
    assert_eq!(ytdlp_program(None), "yt-dlp");
    assert_eq!(ytdlp_program(Some("/opt/yt".to_string())), "/opt/yt");
    assert_eq!(
        ytdlp_args("https://youtu.be/x"),
        vec![
            "-j",
            "--no-playlist",
            "--no-warnings",
            "--skip-download",
            "https://youtu.be/x"
        ]
    );
}

#[test]
fn a_printed_description_is_found() {
    let output = ToolOutput::Printed(
        b"{\"id\":\"x\",\"title\":\"Me at the zoo\",\"duration\":19.5}".to_vec(),
    );
    match fetch_metadata(&output) {
        Lookup::Found(video) => {
            assert_eq!(video.title, "Me at the zoo");
            assert_eq!(
                video.duration_secs,
                Real {
                    bits: 19.5f64.to_bits()
                }
            );
        }
        other => panic!("unexpected outcome: {other:?}"),
    }
}

#[test]
fn a_whole_number_is_a_length_too() {
    let output = ToolOutput::Printed(b"{\"title\":\"t\",\"duration\":19}".to_vec());
    match fetch_metadata(&output) {
        Lookup::Found(video) => assert_eq!(f64::from_bits(video.duration_secs.bits), 19.0),
        other => panic!("unexpected outcome: {other:?}"),
    }
}

#[test]
fn an_incomplete_description_is_no_error() {
    for text in [
        "{}",
        "{\"title\":\"t\"}",
        "{\"duration\":19}",
        "{\"title\":3,\"duration\":19}",
        "{\"title\":\"t\",\"duration\":\"19\"}",
        "[1,2]",
        "null",
    ] {
        let output = ToolOutput::Printed(text.as_bytes().to_vec());
        assert!(
            matches!(fetch_metadata(&output), Lookup::Incomplete),
            "{text}"
        );
    }
}

#[test]
fn a_failed_lookup_says_how_it_failed() {
    assert!(matches!(fetch_metadata(&ToolOutput::NotRun), Lookup::NotRun));
    assert!(matches!(fetch_metadata(&ToolOutput::Failed), Lookup::Failed));
    let garbage = ToolOutput::Printed(b"ERROR: private video".to_vec());
    assert!(matches!(fetch_metadata(&garbage), Lookup::Unparsable));
}

#[test]
fn a_description_needs_both_a_title_and_a_length() {
    assert!(matches!(described(None, None), Lookup::Incomplete));
    assert!(matches!(described(Some("t"), None), Lookup::Incomplete));
    assert!(matches!(described(None, Some(1)), Lookup::Incomplete));
    match described(Some("t"), Some(1)) {
        Lookup::Found(video) => {
            assert_eq!(video.title, "t");
            assert_eq!(video.duration_secs.bits, 1);
        }
        other => panic!("unexpected outcome: {other:?}"),
    }
}
