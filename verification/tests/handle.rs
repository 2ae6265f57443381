use audio_ext::ffmpeg::FFmpeg;
use audio_ext::handle::AudioPlayerHandle;
use audio_ext::headers::HttpHeaders;
use audio_ext::play::{PlayAction, PlayEvent, PlayPlan};
use audio_ext::player::PlayerStatus;
use audio_ext::source::{lookup_args, needs_lookup, playable, resolve, Source, VideoInfo};

const OUTPUT: [&str; 11] = [
    "-ss", "0", "-acodec", "pcm_s16le", "-ac", "1", "-ar", "22050", "-f", "s16le", "-",
];

fn with_output(front: &[&str]) -> Vec<String> {
    front.iter().chain(OUTPUT.iter()).map(|s| s.to_string()).collect()
}

#[test]
fn only_web_addresses_are_looked_up() {
    assert!(needs_lookup("http://a/b"));
    assert!(needs_lookup("https://a/b"));
    assert!(needs_lookup("http://"));
    assert!(!needs_lookup("http:/"));
    assert!(!needs_lookup("HTTP://a"));
    assert!(!needs_lookup(" http://a"));
    assert!(!needs_lookup("ftp://a"));
    assert!(!needs_lookup("/music/\u{e9}.mp3"));
    assert!(!needs_lookup(""));
}

#[test]
fn lookup_command() {
    assert_eq!(
        lookup_args("https://x"),
        vec!["--socket-timeout", "5", "-f", "bestaudio/worst", "-J", "https://x"]
    );
}

#[test]
fn headers_are_sorted_and_replaced() {
    let mut headers = HttpHeaders::new();
    assert_eq!(headers.render(), "");
    headers.insert("User-Agent".to_string(), Some("x".to_string()));
    headers.insert("Accept".to_string(), None);
    headers.insert("User".to_string(), Some("u".to_string()));
    headers.insert("User-Agent".to_string(), Some("y".to_string()));
    assert_eq!(headers.render(), "Accept: \r\nUser: u\r\nUser-Agent: y\r\n");
}

#[test]
fn header_order_does_not_matter() {
    let names = ["b", "B", "\u{e9}", "", "ab", "a"];
    let mut forth = HttpHeaders::new();
    let mut back = HttpHeaders::new();
    for name in names.iter() {
        forth.insert(name.to_string(), Some(name.to_uppercase()));
    }
    for name in names.iter().rev() {
        back.insert(name.to_string(), Some(name.to_uppercase()));
    }
    assert_eq!(forth.render(), back.render());
    assert_eq!(
        forth.render(),
        ": \r\nB: B\r\na: A\r\nab: AB\r\nb: B\r\n\u{e9}: \u{c9}\r\n"
    );
}

#[test]
fn page_is_resolved() {
    let json = br#"{"_type": "video", "url": "https://cdn/x",
        "http_headers": {"User-Agent": "q", "Accept": "*/*", "Odd": 3, "None": null}}"#;
    let source = resolve(json).unwrap();
    assert_eq!(source.url, "https://cdn/x");
    assert_eq!(
        source.headers.render(),
        "Accept: */*\r\nNone: \r\nOdd: \r\nUser-Agent: q\r\n"
    );
}

#[test]
fn page_without_headers_is_resolved() {
    let source = resolve("{\"url\": \"u\u{e9}\"}".as_bytes()).unwrap();
    assert_eq!(source.url, "u\u{e9}");
    assert_eq!(source.headers.render(), "");
    let source = resolve(br#"{"url": "u", "http_headers": ["a"]}"#).unwrap();
    assert_eq!(source.headers.render(), "");
}

#[test]
fn later_member_wins() {
    let source = resolve(br#"{"url": "a", "url": "b"}"#).unwrap();
    assert_eq!(source.url, "b");
}

#[test]
fn unplayable_output_is_refused() {
    assert!(resolve(b"").is_none());
    assert!(resolve(b"not json").is_none());
    assert!(resolve(b"[]").is_none());
    assert!(resolve(b"null").is_none());
    assert!(resolve(br#"{"_type": "playlist", "url": "u"}"#).is_none());
    assert!(resolve(br#"{"_type": "video"}"#).is_none());
    assert!(resolve(br#"{"url": 5}"#).is_none());
    assert!(resolve(br#"{"url": null}"#).is_none());
    assert!(resolve(br#"{"url": "u"} trailing"#).is_none());
}

#[test]
fn other_types_are_played() {
    assert!(resolve(br#"{"_type": "Playlist", "url": "u"}"#).is_some());
    assert!(resolve(br#"{"_type": ["playlist"], "url": "u"}"#).is_some());
}

#[test]
fn lists_and_pages_without_address_are_not_playable() {
    let info = |playlist: bool, url: Option<&str>| VideoInfo {
        playlist,
        url: url.map(|s| s.to_string()),
        headers: HttpHeaders::new(),
    };
    assert!(playable(info(true, Some("u"))).is_none());
    assert!(playable(info(true, None)).is_none());
    assert!(playable(info(false, None)).is_none());
    assert_eq!(playable(info(false, Some("u"))).unwrap().url, "u");
}

#[test]
fn decoder_command_order() {
    let mut ffmpeg = FFmpeg::new();
    ffmpeg.arg("-vn");
    ffmpeg.in_arg("-re");
    ffmpeg.arg("-af");
    ffmpeg.in_arg("-x");
    ffmpeg.ss("12.5");
    assert_eq!(
        ffmpeg.start("a.mp3"),
        vec![
            "-re", "-x", "-i", "a.mp3", "-vn", "-af", "-ss", "12.5", "-acodec", "pcm_s16le", "-ac",
            "1", "-ar", "22050", "-f", "s16le", "-"
        ]
    );
}

#[test]
fn local_file_is_played_as_given() {
    let mut handle = AudioPlayerHandle::new();
    assert_eq!(handle.slot(), None);
    assert_eq!(handle.client_index(), 0);
    handle.add_input_arg("-re");
    handle.add_arg("-vn");
    let task = handle.play(4, "a.mp3");
    assert_eq!(handle.slot(), Some(4));
    assert_eq!(handle.client_index(), 5);
    assert_eq!(task.slot(), 4);
    assert!(task.lookup().is_none());
    assert_eq!(
        task.command(None).unwrap(),
        with_output(&["-re", "-i", "a.mp3", "-vn"])
    );
}

#[test]
fn page_is_played_with_its_headers() {
    let mut handle = AudioPlayerHandle::new();
    handle.add_input_arg("-re");
    let task = handle.play(0, "https://page");
    assert_eq!(task.lookup().unwrap(), lookup_args("https://page"));
    let output = br#"{"url": "https://cdn", "http_headers": {"A": "b"}}"#;
    assert_eq!(
        task.command(Some(&output[..])).unwrap(),
        with_output(&["-re", "-headers", "A: b\r\n", "-i", "https://cdn"])
    );
}

#[test]
fn page_that_is_not_looked_up_is_played_as_given() {
    let mut handle = AudioPlayerHandle::new();
    let task = handle.play(0, "https://page");
    assert_eq!(
        task.command(None).unwrap(),
        with_output(&["-i", "https://page"])
    );
}

#[test]
fn page_without_sound_is_not_played() {
    let mut handle = AudioPlayerHandle::new();
    let task = handle.play(0, "https://page");
    assert!(task.command(Some(&b"{}"[..])).is_none());
}

#[test]
fn found_source_decides_the_command() {
    let mut headers = HttpHeaders::new();
    headers.insert("K".to_string(), None);
    let mut handle = AudioPlayerHandle::new();
    let task = handle.play(0, "https://page");
    let found = Source { url: "u".to_string(), headers };
    assert_eq!(
        task.command_for(Some(found)).unwrap(),
        with_output(&["-headers", "K: \r\n", "-i", "u"])
    );
}

#[test]
fn player_plays_once() {
    let mut handle = AudioPlayerHandle::new();
    let first = handle.play(1, "a.mp3");
    handle.add_arg("late");
    handle.add_input_arg("late");
    handle.set_from("9");
    let second = handle.play(2, "b.mp3");
    assert_eq!(first.command(None).unwrap(), with_output(&["-i", "a.mp3"]));
    assert!(second.command(None).is_none());
    assert_eq!(handle.client_index(), 3);
}

#[test]
fn start_position_is_set() {
    let mut handle = AudioPlayerHandle::new();
    handle.set_from("1.25");
    let args = handle.play(1, "a.mp3").command(None).unwrap();
    assert_eq!(&args[2..4], &["-ss".to_string(), "1.25".to_string()]);
}

#[test]
fn progress_is_reported() {
    let handle = AudioPlayerHandle::new();
    assert_eq!(handle.played_bytes(None), 0);
    assert!(!handle.finished(None));
    let status = PlayerStatus { read_size: 44100, finished: true };
    assert_eq!(handle.played_bytes(Some(status)), 44100);
    assert!(handle.finished(Some(status)));
}

fn plan(uri: &str) -> PlayPlan {
    PlayPlan::new(AudioPlayerHandle::new().play(4, uri))
}

fn started(action: PlayAction) -> Vec<String> {
    match action {
        PlayAction::Start(args) => args,
        _ => panic!("the decoder is not started"),
    }
}

fn reported(action: PlayAction) -> String {
    match action {
        PlayAction::Report(message) => message,
        _ => panic!("no error is reported"),
    }
}

#[test]
fn started_file_is_attached() {
    let mut plan = plan("a.mp3");
    assert_eq!(started(plan.next(PlayEvent::Begun)), with_output(&["-i", "a.mp3"]));
    assert!(matches!(plan.next(PlayEvent::Started), PlayAction::Attach(4)));
    assert!(matches!(plan.next(PlayEvent::Attached), PlayAction::Done));
}

#[test]
fn failed_start_is_reported_and_attaches_nothing() {
    let mut handle = AudioPlayerHandle::new();
    let mut plan = PlayPlan::new(handle.play(4, "a.mp3"));
    started(plan.next(PlayEvent::Begun));
    let failed = PlayEvent::StartFailed("no such file".to_string());
    assert_eq!(reported(plan.next(failed)), "Play error: no such file");
    assert!(matches!(plan.next(PlayEvent::Reported), PlayAction::Done));
    assert!(!handle.finished(None));
    assert_eq!(handle.played_bytes(None), 0);
}

#[test]
fn refused_player_is_reported() {
    let mut plan = plan("a.mp3");
    started(plan.next(PlayEvent::Begun));
    assert!(matches!(plan.next(PlayEvent::Started), PlayAction::Attach(4)));
    let refused = PlayEvent::AttachFailed("Out of slot: 4".to_string());
    assert_eq!(reported(plan.next(refused)), "Out of slot: 4");
    assert!(matches!(plan.next(PlayEvent::Reported), PlayAction::Done));
}

#[test]
fn page_is_looked_up_first() {
    let mut plan = plan("https://page");
    match plan.next(PlayEvent::Begun) {
        PlayAction::LookUp(args) => assert_eq!(args, lookup_args("https://page")),
        _ => panic!("the page is not looked up"),
    }
    let output = br#"{"url": "u", "http_headers": {"A": "b"}}"#.to_vec();
    assert_eq!(
        started(plan.next(PlayEvent::LookedUp(Some(output)))),
        with_output(&["-headers", "A: b\r\n", "-i", "u"])
    );
}

#[test]
fn page_with_nothing_to_play_is_given_up() {
    for output in ["", "{}", r#"{"_type": "playlist", "url": "u"}"#] {
        let mut plan = plan("https://page");
        assert!(matches!(plan.next(PlayEvent::Begun), PlayAction::LookUp(_)));
        let found = PlayEvent::LookedUp(Some(output.as_bytes().to_vec()));
        assert!(matches!(plan.next(found), PlayAction::Done));
    }
}

#[test]
fn page_is_played_as_given_without_the_helper() {
    let mut plan = plan("http://page");
    assert!(matches!(plan.next(PlayEvent::Begun), PlayAction::LookUp(_)));
    assert_eq!(
        started(plan.next(PlayEvent::LookedUp(None))),
        with_output(&["-i", "http://page"])
    );
}

#[test]
fn second_play_starts_no_decoder() {
    let mut handle = AudioPlayerHandle::new();
    let _first = handle.play(4, "a.mp3");
    let mut second = PlayPlan::new(handle.play(5, "b.mp3"));
    assert!(matches!(second.next(PlayEvent::Begun), PlayAction::Done));
}
