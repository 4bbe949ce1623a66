use subhash::error::Error;
use subhash::target::{calc_target_path, calc_video_path, push_decimal, target_file_name, SubInfo};

fn sub(surl: &str, language: &str) -> SubInfo {
    SubInfo { surl: surl.to_string(), language: language.to_string() }
}

#[test]
fn target_path_scenario() {
    let r = calc_target_path("/movies/Foo.Bar.2020.mkv", 0, &sub("https://x.test/a/b.srt", "en"));
    assert_eq!(r, Ok("/movies/Foo.Bar.2020_0_en.srt".to_string()));
}

#[test]
fn extension_ignores_query() {
    let r = calc_target_path("/v/m.mkv", 1, &sub("https://x.test/subs/movie.en.vtt?sig=1", "fr"));
    assert_eq!(r, Ok("/v/m_1_fr.vtt".to_string()));
    let r = calc_target_path("/v/m.mkv", 1, &sub("https://x.test/subs/movie.ass#frag", "fr"));
    assert_eq!(r, Ok("/v/m_1_fr.ass".to_string()));
}

#[test]
fn missing_extension_defaults_to_srt() {
    let r = calc_target_path("/v/m.mkv", 2, &sub("https://x.test/subs/movie", "de"));
    assert_eq!(r, Ok("/v/m_2_de.srt".to_string()));
}

#[test]
fn index_changes_only_its_segment() {
    let s = sub("https://x.test/a/b.srt", "en");
    assert_eq!(calc_target_path("/m/x.mkv", 7, &s), Ok("/m/x_7_en.srt".to_string()));
    assert_eq!(calc_target_path("/m/x.mkv", 12, &s), Ok("/m/x_12_en.srt".to_string()));
    assert_eq!(calc_target_path("/m/x.mkv", 12, &s), calc_target_path("/m/x.mkv", 12, &s));
}

#[test]
fn language_changes_only_its_segment() {
    let a = calc_target_path("/m/x.mkv", 3, &sub("https://x.test/a/b.srt", "en"));
    let b = calc_target_path("/m/x.mkv", 3, &sub("https://x.test/a/b.srt", "pt-BR"));
    assert_eq!(a, Ok("/m/x_3_en.srt".to_string()));
    assert_eq!(b, Ok("/m/x_3_pt-BR.srt".to_string()));
}

#[test]
fn malformed_url_is_rejected() {
    assert_eq!(calc_target_path("/m/x.mkv", 0, &sub("not a url", "en")), Err(Error::UrlParse));
    assert_eq!(calc_target_path("/m/x.mkv", 0, &sub("", "en")), Err(Error::UrlParse));
}

#[test]
fn path_without_parent_or_stem_is_rejected() {
    let s = sub("https://x.test/a/b.srt", "en");
    assert_eq!(calc_target_path("/", 0, &s), Err(Error::InvariantViolation));
    assert_eq!(calc_target_path("", 0, &s), Err(Error::InvariantViolation));
    assert_eq!(calc_target_path("/m/..", 0, &s), Err(Error::InvariantViolation));
}

#[test]
fn file_name_format() {
    assert_eq!(target_file_name("Foo", 0, "en", None), "Foo_0_en.srt");
    assert_eq!(target_file_name("Foo", 42, "en", Some("vtt".to_string())), "Foo_42_en.vtt");
    assert_eq!(target_file_name("", 5, "", Some(String::new())), "_5_.");
}

#[test]
fn decimal_notation() {
    for n in [0usize, 9, 10, 99, 100, 1234567890, usize::MAX] {
        let mut s = String::from("#");
        push_decimal(n, &mut s);
        assert_eq!(s, format!("#{}", n));
    }
}

#[test]
fn absolute_path_is_kept() {
    assert_eq!(calc_video_path("/a/b.mkv", None), Ok("/a/b.mkv".to_string()));
    assert_eq!(calc_video_path("/a/b.mkv", Some("/w".to_string())), Ok("/a/b.mkv".to_string()));
}

#[test]
fn relative_path_joins_working_dir() {
    assert_eq!(calc_video_path("a/b.mkv", Some("/w".to_string())), Ok("/w/a/b.mkv".to_string()));
    assert_eq!(calc_video_path("a/b.mkv", None), Err(Error::PathResolution));
}
