use glmeter::clock::{floor_div, modulo, ms_to_local, LocalTime, Pause, MAX_SECS, MIN_SECS};
use glmeter::config::Config;
use glmeter::icon::{argb_icon, argb_of, can_be_square, icon_rgba, square_of, tray_icon, RgbaImage};
use glmeter::text::{
    chars_of, cut, is_text_before, join, number_text, push_number, push_run, push_two_digits, replace_all, same_text,
    text_of_range, trim, trim_end_char, wrap,
};

fn at(secs: i64, nanos: u32) -> LocalTime {
    LocalTime { secs, nanos, offset: 3_600 }
}

#[test]
fn numbers_are_written() {
    assert_eq!(number_text(i64::MIN), "-9223372036854775808");
    assert_eq!(number_text(0), "0");
    let mut t = "a".to_string();
    push_number(&mut t, -120);
    push_two_digits(&mut t, 7);
    push_two_digits(&mut t, 123);
    push_run(&mut t, '░', 2);
    assert_eq!(t, "a-12007123░░");
}

#[test]
fn texts_are_cut_and_joined() {
    assert_eq!(trim(" \u{3000}\ta b\n"), "a b");
    assert_eq!(trim(" \n"), "");
    assert_eq!(trim_end_char("a//b//", '/'), "a//b");
    assert_eq!(cut("额度abc", 3), "额度a");
    assert_eq!(cut("ab", 9), "ab");
    assert_eq!(replace_all("aaa", "aa", "b"), "ba");
    assert_eq!(join(&vec!["a".to_string(), "b".to_string()], ", "), "a, b");
    assert_eq!(join(&vec![], ", "), "");
    assert_eq!(wrap("abcde", 2), vec!["ab", "cd", "e"]);
    assert_eq!(wrap("abcd", 2), vec!["ab", "cd"]);
    assert_eq!(wrap("", 2), vec!["(空)"]);
    assert_eq!(chars_of("额a"), vec!['额', 'a']);
    assert_eq!(text_of_range(&vec!['a', 'b', 'c'], 1, 2), "b");
    assert!(same_text("额", "额") && !same_text("a", "A"));
}

#[test]
fn texts_are_ordered() {
    let list = ["", "2026-10-01 23:59:59", "2026-10-18", "a", "ab", "é", "额", "\u{ffff}", "\u{10000}"];
    for a in list {
        for b in list {
            assert_eq!(is_text_before(a, b), a < b);
        }
    }
}

#[test]
fn addresses() {
    let cfg = Config { base_url: "https://api.z.ai//".to_string(), ..Config::default() };
    assert_eq!(cfg.monitor_url(), "https://api.z.ai/api/monitor/usage/quota/limit");
    assert_eq!(cfg.chat_url(), "https://api.z.ai/api/coding/paas/v4/chat/completions");
    assert_eq!(
        cfg.reset_list_url(),
        "https://api.z.ai/api/biz/customer-package-reset/list?targetType=PERSONAL"
    );
    assert_eq!(cfg.reset_use_url(), "https://api.z.ai/api/biz/customer-package-reset/use");
}

#[test]
fn settings_in_force() {
    let d = Config::default();
    assert_eq!(d.base_url, "https://open.bigmodel.cn");
    assert_eq!((d.model.as_str(), d.max_tokens, d.interval_secs), ("glm-5.2", 8, 300));
    assert!(!d.configured());
    let file = Config { api_key: " k ".to_string(), model: "m".to_string(), ..Config::default() };
    let c = Config::in_force(Some(file.clone()), Some(" \t".to_string()), None);
    assert_eq!((c.api_key.as_str(), c.model.as_str(), c.bearer_key().as_str()), (" k ", "m", "k"));
    assert!(c.configured());
    let c = Config::in_force(Some(file), Some(" e ".to_string()), Some("u ".to_string()));
    assert_eq!((c.api_key.as_str(), c.base_url.as_str(), c.model.as_str()), ("e", "u", "m"));
    let c = Config::in_force(None, None, Some("".to_string()));
    assert_eq!((c.api_key.as_str(), c.base_url.as_str()), ("", "https://open.bigmodel.cn"));
}

#[test]
fn milliseconds_become_times() {
    let t = ms_to_local(-1).unwrap();
    assert_eq!((t.secs, t.nanos), (-1, 999_000_000));
    let t = ms_to_local(1_767_225_600_123).unwrap();
    assert_eq!((t.secs, t.nanos), (1_767_225_600, 123_000_000));
    assert!(ms_to_local(MAX_SECS * 1000 + 999).is_some());
    assert!(ms_to_local((MAX_SECS + 1) * 1000).is_none());
    assert!(ms_to_local(MIN_SECS * 1000).is_some());
    assert!(ms_to_local(MIN_SECS * 1000 - 1).is_none());
}

#[test]
fn times_are_compared_and_counted() {
    assert!(at(5, 1).is_later(&at(5, 0)) && !at(5, 1).is_later(&at(5, 1)) && at(6, 0).is_later(&at(5, 9)));
    assert_eq!(at(10, 0).seconds_from(&at(8, 1)), 1);
    assert_eq!(at(8, 1).seconds_from(&at(10, 0)), -1);
    assert_eq!(at(-119, 0).minutes_from(&at(0, 0)), -1);
    assert_eq!(at(119, 0).minutes_from(&at(0, 0)), 1);
    assert_eq!(at(1, 0).nanos_from(&at(0, 1)), 999_999_999);
    let t = at(100, 7).plus_seconds(60);
    assert_eq!((t.secs, t.nanos), (160, 7));
    assert_eq!(at(82_800, 0).day(), 1);
    assert_eq!(at(-3_601, 0).day(), -1);
    let p = Pause { secs: 1, nanos: 0 };
    assert_eq!(at(5, 0).wait_from(&at(3, 1), p), Pause { secs: 1, nanos: 999_999_999 });
    assert_eq!(at(5, 0).wait_from(&at(5, 0), p), Pause { secs: 0, nanos: 0 });
    assert_eq!(at(5, 0).wait_from(&at(5, 1), p), p);
    assert_eq!((floor_div(-1, 60), modulo(-1, 60)), (-1, 59));
    let now = LocalTime::now();
    assert!(now.is_dated() && now.secs > 1_700_000_000 && now.nanos < 1_000_000_000);
    assert!(at(MAX_SECS, 0).is_valid() && !at(MAX_SECS, 0).is_dated() && at(MAX_SECS - 3_600, 0).is_dated());
    assert!(!at(MAX_SECS + 1, 0).is_valid() && !at(0, 2_000_000_000).is_valid());
}

#[test]
fn leap_seconds_are_counted() {
    let leap = LocalTime { secs: 86_399, nanos: 1_500_000_000, offset: 0 };
    assert_eq!(at(86_400, 0).nanos_from(&leap), -500_000_000);
    assert_eq!(leap.nanos_from(&at(86_399, 0)), 1_500_000_000);
    let t = leap.plus_seconds(1);
    assert_eq!((t.secs, t.nanos), (86_400, 500_000_000));
}

fn png(width: u32, height: u32) -> Vec<u8> {
    let picture = image::RgbaImage::from_fn(width, height, |x, y| image::Rgba([x as u8, y as u8, 30, 200]));
    let mut bytes = std::io::Cursor::new(Vec::new());
    picture.write_to(&mut bytes, image::ImageFormat::Png).unwrap();
    bytes.into_inner()
}

#[test]
fn pictures_are_scaled() {
    let same = icon_rgba(&png(4, 4), 4).unwrap();
    assert_eq!((same.width, same.height), (4, 4));
    assert_eq!(&same.data[20..24], &[1, 1, 30, 200]);
    let grown = icon_rgba(&png(3, 5), 16).unwrap();
    assert_eq!((grown.width, grown.height, grown.data.len()), (16, 16, 1024));
    assert!(icon_rgba(&vec![1, 2, 3], 16).is_none());
    let icon = tray_icon(&png(64, 64)).unwrap();
    assert_eq!((icon.width, icon.height, icon.data.len()), (64, 64, 16_384));
    assert_eq!(&icon.data[4 * 65..4 * 66], &[200, 1, 1, 30]);
    assert!(tray_icon(&vec![]).is_none());
    assert_eq!(icon_rgba(&png(2, 2), 0).unwrap().data.len(), 0);
}

#[test]
fn without_the_signature_there_is_no_picture() {
    let mut bytes = png(4, 4);
    assert_eq!(&bytes[..8], &[137, 80, 78, 71, 13, 10, 26, 10]);
    assert!(icon_rgba(&bytes, 4).is_some());
    bytes[7] = 11;
    assert!(icon_rgba(&bytes, 4).is_none());
    assert!(tray_icon(&bytes).is_none());
}

#[test]
fn pixels_become_a_square_and_an_icon() {
    let square = square_of(Some(vec![1, 2, 3, 4]), 1);
    assert_eq!(square.as_ref().map(|i| (i.width, i.height)), Some((1, 1)));
    assert_eq!(argb_of(&square).unwrap().data, vec![4, 1, 2, 3]);
    assert!(square_of(None, 1).is_none());
    assert!(can_be_square(0) && can_be_square(64) && can_be_square(4096) && !can_be_square(u32::MAX));
    assert!(argb_of(&None).is_none());
}

#[test]
fn alpha_goes_in_front() {
    let image = RgbaImage { width: 2, height: 1, data: vec![1, 2, 3, 4, 5, 6, 7, 8] };
    let icon = argb_icon(&image);
    assert_eq!(icon.data, vec![4, 1, 2, 3, 8, 5, 6, 7]);
    assert_eq!((icon.width, icon.height), (2, 1));
}
