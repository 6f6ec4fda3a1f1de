use shellcaster::text::char_substring;
use shellcaster::text::decimal_string;
use shellcaster::text::justify_right;
use shellcaster::types::format_duration;
use shellcaster::types::format_episode_title;
use shellcaster::types::format_podcast_title;
use shellcaster::types::Limit;
use shellcaster::types::StringUtils;

#[test]
fn substring_counts_characters() {
    assert_eq!("An episode with le Unicodé".substring(0, 25), "An episode with le Unicod");
    assert_eq!("An episode with le Unicodé".substring(0, 26), "An episode with le Unicodé");
    assert_eq!("An episode with le Unicodé".substring(25, 5), "é");
    assert_eq!("héllo".substring(1, 3), "éll");
    assert_eq!("héllo".to_string().substring(2, 100), "llo");
}

#[test]
fn substring_cuts_before_a_wide_character() {
    let title = "How does an episode with emoji sound? 😉";
    assert_eq!(title.substring(0, 38), "How does an episode with emoji sound? ");
    assert_eq!(title.substring(0, 39), title);
    assert_eq!(title.substring(38, 1), "😉");
}

#[test]
fn substring_beyond_the_end_is_empty() {
    assert_eq!("abc".substring(3, 2), "");
    assert_eq!("abc".substring(7, 2), "");
    assert_eq!("abc".substring(1, 0), "");
    assert_eq!("".substring(0, 4), "");
    assert_eq!("abc".substring(usize::MAX, usize::MAX), "");
    assert_eq!("abc".substring(1, usize::MAX), "bc");
    assert_eq!(char_substring("añb", 1, 1), "ñ");
}

#[test]
fn slice_by_limits() {
    let s = "héllo wörld";
    assert_eq!(s.slice(Limit::Included(1), Limit::Excluded(4)), "éll");
    assert_eq!(s.slice(Limit::Included(1), Limit::Included(4)), "éllo");
    assert_eq!(s.slice(Limit::Unbounded, Limit::Excluded(2)), "hé");
    assert_eq!(s.slice(Limit::Included(6), Limit::Unbounded), "wörld");
    assert_eq!(s.slice(Limit::Excluded(6), Limit::Unbounded), "wörld");
    assert_eq!(s.slice(Limit::Unbounded, Limit::Unbounded), s);
    assert_eq!(s.slice(Limit::Included(4), Limit::Excluded(2)), "");
    assert_eq!(s.slice(Limit::Included(0), Limit::Included(usize::MAX)), s);
    assert_eq!(s.to_string().slice(Limit::Included(0), Limit::Excluded(1)), "h");
}

#[test]
fn decimal_numbers() {
    assert_eq!(decimal_string(0), "0");
    assert_eq!(decimal_string(7), "7");
    assert_eq!(decimal_string(10), "10");
    assert_eq!(decimal_string(1234567890), "1234567890");
    assert_eq!(decimal_string(u64::MAX), "18446744073709551615");
}

#[test]
fn durations() {
    assert_eq!(format_duration(Some(12345)), "03:25:45");
    assert_eq!(format_duration(Some(0)), "00:00:00");
    assert_eq!(format_duration(Some(59)), "00:00:59");
    assert_eq!(format_duration(Some(3600)), "01:00:00");
    assert_eq!(format_duration(Some(360000)), "100:00:00");
    assert_eq!(format_duration(None), "--:--:--");
}

#[test]
fn negative_durations_keep_their_sign_in_each_part() {
    assert_eq!(format_duration(Some(-3661)), "-1:-1:-1");
    assert_eq!(format_duration(Some(-5)), "00:00:-5");
    assert_eq!(format_duration(Some(-45296)), "-12:-34:-56");
    assert_eq!(format_duration(Some(i64::MIN)), "-2562047788015215:-30:-8");
    assert_eq!(format_duration(Some(i64::MAX)), "2562047788015215:30:07");
}

#[test]
fn right_justified_lines() {
    assert_eq!(justify_right("abc", "[x]", 10), "abc    [x]");
    assert_eq!(justify_right("abcdefghij", "[x]", 10), "abcdef [x]");
    assert_eq!(justify_right("", "[x]", 4), " [x]");
    assert_eq!(justify_right("abc", "[x]", 3), "abc");
    assert_eq!(justify_right("abcdef", "[xyz]", 4), "abcd");
    assert_eq!(justify_right("abc", "", 5), "abc  ");
    assert_eq!(justify_right("abc", "[x]", 0), "");
}

#[test]
fn episode_title_by_width() {
    let title = "A Very Cool Episode";
    let date = Some("2020-01-02");
    assert_eq!(format_episode_title(title, false, date, Some(12345), 10), "A Very Coo");
    assert_eq!(format_episode_title(title, false, date, Some(12345), 45), title);
    assert_eq!(
        format_episode_title(title, false, date, Some(12345), 46),
        "A Very Cool Episode                 [03:25:45]"
    );
    assert_eq!(
        format_episode_title(title, false, date, Some(12345), 60),
        "A Very Cool Episode                               [03:25:45]"
    );
    assert_eq!(
        format_episode_title(title, false, date, Some(12345), 61),
        "A Very Cool Episode                   (2020-01-02) [03:25:45]"
    );
    assert_eq!(
        format_episode_title(title, false, None, None, 61),
        "A Very Cool Episode                                [--:--:--]"
    );
}

#[test]
fn episode_title_is_cut_to_leave_room() {
    let title = "This is a very long episode title but we'll get through it together";
    let out = format_episode_title(title, false, Some("2020-01-02"), Some(12345), 65);
    assert_eq!(out, "This is a very long episode title but we' (2020-01-02) [03:25:45]");
    assert_eq!(out.chars().count(), 65);
    let out = format_episode_title(title, false, None, Some(12345), 50);
    assert_eq!(out, "This is a very long episode title but w [03:25:45]");
}

#[test]
fn episode_title_marks_a_download() {
    assert_eq!(format_episode_title("Title", true, None, None, 20), "[D] Title");
    assert_eq!(format_episode_title("Title", true, None, None, 6), "[D] Ti");
    assert_eq!(format_episode_title("Title", true, None, None, 4), "[D] ");
    assert_eq!(format_episode_title("Title", true, None, None, 2), "[D");
    assert_eq!(format_episode_title("Title", true, None, None, 0), "");
    assert_eq!(
        format_episode_title("Title", true, None, Some(60), 46),
        "[D] Title                           [00:01:00]"
    );
}

#[test]
fn episode_title_without_room_for_metadata() {
    let long_date = "a date that is much too long to fit into a line of this width at all";
    let out = format_episode_title("Title", false, Some(long_date), Some(1), 61);
    assert_eq!(out, "Title");
    let out = format_episode_title("A title of some length", false, Some(long_date), Some(1), 61);
    assert_eq!(out, "A title of some length");
}

#[test]
fn podcast_title_by_width() {
    assert_eq!(format_podcast_title("My Podcast", 2, 3, 8), "My Podca");
    assert_eq!(format_podcast_title("My Podcast", 2, 3, 25), "My Podcast");
    assert_eq!(format_podcast_title("My Podcast", 2, 3, 26), "My Podcast           (2/3)");
    assert_eq!(format_podcast_title("My Podcast", 0, 0, 26), "My Podcast           (0/0)");
    assert_eq!(
        format_podcast_title("A podcast with quite a long title", 12, 345, 30),
        "A podcast with quite  (12/345)"
    );
}

#[test]
fn podcast_title_without_room_for_counts() {
    let out = format_podcast_title("Title", usize::MAX, usize::MAX, 26);
    assert_eq!(out, "Title");
    let out = format_podcast_title("A podcast with quite a long title", usize::MAX, usize::MAX, 26);
    assert_eq!(out, "A podcast with quite a lon");
}
