use imgdups::detect::{adjacent_duplicates, detect, sort_by_created};
use imgdups::record::{Aperture, Exposure, ImgRef};
use imgdups::report::render_report;
use imgdups::timestamp::Timestamp;
use imgdups::walk::{is_jpg_name, Entry, Step, Walker};

fn record(path: &str, created: &str, width: i32, height: i32, exposure: (i32, i32), fnumber: f64) -> ImgRef {
    ImgRef::from_metadata(
        path.to_string(),
        Some(created),
        width,
        height,
        Some(Exposure { numer: exposure.0, denom: exposure.1 }),
        Some(Aperture { bits: fnumber.to_bits() }),
    )
}

fn at(path: &str, millis: i64) -> ImgRef {
    let mut r = ImgRef::from_metadata(path.to_string(), None, 10, 10, None, None);
    r.created = Timestamp { millis };
    r
}

fn paths(v: &Vec<ImgRef>) -> Vec<String> {
    v.iter().map(|r| r.path_string.clone()).collect()
}

#[test]
fn timestamp_reads_exif_layout() {
    assert_eq!(Timestamp::from_string("2001:02:03 04:05:06").millis, 981_173_106_000);
    assert_eq!(Timestamp::from_string("1970:01:01 00:00:01").millis, 1_000);
    assert_eq!(Timestamp::from_string("1969:12:31 23:59:59").millis, -1_000);
}

#[test]
fn timestamp_falls_back_to_epoch() {
    assert_eq!(Timestamp::from_string("1970:01:01 00:00:00").millis, 0);
    assert_eq!(Timestamp::from_string("not a date").millis, 0);
    assert_eq!(Timestamp::from_string("2001-02-03 04:05:06").millis, 0);
    assert_eq!(Timestamp::from_string("2001:13:03 04:05:06").millis, 0);
    assert_eq!(Timestamp::from_string("").millis, 0);
    assert!(Timestamp::from_string("garbage") == Timestamp::epoch());
}

#[test]
fn timestamp_from_parse_outcome() {
    assert_eq!(Timestamp::from_parsed(Some(42)).millis, 42);
    assert_eq!(Timestamp::from_parsed(None).millis, 0);
}

#[test]
fn missing_metadata_takes_defaults() {
    let r = ImgRef::from_metadata("a.jpg".to_string(), None, 0, 0, None, None);
    assert_eq!(r.created.millis, 0);
    assert_eq!(r.exposure_time.numer, 0);
    assert_eq!(r.exposure_time.denom, 1);
    assert_eq!(r.fnumber.bits, 0);
    assert_eq!(r.path_string, "a.jpg");
}

#[test]
fn equality_ignores_path() {
    let a = record("a.jpg", "2001:02:03 04:05:06", 640, 480, (1, 100), 2.8);
    let b = record("b.jpg", "2001:02:03 04:05:06", 640, 480, (1, 100), 2.8);
    assert!(a == b);
    assert!(b == a);
    assert!(a == a);
}

#[test]
fn equality_compares_each_attribute() {
    let a = record("a.jpg", "2001:02:03 04:05:06", 640, 480, (1, 100), 2.8);
    assert!(a != record("a.jpg", "2001:02:03 04:05:07", 640, 480, (1, 100), 2.8));
    assert!(a != record("a.jpg", "2001:02:03 04:05:06", 641, 480, (1, 100), 2.8));
    assert!(a != record("a.jpg", "2001:02:03 04:05:06", 640, 481, (1, 100), 2.8));
    assert!(a != record("a.jpg", "2001:02:03 04:05:06", 640, 480, (1, 101), 2.8));
    assert!(a != record("a.jpg", "2001:02:03 04:05:06", 640, 480, (1, 100), 4.0));
}

#[test]
fn exposure_compares_as_rational() {
    let half = Exposure { numer: 1, denom: 2 };
    assert!(half.eq_value(&Exposure { numer: 2, denom: 4 }));
    assert!(!half.eq_value(&Exposure { numer: 1, denom: 3 }));
    let big = Exposure { numer: i32::MAX, denom: i32::MAX };
    assert!(big.eq_value(&Exposure { numer: 1, denom: 1 }));
    assert!(Exposure::zero().eq_value(&Exposure { numer: 0, denom: 7 }));
}

#[test]
fn aperture_compares_as_double() {
    let zero = Aperture { bits: 0.0f64.to_bits() };
    let neg_zero = Aperture { bits: (-0.0f64).to_bits() };
    let nan = Aperture { bits: f64::NAN.to_bits() };
    let f28 = Aperture { bits: 2.8f64.to_bits() };
    assert!(zero.eq_value(&neg_zero));
    assert!(f28.eq_value(&Aperture { bits: 2.8f64.to_bits() }));
    assert!(!f28.eq_value(&zero));
    assert!(nan.eq_value(&nan));
    assert!(nan.eq_value(&Aperture { bits: 0x7ff8_0000_0000_0001 }));
    assert!(!nan.eq_value(&zero));
    assert!(!f28.eq_value(&nan));
    assert!(Aperture { bits: f64::INFINITY.to_bits() }.eq_value(&Aperture { bits: f64::INFINITY.to_bits() }));
}

#[test]
fn records_order_by_creation_time() {
    let early = at("early.jpg", 5);
    let late = at("late.jpg", 9);
    assert_eq!(early.cmp(&late), std::cmp::Ordering::Less);
    assert_eq!(late.cmp(&early), std::cmp::Ordering::Greater);
    assert_eq!(early.cmp(&at("other.jpg", 5)), std::cmp::Ordering::Equal);
    assert!(early < late);
    assert_eq!(early.partial_cmp(&late), Some(std::cmp::Ordering::Less));
}

#[test]
fn sort_is_stable_by_creation_time() {
    let v = vec![at("a", 5), at("b", 1), at("c", 5), at("d", 0), at("e", 1), at("f", 5)];
    let sorted = sort_by_created(v);
    assert_eq!(paths(&sorted), vec!["d", "b", "e", "a", "c", "f"]);
    for i in 0..sorted.len() - 1 {
        assert!(sorted[i].created.millis <= sorted[i + 1].created.millis);
    }
}

#[test]
fn sort_keeps_ties_in_order_on_many_records() {
    let v: Vec<ImgRef> = (0..5000).map(|i| at(&format!("{}", i), ((i * 7919) % 13) as i64)).collect();
    let sorted = sort_by_created(v);
    assert_eq!(sorted.len(), 5000);
    for i in 0..sorted.len() - 1 {
        let (a, b) = (&sorted[i], &sorted[i + 1]);
        assert!(a.created.millis <= b.created.millis);
        if a.created.millis == b.created.millis {
            let pa: usize = a.path_string.parse().unwrap();
            let pb: usize = b.path_string.parse().unwrap();
            assert!(pa < pb);
        }
    }
}

#[test]
fn sort_of_nothing_is_nothing() {
    assert!(sort_by_created(Vec::new()).is_empty());
}

#[test]
fn two_identical_images_form_one_pair() {
    let a = record("dir/one.jpg", "2010:06:01 12:00:00", 4000, 3000, (1, 250), 5.6);
    let b = record("dir/two.jpg", "2010:06:01 12:00:00", 4000, 3000, (1, 250), 5.6);
    let d = detect(vec![a, b]);
    assert_eq!(d.pairs, vec![0]);
    assert_eq!(d.sorted.len(), 2);
}

#[test]
fn identical_images_with_nan_aperture_form_one_pair() {
    let a = record("x.jpg", "2010:06:01 12:00:00", 800, 600, (1, 30), f64::NAN);
    let b = record("y.jpg", "2010:06:01 12:00:00", 800, 600, (1, 30), f64::NAN);
    assert!(a == a);
    let d = detect(vec![a, b]);
    assert_eq!(d.pairs, vec![0]);
    assert_eq!(paths(&d.sorted), vec!["x.jpg", "y.jpg"]);
}

#[test]
fn unparsable_time_collides_with_epoch() {
    let a = record("bad.jpg", "yesterday", 100, 100, (1, 60), 2.0);
    let b = record("epoch.jpg", "1970:01:01 00:00:00", 100, 100, (1, 60), 2.0);
    let d = detect(vec![a, b]);
    assert_eq!(d.pairs, vec![0]);
}

#[test]
fn no_records_no_pairs() {
    let d = detect(Vec::new());
    assert!(d.pairs.is_empty());
    assert_eq!(render_report(&d), "found 0 images\n");
}

#[test]
fn one_record_no_pairs() {
    let d = detect(vec![at("only.jpg", 3)]);
    assert!(d.pairs.is_empty());
    assert_eq!(d.sorted.len(), 1);
}

#[test]
fn only_adjacent_duplicates_are_reported() {
    let v = vec![at("a", 1), at("b", 1), at("c", 1), at("d", 2), at("e", 3), at("f", 3)];
    assert_eq!(adjacent_duplicates(&v), vec![0, 1, 4]);
    let mut w = vec![at("x", 1), at("y", 1), at("z", 1)];
    w[1].width = 11;
    assert!(adjacent_duplicates(&w).is_empty());
}

#[test]
fn debug_string_names_path_size_and_time() {
    let mut r = at("photos/cat.jpg", -5);
    r.width = 640;
    r.height = 480;
    assert_eq!(r.debug_string(), "photos/cat.jpg (640 x 480) <created: -5>");
    let t = record("t.jpg", "2001:02:03 04:05:06", 1, 22, (1, 1), 1.0);
    assert_eq!(t.debug_string(), "t.jpg (1 x 22) <created: 981173106000>");
}

#[test]
fn debug_string_renders_extreme_numbers() {
    let mut r = at("x", i64::MIN);
    r.width = 0;
    r.height = i32::MAX;
    assert_eq!(r.debug_string(), "x (0 x 2147483647) <created: -9223372036854775808>");
    r.created = Timestamp { millis: i64::MAX };
    r.width = i32::MIN;
    r.height = 10;
    assert_eq!(r.debug_string(), "x (-2147483648 x 10) <created: 9223372036854775807>");
}

#[test]
fn report_lists_each_pair() {
    let d = detect(vec![at("b.jpg", 7), at("a.jpg", 7), at("c.jpg", 2)]);
    assert_eq!(paths(&d.sorted), vec!["c.jpg", "b.jpg", "a.jpg"]);
    assert_eq!(d.pairs, vec![1]);
    assert_eq!(
        render_report(&d),
        "found 3 images\npossible duplicates:\n  b.jpg (10 x 10) <created: 7>\n  a.jpg (10 x 10) <created: 7>\n"
    );
}

#[test]
fn jpg_names_ignore_case() {
    assert!(is_jpg_name("a/b/photo.jpg"));
    assert!(is_jpg_name("PHOTO.JPG"));
    assert!(is_jpg_name("x.jPg"));
    assert!(is_jpg_name(".jpg"));
    assert!(!is_jpg_name("photo.jpeg"));
    assert!(!is_jpg_name("photo.png"));
    assert!(!is_jpg_name("jpg"));
    assert!(!is_jpg_name("photo.jpg.txt"));
    assert!(!is_jpg_name(""));
}

#[test]
fn walker_goes_on_past_unreadable_entries() {
    let mut w = Walker::new(0);
    assert_eq!(w.step(&Entry::Directory), Step::Open);
    // the directory could not be opened: nothing is pushed
    assert_eq!(w.step(&Entry::Unreadable), Step::Skipped);
    assert_eq!(w.step(&Entry::File("top/a.jpg".to_string())), Step::Load);
    assert_eq!(w.step(&Entry::File("top/notes.txt".to_string())), Step::Ignored);
    assert_eq!(w.current(), 0);
    assert_eq!(w.step(&Entry::Exhausted), Step::Finished);
}

#[test]
fn walker_reads_pushed_directories_last_first() {
    let mut w = Walker::new(0);
    assert!(w.is_idle());
    assert_eq!(w.step(&Entry::Directory), Step::Open);
    w.push(1);
    assert_eq!(w.step(&Entry::Directory), Step::Open);
    w.push(2);
    assert!(!w.is_idle());
    assert_eq!(w.step(&Entry::Exhausted), Step::Resumed);
    assert_eq!(w.current(), 2);
    assert_eq!(w.step(&Entry::Exhausted), Step::Resumed);
    assert_eq!(w.current(), 1);
    assert_eq!(w.step(&Entry::Exhausted), Step::Finished);
    assert_eq!(w.current(), 1);
}
