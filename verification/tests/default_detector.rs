use renderx::default_detector::DefaultDetector;
use renderx::default_detector::NotDefault as _;

#[test]
fn it_returns_default_on_default_items() {
    let n: Option<u32> = DefaultDetector::<u32>::maybe_default();
    assert_eq!(n, Some(u32::default()));
}

#[test]
fn it_returns_none_on_non_default_items() {
    struct NotDefault;

    let n = DefaultDetector::<NotDefault>::maybe_default();
    assert!(n.is_none());
}

#[test]
fn default_strings_and_options_are_found() {
    assert_eq!(DefaultDetector::<String>::maybe_default(), Some(String::new()));
    assert_eq!(DefaultDetector::<Option<u8>>::maybe_default(), Some(None));
}
