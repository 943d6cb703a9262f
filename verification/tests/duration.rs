use lumen::fmt_duration;

#[test]
fn fmt_duration_roundtrip() {
    assert_eq!(fmt_duration(0, false), "0m");
    assert_eq!(fmt_duration(0, true), "0s");
    assert_eq!(fmt_duration(59, true), "59s");
    assert_eq!(fmt_duration(60, true), "1m 00s");
    assert_eq!(fmt_duration(61, true), "1m 01s");
    assert_eq!(fmt_duration(61, false), "1m");
    assert_eq!(fmt_duration(3600, true), "1h 00m 00s");
    assert_eq!(fmt_duration(3600, false), "1h 00m");
    assert_eq!(fmt_duration(3661, true), "1h 01m 01s");
    assert_eq!(fmt_duration(3661, false), "1h 01m");
}
