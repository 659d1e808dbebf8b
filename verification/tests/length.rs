use monocle_cli::length::text_adds_up;

#[test]
fn texts_that_add_up() {
    for text in [
        "",
        "0",
        "  ",
        "18446744073709551615s",
        "18446744073709551616s",
        "18446744073709551615s 1s",
        "18446744073709551615s 999ms",
        "18446744073709551615s 1001ms",
        "18446744073709551615s 1.0s",
        "18446744073709551614s 1000ms",
        "1year 2months 3days 4h 5m 6s 7ms",
        "2024-01-01T00:00:00Z",
        "2024-06-01 12:34:56 UTC+8",
        "1h 600000000000ns",
        "499999999999y 2s",
        "4999 9999 9999y 0.2s",
        "18446744073709551615s-1000ms",
        "18446744073709551615s 1000msx",
        "18446744073709551615s 1000ms!",
        "18446744073709551615s x 1000ms",
    ] {
        assert!(text_adds_up(text), "{text}");
        let _ = humantime::parse_duration(text);
    }
}

#[test]
fn texts_that_overflow() {
    for text in [
        "18446744073709551615s 1000ms",
        "18446744073709551615s1000ms",
        "18446744073709551615s 1000ms !",
        "18446744073709551615s 1000ms1",
        "18446744073709551615s 1000000us",
        "18446744073709551615s 1000000\u{b5}s",
        "18446744073709551615s 1000000000ns",
        "18446744073709551615s 999ms 1ms",
        "18446744073709551615s 0.999999999s 1ns",
        "18446744073709551615s 0.5s 0.5s",
        "18446744073709551615s 0.75s 250ms",
        "1 8446744073709551615 s 10 00 ms",
        "307445734561825860m 15s 1000ms",
        "5124095576030431h 15s 1000ms",
        "584542046090y 7M 2w 1d 17h 5m 3s 1000ms",
    ] {
        assert!(!text_adds_up(text), "{text}");
    }
}

#[test]
fn texts_are_parted_by_white_space() {
    for c in '\u{0}'..=char::MAX {
        if !c.is_ascii_digit() {
            let text = format!("18446744073709551615s{c}1000ms");
            assert_eq!(text_adds_up(&text), !c.is_whitespace(), "{text}");
        }
    }
}

#[test]
fn texts_that_add_up_are_read_without_a_panic() {
    let whole = ["18446744073709551615s", "18446744073709551614s", "307445734561825860min", "1s", ""];
    let units = [
        "nanos", "nsec", "ns", "usec", "us", "\u{b5}s", "millis", "msec", "ms", "seconds", "s", "min",
        "m", "h", "hr", "d", "wk", "M", "months", "y", "years", "x",
    ];
    let numbers = [
        "0", "1", "15", "999", "1000", "1001", "999999999", "1000000000", "1000000001", "0.5", "0.25",
        "1.5", "1.", ".5", "0.000000001", "0.0000000001", "18446744073709551615",
    ];
    let mut terms: Vec<String> = vec![];
    for number in numbers {
        for unit in units {
            terms.push(format!("{number}{unit}"));
        }
    }
    let mut left_out = 0;
    for first in whole {
        for second in &terms {
            for third in ["", "15s", "500ms", "500000000ns", "0.5s", "1ns"] {
                let text = format!("{first} {second} {third}");
                if text_adds_up(&text) {
                    let _ = humantime::parse_duration(&text);
                } else {
                    left_out += 1;
                }
            }
        }
    }
    assert!(left_out > 0 && left_out < 200, "{left_out}");
}
