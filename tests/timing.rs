use vidthumb::stream::{AVStream, Rational, SideData};
use vidthumb::timespec::{Fraction, SeekParseError, SeekPosition};

fn sample_stream() -> AVStream {
    AVStream {
        index: 0,
        time_base: Rational { num: 1, den: 15360 },
        duration: 153600,
        r_frame_rate: Rational { num: 30, den: 1 },
        side_data: Vec::new(),
    }
}

#[test]
fn parse_percentage_is_one_half() {
    let p = SeekPosition::parse("50%").unwrap();
    assert_eq!(p, SeekPosition::Percentage(Fraction { num: 50, den: 100 }));
    match p {
        SeekPosition::Percentage(f) => assert!(f.same_value(&Fraction { num: 1, den: 2 })),
        _ => panic!("not a percentage"),
    }
}

#[test]
fn parse_units() {
    assert_eq!(SeekPosition::parse("2s"), Ok(SeekPosition::Seconds(2)));
    assert_eq!(SeekPosition::parse("100ms"), Ok(SeekPosition::Milliseconds(100)));
    assert_eq!(SeekPosition::parse("7ts"), Ok(SeekPosition::TimeBase(7)));
    assert_eq!(SeekPosition::parse("42"), Ok(SeekPosition::Seconds(42)));
    assert_eq!(SeekPosition::parse("-5s"), Ok(SeekPosition::Seconds(-5)));
    assert_eq!(SeekPosition::parse("+5"), Ok(SeekPosition::Seconds(5)));
}

#[test]
fn parse_decimal_percentage() {
    assert_eq!(
        SeekPosition::parse("12.5%"),
        Ok(SeekPosition::Percentage(Fraction { num: 125, den: 1000 }))
    );
    assert_eq!(
        SeekPosition::parse("100%"),
        Ok(SeekPosition::Percentage(Fraction { num: 100, den: 100 }))
    );
    assert_eq!(
        SeekPosition::parse(".5%"),
        Ok(SeekPosition::Percentage(Fraction { num: 5, den: 1000 }))
    );
}

#[test]
fn parse_rejects_bad_numbers() {
    assert_eq!(SeekPosition::parse("abc"), Err(SeekParseError::InvalidNumber));
    assert_eq!(SeekPosition::parse(""), Err(SeekParseError::InvalidNumber));
    assert_eq!(SeekPosition::parse("s"), Err(SeekParseError::InvalidNumber));
    assert_eq!(SeekPosition::parse("1.5s"), Err(SeekParseError::InvalidNumber));
    assert_eq!(SeekPosition::parse("%"), Err(SeekParseError::InvalidNumber));
    assert_eq!(SeekPosition::parse("1.2.3%"), Err(SeekParseError::InvalidNumber));
    assert_eq!(SeekPosition::parse("99999999999999999999ts"), Err(SeekParseError::InvalidNumber));
}

#[test]
fn parse_extreme_integers() {
    assert_eq!(
        SeekPosition::parse("-9223372036854775808ts"),
        Ok(SeekPosition::TimeBase(i64::MIN))
    );
    assert_eq!(
        SeekPosition::parse("9223372036854775807ts"),
        Ok(SeekPosition::TimeBase(i64::MAX))
    );
    assert_eq!(SeekPosition::parse("9223372036854775808ts"), Err(SeekParseError::InvalidNumber));
}

#[test]
fn parse_rejects_out_of_range_percentages() {
    assert_eq!(SeekPosition::parse("150%"), Err(SeekParseError::PercentageOutOfRange));
    assert_eq!(SeekPosition::parse("100.5%"), Err(SeekParseError::PercentageOutOfRange));
    assert_eq!(SeekPosition::parse("-1%"), Err(SeekParseError::PercentageOutOfRange));
}

#[test]
fn default_position_is_tick_zero() {
    assert_eq!(SeekPosition::default(), SeekPosition::TimeBase(0));
}

#[test]
fn seconds_and_milliseconds_to_ticks() {
    let s = sample_stream();
    assert_eq!(s.as_time_base(SeekPosition::Seconds(2)), 30720);
    assert_eq!(s.as_time_base(SeekPosition::Milliseconds(100)), 1536);
    assert_eq!(s.as_time_base(SeekPosition::Milliseconds(-100)), -1536);
    assert_eq!(s.as_time_base(SeekPosition::TimeBase(7)), 7);
}

#[test]
fn rescale_rounds_to_nearest() {
    let s = AVStream {
        index: 0,
        time_base: Rational { num: 1, den: 90000 },
        duration: 900000,
        r_frame_rate: Rational { num: 25, den: 1 },
        side_data: Vec::new(),
    };
    // 1 ms = 90 ticks exactly; 1/3 s in a 1/1000 base rounds.
    assert_eq!(s.as_time_base(SeekPosition::Milliseconds(1)), 90);
    let coarse = AVStream { time_base: Rational { num: 3, den: 1000 }, ..s };
    // 1 ms is 1/3 of a tick: rounds to 0; 2 ms is 2/3: rounds to 1.
    assert_eq!(coarse.as_time_base(SeekPosition::Milliseconds(1)), 0);
    assert_eq!(coarse.as_time_base(SeekPosition::Milliseconds(2)), 1);
    // 3 s = 1000 ticks exactly.
    assert_eq!(coarse.as_time_base(SeekPosition::Seconds(3)), 1000);
}

#[test]
fn whole_duration_stays_in_range_and_aligned() {
    let s = sample_stream();
    let whole = s.as_time_base(SeekPosition::Percentage(Fraction { num: 1, den: 1 }));
    assert!(whole <= s.duration);
    assert_eq!(whole % 512, 0);
    assert_eq!(whole, 153600);
}

#[test]
fn percentage_snaps_down_to_frame_start() {
    let s = sample_stream();
    // 33.3% of 153600 is 51148.8 ticks; frames are 512 ticks long.
    let t = s.as_time_base(SeekPosition::Percentage(Fraction { num: 333, den: 1000 }));
    assert_eq!(t, 50688);
    let odd = AVStream { duration: 153599, ..sample_stream() };
    let t = odd.as_time_base(SeekPosition::Percentage(Fraction { num: 1, den: 1 }));
    assert_eq!(t, 153088);
    assert!(t <= odd.duration);
}

#[test]
fn unknown_frame_rate_does_not_snap() {
    let s = AVStream { r_frame_rate: Rational { num: 0, den: 0 }, ..sample_stream() };
    let t = s.as_time_base(SeekPosition::Percentage(Fraction { num: 333, den: 1000 }));
    assert_eq!(t, 51148);
}

#[test]
fn duration_in_milliseconds() {
    assert_eq!(sample_stream().duration_millis(), 10000);
}

#[test]
fn display_matrix_from_side_data() {
    let mut blob = Vec::new();
    for v in [0i32, 65536, 0, -65536, 0, 0, 0, 0, 1 << 30] {
        blob.extend_from_slice(&v.to_le_bytes());
    }
    let s = AVStream {
        side_data: vec![
            SideData { display_matrix: false, data: vec![1, 2, 3] },
            SideData { display_matrix: true, data: blob },
        ],
        ..sample_stream()
    };
    let m = s.display_matrix().unwrap();
    assert_eq!(m.data, [0, 65536, 0, -65536, 0, 0, 0, 0, 1 << 30]);
    let bad = AVStream {
        side_data: vec![SideData { display_matrix: true, data: vec![0; 35] }],
        ..sample_stream()
    };
    assert!(bad.display_matrix().is_none());
    assert!(sample_stream().display_matrix().is_none());
}
