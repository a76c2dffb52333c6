use bike_times::coalesce::{coalesce, TimePeriod};
use bike_times::display::{describe_range, integer_text};
use bike_times::forecast::{Period, ProbabilityOfPrecipitation};
use bike_times::message::{bike_times_message, compose_message};
use bike_times::retry::backoff_delay;
use bike_times::suitability::{is_suitable, select_suitable};
use bike_times::wind::parse_wind_speed;

const BANNER_LINE: &str = "☀️Good bike times in the next 7 days☀️";

fn period(start: &str, end: &str, day: bool, temp: i64, precip: i64, wind: &str) -> Period {
    Period {
        start_time: start.to_string(),
        end_time: end.to_string(),
        is_daytime: day,
        temperature: temp,
        probability_of_precipitation: ProbabilityOfPrecipitation {
            unit_code: "wmoUnit:percent".to_string(),
            value: precip,
        },
        wind_speed: wind.to_string(),
        ..Period::default()
    }
}

fn at(hour: u32) -> String {
    format!("2024-05-06T{:02}:00:00-04:00", hour)
}

fn hour(h: u32, day: bool, temp: i64, precip: i64, wind: &str) -> Period {
    period(&at(h), &at(h + 1), day, temp, precip, wind)
}

#[test]
fn wind_reads_leading_number() {
    assert_eq!(parse_wind_speed("12 mph"), 12);
    assert_eq!(parse_wind_speed("5 mph"), 5);
    assert_eq!(parse_wind_speed("0 mph"), 0);
    assert_eq!(parse_wind_speed("255 mph"), 255);
    assert_eq!(parse_wind_speed("10 to 15 mph"), 10);
    assert_eq!(parse_wind_speed("18"), 18);
    assert_eq!(parse_wind_speed("+7 mph"), 7);
    assert_eq!(parse_wind_speed("007 mph"), 7);
    assert_eq!(parse_wind_speed("14\tmph"), 14);
    assert_eq!(parse_wind_speed("9\n"), 9);
}

#[test]
fn wind_malformed_reads_sentinel() {
    assert_eq!(parse_wind_speed(""), 255);
    assert_eq!(parse_wind_speed("calm"), 255);
    assert_eq!(parse_wind_speed("256 mph"), 255);
    assert_eq!(parse_wind_speed("1000 mph"), 255);
    assert_eq!(parse_wind_speed(" 12 mph"), 255);
    assert_eq!(parse_wind_speed("-3 mph"), 255);
    assert_eq!(parse_wind_speed("+ mph"), 255);
    assert_eq!(parse_wind_speed("12mph"), 255);
    assert_eq!(parse_wind_speed("\t12 mph"), 255);
}

#[test]
fn boundary_65_uses_lower_band_wind_rule() {
    assert!(!is_suitable(&hour(10, true, 65, 0, "15 mph")));
    assert!(is_suitable(&hour(10, true, 65, 0, "12 mph")));
    assert!(!is_suitable(&hour(10, true, 65, 0, "13 mph")));
    assert!(is_suitable(&hour(10, true, 66, 0, "15 mph")));
}

#[test]
fn temperature_band_edges() {
    assert!(is_suitable(&hour(10, true, 50, 0, "12 mph")));
    assert!(!is_suitable(&hour(10, true, 49, 0, "0 mph")));
    assert!(is_suitable(&hour(10, true, 83, 0, "18 mph")));
    assert!(!is_suitable(&hour(10, true, 83, 0, "19 mph")));
    assert!(!is_suitable(&hour(10, true, 84, 0, "0 mph")));
    assert!(!is_suitable(&hour(10, true, 70, 0, "windy")));
}

#[test]
fn higher_precipitation_never_helps() {
    assert!(is_suitable(&hour(10, true, 60, 24, "5 mph")));
    assert!(!is_suitable(&hour(10, true, 60, 25, "5 mph")));
    assert!(!is_suitable(&hour(10, true, 60, 90, "5 mph")));
}

#[test]
fn night_or_wet_excluded() {
    assert!(!is_suitable(&hour(10, false, 60, 0, "5 mph")));
    assert!(!is_suitable(&hour(10, false, 70, 0, "0 mph")));
    assert!(!is_suitable(&hour(10, true, 60, 25, "0 mph")));
    assert!(!is_suitable(&hour(10, true, 75, 100, "0 mph")));
}

#[test]
fn select_keeps_order_of_suitable() {
    let ps = vec![
        hour(8, true, 60, 0, "5 mph"),
        hour(9, false, 60, 0, "5 mph"),
        hour(10, true, 70, 0, "5 mph"),
    ];
    let chosen = select_suitable(&ps);
    assert_eq!(chosen.len(), 2);
    assert_eq!(chosen[0].temperature, 60);
    assert_eq!(chosen[1].temperature, 70);
}

#[test]
fn coalesce_empty() {
    assert!(coalesce(vec![]).is_empty());
}

#[test]
fn coalesce_single() {
    let p = hour(10, true, 55, 10, "5 mph");
    let r = coalesce(vec![&p]);
    assert_eq!(
        r,
        vec![TimePeriod {
            start_time: at(10),
            end_time: at(11),
            temp: 55,
            probability_of_precipitation: 10,
            max_wind_speed: 5,
        }]
    );
}

#[test]
fn coalesce_three_adjacent_any_grouping() {
    let a = hour(10, true, 70, 5, "12 mph");
    let b = hour(11, true, 55, 20, "3 mph");
    let c = hour(12, true, 60, 1, "17 mph");
    let all = coalesce(vec![&a, &b, &c]);
    let expected = TimePeriod {
        start_time: at(10),
        end_time: at(13),
        temp: 70,
        probability_of_precipitation: 20,
        max_wind_speed: 17,
    };
    assert_eq!(all, vec![expected]);
    let bc = coalesce(vec![&b, &c]);
    let bc_period = period(&bc[0].start_time, &bc[0].end_time, true, bc[0].temp, bc[0].probability_of_precipitation, &format!("{} mph", bc[0].max_wind_speed));
    let grouped = coalesce(vec![&a, &bc_period]);
    assert_eq!(grouped, all);
}

#[test]
fn coalesce_gap_starts_new_range() {
    let a = hour(10, true, 55, 10, "5 mph");
    let b = period(&at(11), &at(12), true, 60, 0, "5 mph");
    let c = period("2024-05-06T12:00:00-05:00", &at(14), true, 60, 0, "5 mph");
    let r = coalesce(vec![&a, &b, &c]);
    assert_eq!(r.len(), 2);
    assert_eq!(r[0].end_time, at(12));
    assert_eq!(r[1].start_time, "2024-05-06T12:00:00-05:00");
}

#[test]
fn coalesce_is_idempotent() {
    let ps = vec![
        hour(8, true, 55, 10, "5 mph"),
        hour(9, true, 60, 15, "10 mph"),
        hour(11, true, 70, 5, "8 mph"),
        hour(12, true, 75, 2, "14 mph"),
        hour(15, true, 68, 0, "1 mph"),
    ];
    let once = coalesce(ps.iter().collect());
    let as_periods: Vec<Period> = once
        .iter()
        .map(|t| period(&t.start_time, &t.end_time, true, t.temp, t.probability_of_precipitation, &format!("{} mph", t.max_wind_speed)))
        .collect();
    let twice = coalesce(as_periods.iter().collect());
    assert_eq!(once.len(), 3);
    assert_eq!(twice, once);
}

#[test]
fn end_to_end_two_ranges() {
    let ps = vec![
        hour(10, true, 55, 10, "5 mph"),
        hour(11, true, 60, 15, "10 mph"),
        hour(13, true, 70, 5, "8 mph"),
    ];
    let ranges = coalesce(select_suitable(&ps));
    assert_eq!(
        ranges,
        vec![
            TimePeriod { start_time: at(10), end_time: at(12), temp: 60, probability_of_precipitation: 15, max_wind_speed: 10 },
            TimePeriod { start_time: at(13), end_time: at(14), temp: 70, probability_of_precipitation: 5, max_wind_speed: 8 },
        ]
    );
    let msg = bike_times_message(&ps).unwrap();
    let expected = format!(
        "{}\n{}\n{}",
        BANNER_LINE,
        "🚲 Monday, May 06 10:00AM - 12:00PM temp 60F precipitation 15% wind speed 10 mph",
        "🚲 Monday, May 06 01:00PM - 02:00PM temp 70F precipitation 5% wind speed 8 mph"
    );
    assert_eq!(msg, expected);
    assert_eq!(msg.lines().count(), 3);
}

#[test]
fn empty_input_gives_banner_only() {
    assert_eq!(bike_times_message(&vec![]).unwrap(), format!("{}\n", BANNER_LINE));
    let unsuitable = vec![hour(10, false, 60, 0, "5 mph"), hour(11, true, 60, 80, "5 mph")];
    assert_eq!(bike_times_message(&unsuitable).unwrap(), format!("{}\n", BANNER_LINE));
}

#[test]
fn malformed_timestamp_fails_message() {
    let ps = vec![period("yesterday", "today", true, 60, 0, "5 mph")];
    assert_eq!(bike_times_message(&ps), None);
    let t = TimePeriod { start_time: at(10), end_time: "noon".to_string(), temp: 60, probability_of_precipitation: 0, max_wind_speed: 3 };
    assert_eq!(t.pretty(), None);
}

#[test]
fn pretty_renders_range() {
    let t = TimePeriod { start_time: "2024-12-31T23:00:00+00:00".to_string(), end_time: "2025-01-01T00:00:00+00:00".to_string(), temp: -3, probability_of_precipitation: 0, max_wind_speed: 255 };
    assert_eq!(
        t.pretty().unwrap(),
        "🚲 Tuesday, December 31 11:00PM - 12:00AM temp -3F precipitation 0% wind speed 255 mph"
    );
}

#[test]
fn describe_range_exact() {
    let t = TimePeriod { start_time: String::new(), end_time: String::new(), temp: 72, probability_of_precipitation: 12, max_wind_speed: 9 };
    assert_eq!(describe_range("A", "B", &t), "🚲 A - B temp 72F precipitation 12% wind speed 9 mph");
}

#[test]
fn integer_text_values() {
    assert_eq!(integer_text(0), "0");
    assert_eq!(integer_text(7), "7");
    assert_eq!(integer_text(1234), "1234");
    assert_eq!(integer_text(-5), "-5");
    assert_eq!(integer_text(i64::MIN), i64::MIN.to_string());
    assert_eq!(integer_text(i64::MAX), i64::MAX.to_string());
}

#[test]
fn compose_joins_lines() {
    assert_eq!(compose_message(&vec!["a".to_string(), "b".to_string()]), format!("{}\na\nb", BANNER_LINE));
    assert_eq!(compose_message(&vec!["x".to_string()]), format!("{}\nx", BANNER_LINE));
}

#[test]
fn backoff_doubles_then_gives_up() {
    assert_eq!(backoff_delay(0), Some(1));
    assert_eq!(backoff_delay(1), Some(2));
    assert_eq!(backoff_delay(2), Some(4));
    assert_eq!(backoff_delay(3), None);
    assert_eq!(backoff_delay(u32::MAX), None);
}
