use retrix::{device_display_name, first_stage, format_systime, same_day, RoomEntry, LAST_INSTANT};

const NEW_YEAR_2019: u64 = 1_546_300_800_000;

#[test]
fn an_event_of_today_shows_its_time() {
    let now = NEW_YEAR_2019 + 23 * 3_600_000;
    assert_eq!(format_systime(NEW_YEAR_2019 + 6 * 3_600_000 + 56 * 60_000 + 50_999, now, 0), "6:56:50");
    assert_eq!(format_systime(NEW_YEAR_2019, now, 0), "0:00:00");
}

#[test]
fn an_event_of_another_day_shows_its_date() {
    let now = NEW_YEAR_2019 + 24 * 3_600_000;
    assert_eq!(format_systime(NEW_YEAR_2019 + 13 * 3_600_000, now, 0), "2019-01-01 13:00:00");
    assert_eq!(format_systime(0, now, 0), "1970-01-01 0:00:00");
    assert_eq!(format_systime(253_402_300_799_999, now, 0), "9999-12-31 23:59:59");
}

#[test]
fn the_last_instant_is_within_the_calendar_at_every_offset() {
    assert_eq!(LAST_INSTANT, 3_093_559_516_800_999);
    assert_eq!(format_systime(LAST_INSTANT, 0, 0), "+100000-12-31 0:00:00");
    assert_eq!(format_systime(LAST_INSTANT, 0, 86_399), "+100000-12-31 23:59:59");
    assert_eq!(format_systime(LAST_INSTANT, 0, -86_399), "+100000-12-30 0:00:01");
    assert_eq!(format_systime(LAST_INSTANT, LAST_INSTANT - 999, 86_399), "23:59:59");
    assert_eq!(format_systime(0, LAST_INSTANT, -86_399), "1969-12-31 0:00:01");
}

#[test]
fn the_day_is_that_of_the_offset() {
    let late = NEW_YEAR_2019 - 3_600_000;
    assert_eq!(format_systime(late, NEW_YEAR_2019, 0), "2018-12-31 23:00:00");
    assert_eq!(format_systime(late, NEW_YEAR_2019, 7_200), "1:00:00");
    assert_eq!(format_systime(late, NEW_YEAR_2019, -7_200), "21:00:00");
    assert_eq!(format_systime(NEW_YEAR_2019, NEW_YEAR_2019 + 3_600_000, -1_800), "2018-12-31 23:30:00");
    assert_eq!(format_systime(0, 0, -3_600), "23:00:00");
}

#[test]
fn same_day_compares_the_days_at_the_offset() {
    assert!(same_day(0, 86_399_999, 0));
    assert!(!same_day(0, 86_400_000, 0));
    assert!(same_day(86_400_000, 86_400_000 + 1, 0));
    assert!(!same_day(1_000, 0, -1));
    assert!(same_day(0, 999, -1));
    assert!(same_day(86_399_000, 86_400_000, -1));
    assert!(same_day(86_399_000, 86_400_000, 1));
    assert!(!same_day(86_398_000, 86_399_000, 1));
    assert!(same_day(u64::MAX, u64::MAX - 1, 86_399));
}

#[test]
fn the_device_name_defaults() {
    assert_eq!(device_display_name(None), "retrix");
    assert_eq!(device_display_name(Some("laptop".to_string())), "laptop");
    assert_eq!(device_display_name(Some(String::new())), "");
}

#[test]
fn the_first_stage_of_the_first_flow_is_tried() {
    let flows = vec![
        vec!["m.login.recaptcha".to_string(), "m.login.terms".to_string()],
        vec!["m.login.dummy".to_string()],
    ];
    assert_eq!(first_stage(&flows), "m.login.recaptcha");
    assert_eq!(first_stage(&vec![]), "m.login.password");
    assert_eq!(first_stage(&vec![vec![], vec!["m.login.dummy".to_string()]]), "m.login.password");
}

#[test]
fn the_title_names_the_peer_or_the_alias() {
    let mut entry = RoomEntry::default();
    entry.name = "Tea".to_string();
    assert_eq!(entry.title(), "Tea");
    entry.alias = Some("#tea:x".to_string());
    assert_eq!(entry.title(), "Tea (#tea:x)");
    entry.direct = Some("@bob:x".to_string());
    assert_eq!(entry.title(), "Tea (@bob:x)");
}
