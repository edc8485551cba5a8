use macro_recorder::scheduler::{evaluate_schedule, should_run_at, should_run_now, task_is_due, ScheduledTask, TaskList};

const DAY_MS: u64 = 86_400_000;

#[test]
fn every_seconds_interval() {
    assert!(should_run_at("every_10_seconds", None, 5));
    assert!(!should_run_at("every_10_seconds", Some(1_000), 10_999));
    assert!(should_run_at("every_10_seconds", Some(1_000), 11_000));
    // A clock behind the last run counts as no time passed.
    assert!(!should_run_at("every_10_seconds", Some(50_000), 1_000));
}

#[test]
fn every_minutes_interval() {
    assert!(!should_run_at("every_2_minutes", Some(0), 119_999));
    assert!(should_run_at("every_2_minutes", Some(0), 120_000));
    assert!(should_run_at("every_+2_minutes", Some(0), 120_000));
}

#[test]
fn once_runs_once_after_target() {
    assert!(!should_run_at("once_5000", None, 4_999));
    assert!(should_run_at("once_5000", None, 5_000));
    assert!(!should_run_at("once_5000", Some(5_000), 9_000));
}

#[test]
fn daily_within_target_minute() {
    let day = 20_000 * DAY_MS;
    let target = day + (9 * 3600 + 30 * 60) * 1000;
    assert!(should_run_at("daily_09:30", None, target));
    assert!(should_run_at("daily_9:30", None, target + 59_999));
    assert!(!should_run_at("daily_09:30", None, target + 60_000));
    assert!(!should_run_at("daily_09:30", None, target - 1));
    assert!(!should_run_at("daily_09:30", Some(target), target + 10));
    assert!(should_run_at("daily_09:30", Some(target - 1), target + 10));
}

#[test]
fn malformed_schedules_never_run() {
    assert!(!should_run_at("every_x_seconds", None, 1));
    assert!(!should_run_at("every_10_hours", None, 1));
    assert!(!should_run_at("daily_09:30:00", None, 1));
    assert!(!should_run_at("daily_0930", None, 1));
    assert!(!should_run_at("once_", None, 1));
    assert!(!should_run_at("0 9 * * 1-5", None, 1));
    assert!(!should_run_at("", None, 1));
}

#[test]
fn overflowing_schedule_is_reported() {
    assert_eq!(evaluate_schedule("every_18446744073709551615_seconds", None, 0), None);
    assert_eq!(evaluate_schedule("every_18446744073709551_seconds", None, 0), Some(true));
    assert_eq!(evaluate_schedule("every_99999999999999999999_seconds", None, 0), Some(false));
    assert_eq!(evaluate_schedule("daily_5124095576030431:0", None, 0), None);
}

#[test]
fn now_based_evaluation() {
    assert_eq!(should_run_now("every_1_seconds", None), Some(true));
    assert_eq!(should_run_now("once_1", Some(1)), Some(false));
    assert_eq!(should_run_now("bogus", None), Some(false));
}

fn task(enabled: bool) -> ScheduledTask {
    ScheduledTask {
        id: "a".to_string(),
        macro_name: "m".to_string(),
        schedule: "every_1_seconds".to_string(),
        speed_bits: 1.0f64.to_bits(),
        loops: 1,
        enabled,
        last_run_ms: None,
    }
}

#[test]
fn disabled_task_is_never_due() {
    assert_eq!(task_is_due(&task(false), 10_000), Some(false));
    assert_eq!(task_is_due(&task(true), 10_000), Some(true));
}

#[test]
fn task_list_operations() {
    let mut list = TaskList::new();
    let t1 = list.add_scheduled_task("first".to_string(), "once_1".to_string(), 2.0f64.to_bits(), 3);
    let t2 = list.add_scheduled_task("second".to_string(), "every_5_minutes".to_string(), 1.0f64.to_bits(), 1);
    assert_eq!(t1.id.len(), 36);
    assert_ne!(t1.id, t2.id);
    assert!(t1.enabled && t1.last_run_ms.is_none());
    assert_eq!(t1.loops, 3);
    assert_eq!(f64::from_bits(t1.speed_bits), 2.0);
    assert_eq!(list.tasks.len(), 2);

    assert_eq!(list.toggle_scheduled_task(&t1.id, false), Ok(()));
    assert!(!list.tasks[0].enabled);
    assert_eq!(list.toggle_scheduled_task("nope", true), Err("Task not found".to_string()));

    list.record_run(&t2.id, 1234);
    assert_eq!(list.tasks[1].last_run_ms, Some(1234));

    let found = list.find(&t2.id).unwrap();
    assert_eq!(found.macro_name, "second");
    assert_eq!(list.find("nope").unwrap_err(), "Task not found");

    assert_eq!(list.delete_scheduled_task(&t1.id), Ok(()));
    assert_eq!(list.tasks.len(), 1);
    assert_eq!(list.delete_scheduled_task(&t1.id), Err("Task not found".to_string()));
}

#[test]
fn lookups_see_edits_additions_and_deletions() {
    let mut list = TaskList::new();
    let a = list.add_scheduled_task("a".to_string(), "once_5".to_string(), 1.0f64.to_bits(), 1);
    let b = list.add_scheduled_task("b".to_string(), "every_1_seconds".to_string(), 1.0f64.to_bits(), 1);
    // An added task is found under its id.
    assert_eq!(list.find(&b.id).unwrap().macro_name, "b");
    // Edits that keep the id are what a lookup returns.
    list.toggle_scheduled_task(&b.id, false).unwrap();
    assert!(!list.find(&b.id).unwrap().enabled);
    list.record_run(&a.id, 42);
    assert_eq!(list.find(&a.id).unwrap().last_run_ms, Some(42));
    // A once task that ran is not due again.
    assert_eq!(task_is_due(&list.find(&a.id).unwrap(), 1_000_000), Some(false));
    // Deleting an id leaves no task with it.
    list.delete_scheduled_task(&a.id).unwrap();
    assert!(list.find(&a.id).is_err());
    assert_eq!(list.find(&b.id).unwrap().macro_name, "b");
}

// Monday 2024-03-04 09:00:30 UTC.
const MON_0900_30: u64 = 1_709_542_830_000;

#[test]
fn cron_expressions() {
    assert!(should_run_at("* * * * *", None, MON_0900_30));
    assert!(should_run_at("0 9 * * 1-5", None, MON_0900_30));
    assert!(!should_run_at("0 9 * * 1-5", None, 1_709_542_860_000)); // 09:01
    assert!(!should_run_at("0 9 * * 1-5", None, 1_709_456_400_000)); // Sunday 09:00
    // Steps and lists.
    assert!(should_run_at("*/15 * * * *", None, 1_709_544_600_000)); // 09:30
    assert!(!should_run_at("*/15 * * * *", None, 1_709_544_660_000)); // 09:31
    assert!(should_run_at("5,30 9 * * *", None, 1_709_544_600_000));
    // Leap day, and a day that does not exist in a common year.
    assert!(should_run_at("0 0 29 2 *", None, 1_709_164_800_000));
    assert!(!should_run_at("0 0 29 2 *", None, 1_677_628_800_000)); // 2023-03-01
    // Day of month or day of week when both are restricted; 7 is Sunday too.
    assert!(should_run_at("0 12 1 * 0", None, 1_709_467_200_000)); // Sunday 3rd
    assert!(should_run_at("0 12 1 * 0", None, 1_709_294_400_000)); // Friday 1st
    assert!(!should_run_at("0 12 1 * 0", None, 1_709_380_800_000)); // Saturday 2nd
    assert!(should_run_at("0 12 * * 7", None, 1_709_467_200_000));
    // Extra spaces between fields are allowed.
    assert!(should_run_at(" 0  9 * * 1-5 ", None, MON_0900_30));
    // Once per minute: a run in this minute blocks it, one before does not.
    assert!(!should_run_at("0 9 * * *", Some(1_709_542_800_000), MON_0900_30));
    assert!(should_run_at("0 9 * * *", Some(1_709_542_799_999), MON_0900_30));
    // Malformed expressions never run.
    assert!(!should_run_at("* * * *", None, MON_0900_30));
    assert!(!should_run_at("60 * * * *", None, MON_0900_30));
    assert!(!should_run_at("a * * * *", None, MON_0900_30));
    assert!(!should_run_at("*/0 * * * *", None, MON_0900_30));
    assert!(!should_run_at("5-1 * * * *", None, MON_0900_30));
    assert_eq!(evaluate_schedule("* * * * *", None, MON_0900_30), Some(true));
}

#[test]
fn once_with_colon() {
    assert!(should_run_at("once:0", None, 5));
    assert!(!should_run_at("once:0", Some(1), 5));
    assert!(!should_run_at("once:100", None, 99));
    assert!(should_run_at("once:100", None, 100));
}

#[test]
fn a_task_is_not_due_again_at_the_time_it_ran() {
    for s in ["every_5_seconds", "every_1_minutes", "once_1", "daily_09:00", "0 9 * * *", "* * * * *"] {
        assert!(!should_run_at(s, Some(MON_0900_30), MON_0900_30), "{}", s);
    }
}

#[test]
fn task_ids_are_version_4_uuids() {
    let mut list = TaskList::new();
    for _ in 0..20 {
        let t = list.add_scheduled_task("m".to_string(), "once_1".to_string(), 1.0f64.to_bits(), 1);
        let id: Vec<char> = t.id.chars().collect();
        assert_eq!(id.len(), 36);
        for i in [8, 13, 18, 23] {
            assert_eq!(id[i], '-');
        }
        assert_eq!(id[14], '4');
        assert!("89ab".contains(id[19]));
        assert!(id.iter().all(|c| *c == '-' || c.is_ascii_digit() || ('a'..='f').contains(c)));
    }
}
