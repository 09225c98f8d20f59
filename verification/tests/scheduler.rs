use chrono::{TimeZone, Utc};
use microclaw::scheduler::{
    compute_next_run, decode_task, due_tasks, next_run_from_cron, update_task_after_run,
    ScheduleType, ScheduledTask, Scheduler, SchedulerError, TaskRow, TaskSpec, Timestamp,
};
use std::str::FromStr;

fn at(year: i32, month: u32, day: u32, hour: u32, min: u32, sec: u32) -> Timestamp {
    Timestamp {
        millis: Utc
            .with_ymd_and_hms(year, month, day, hour, min, sec)
            .unwrap()
            .timestamp_millis(),
    }
}

fn row(id: &str, schedule_type: &str, next_run: Option<&str>, status: &str) -> TaskRow {
    TaskRow {
        id: id.to_string(),
        group_folder: "g1".to_string(),
        chat_jid: "jid1".to_string(),
        prompt: "prompt".to_string(),
        schedule_type: schedule_type.to_string(),
        schedule_value: "60000".to_string(),
        next_run: next_run.map(|text| text.to_string()),
        status: status.to_string(),
        context_mode: "isolated".to_string(),
    }
}

fn task(id: &str, next_run: Option<i64>, status: &str) -> ScheduledTask {
    ScheduledTask {
        id: id.to_string(),
        group_folder: "g".to_string(),
        chat_jid: "j".to_string(),
        prompt: "p".to_string(),
        schedule_type: ScheduleType::Interval,
        schedule_value: "1".to_string(),
        next_run: next_run.map(|millis| Timestamp { millis }),
        status: status.to_string(),
        context_mode: "isolated".to_string(),
    }
}

#[test]
fn returns_due_tasks() {
    let now = Timestamp { millis: 10_000 };
    let mut sched = Scheduler::new();
    sched.add(TaskSpec::once("t1", Timestamp { millis: 0 }));
    let due = sched.due(now);
    assert_eq!(due.len(), 1);
}

#[test]
fn task_spec_exposes_id() {
    let task = TaskSpec::once("t1", Timestamp { millis: 1_000 });
    assert_eq!(task.id(), "t1");
}

#[test]
fn computes_next_run_for_interval() {
    let now = at(2026, 2, 12, 0, 0, 0);
    let next = compute_next_run(ScheduleType::Interval, "60000", now).unwrap();
    assert_eq!(
        next.millis,
        (Utc.with_ymd_and_hms(2026, 2, 12, 0, 0, 0).unwrap() + chrono::Duration::milliseconds(60000))
            .timestamp_millis()
    );
}

#[test]
fn computes_next_run_for_cron() {
    let now = at(2026, 2, 12, 10, 0, 0);
    let next = compute_next_run(ScheduleType::Cron, "0 0 11 * * *", now).unwrap();
    assert_eq!(next, at(2026, 2, 12, 11, 0, 0));
}

#[test]
fn due_tasks_filters_active_by_next_run() {
    let stored = vec![decode_task(row(
        "t1",
        "interval",
        Some("2026-02-12T00:00:00Z"),
        "active",
    ))];

    let now = at(2026, 2, 12, 0, 0, 1);
    let due = due_tasks(&stored, now);
    assert_eq!(due.len(), 1);
    assert_eq!(due[0].id, "t1");
}

#[test]
fn update_task_after_run_persists_next_run() {
    let last_run = at(2026, 2, 12, 0, 0, 0);
    let next_run = Timestamp { millis: last_run.millis + 60000 };
    let update = update_task_after_run("t2", Some(next_run), "ok", last_run).unwrap();

    let stored: Option<String> = update.next_run;
    assert_eq!(stored.unwrap(), "2026-02-12T00:01:00+00:00");
}

#[test]
fn interval_accepts_signed_integers_only() {
    let now = Timestamp { millis: 1_000 };
    let next = |value: &str| compute_next_run(ScheduleType::Interval, value, now);
    assert_eq!(next("0").unwrap().millis, 1_000);
    assert_eq!(next("+250").unwrap().millis, 1_250);
    assert_eq!(next("-1000").unwrap().millis, 0);
    assert_eq!(next("-2500").unwrap().millis, -1_500);
    assert_eq!(next("007").unwrap().millis, 1_007);
    assert_eq!(next("9223372036854774807").unwrap().millis, i64::MAX);
    for value in ["", "+", "-", " 5", "5 ", "5s", "1.5", "1e3", "0x10", "--5", "9223372036854775808"] {
        match next(value) {
            Err(SchedulerError::InvalidScheduleValue(text)) => assert_eq!(text, value),
            other => panic!("{:?} gave {:?}", value, other),
        }
    }
}

#[test]
fn interval_that_leaves_the_range_of_time_is_refused() {
    let late = Timestamp { millis: i64::MAX };
    match compute_next_run(ScheduleType::Interval, "1", late) {
        Err(SchedulerError::InvalidScheduleValue(text)) => assert_eq!(text, "1"),
        other => panic!("unexpected outcome: {:?}", other),
    }
    assert_eq!(compute_next_run(ScheduleType::Interval, "0", late).unwrap(), late);
    let early = Timestamp { millis: i64::MIN };
    assert!(matches!(
        compute_next_run(ScheduleType::Interval, "-1", early),
        Err(SchedulerError::InvalidScheduleValue(_))
    ));
    assert_eq!(
        compute_next_run(ScheduleType::Interval, "-9223372036854775808", Timestamp { millis: 0 })
            .unwrap()
            .millis,
        i64::MIN
    );
}

#[test]
fn once_schedules_have_no_next_run() {
    match compute_next_run(ScheduleType::Once, "whatever", Timestamp { millis: 0 }) {
        Err(SchedulerError::InvalidScheduleValue(text)) => {
            assert_eq!(text, "once schedules do not compute next run")
        }
        other => panic!("unexpected outcome: {:?}", other),
    }
}

#[test]
fn cron_fires_strictly_after_now() {
    // every minute at second 0
    let expr = "0 * * * * *";
    let on_the_minute = at(2026, 2, 12, 10, 30, 0);
    assert_eq!(
        compute_next_run(ScheduleType::Cron, expr, on_the_minute).unwrap(),
        at(2026, 2, 12, 10, 31, 0)
    );
    let just_before = Timestamp { millis: on_the_minute.millis - 1 };
    assert_eq!(compute_next_run(ScheduleType::Cron, expr, just_before).unwrap(), on_the_minute);
    let just_after = Timestamp { millis: on_the_minute.millis + 1 };
    assert_eq!(
        compute_next_run(ScheduleType::Cron, expr, just_after).unwrap(),
        at(2026, 2, 12, 10, 31, 0)
    );
    // across the end of a month and of a leap day
    assert_eq!(
        compute_next_run(ScheduleType::Cron, "0 0 0 1 * *", at(2028, 2, 29, 23, 59, 59)).unwrap(),
        at(2028, 3, 1, 0, 0, 0)
    );
    // from before the epoch the first firing is the first in 1970
    assert_eq!(
        compute_next_run(ScheduleType::Cron, "0 0 0 * * *", at(1960, 1, 1, 0, 0, 0)).unwrap(),
        at(1970, 1, 1, 0, 0, 0)
    );
}

#[test]
fn cron_errors_are_reported_as_cron_errors() {
    let now = at(2026, 2, 12, 10, 0, 0);
    for expr in ["", "not a schedule", "* * *", "61 * * * * *", "0 0 25 * * *"] {
        match compute_next_run(ScheduleType::Cron, expr, now) {
            Err(SchedulerError::Cron(text)) => {
                assert_ne!(text, "no upcoming cron times", "{:?}", expr);
                assert_ne!(text, expr, "{:?}", expr);
            }
            other => panic!("{:?} gave {:?}", expr, other),
        }
    }
    // a valid schedule that has run out: the crate knows no year after 2100
    match compute_next_run(ScheduleType::Cron, "0 0 0 1 1 *", at(2100, 6, 1, 0, 0, 0)) {
        Err(SchedulerError::Cron(text)) => assert_eq!(text, "no upcoming cron times"),
        other => panic!("unexpected outcome: {:?}", other),
    }
    // beyond the year 9999 nothing is looked for at all
    match compute_next_run(ScheduleType::Cron, "0 0 0 1 1 *", Timestamp { millis: i64::MAX }) {
        Err(SchedulerError::Cron(text)) => assert_eq!(text, "no upcoming cron times"),
        other => panic!("unexpected outcome: {:?}", other),
    }
    match compute_next_run(
        ScheduleType::Cron,
        "0 0 0 1 1 *",
        Timestamp { millis: 253_402_300_799_999 },
    ) {
        Err(SchedulerError::Cron(text)) => assert_eq!(text, "no upcoming cron times"),
        other => panic!("unexpected outcome: {:?}", other),
    }
    // an expression that is refused is reported as such at every time
    for millis in [i64::MAX, 253_402_300_800_000, i64::MIN] {
        match compute_next_run(ScheduleType::Cron, "not a schedule", Timestamp { millis }) {
            Err(SchedulerError::Cron(text)) => assert_ne!(text, "no upcoming cron times"),
            other => panic!("unexpected outcome: {:?}", other),
        }
    }
    let refused_now = compute_next_run(ScheduleType::Cron, "61 * * * * *", now);
    let refused_late =
        compute_next_run(ScheduleType::Cron, "61 * * * * *", Timestamp { millis: i64::MAX });
    match (refused_now, refused_late) {
        (Err(SchedulerError::Cron(a)), Err(SchedulerError::Cron(b))) => assert_eq!(a, b),
        other => panic!("unexpected outcome: {:?}", other),
    }
    match compute_next_run(ScheduleType::Cron, "0 0 0 1 1 *", Timestamp { millis: i64::MIN }) {
        Err(SchedulerError::Cron(text)) => assert_eq!(text, "no upcoming cron times"),
        other => panic!("unexpected outcome: {:?}", other),
    }
}

#[test]
fn cron_answers_map_to_outcomes() {
    assert_eq!(next_run_from_cron(Ok(Some(5))).unwrap(), Timestamp { millis: 5 });
    match next_run_from_cron(Ok(None)) {
        Err(SchedulerError::Cron(text)) => assert_eq!(text, "no upcoming cron times"),
        other => panic!("unexpected outcome: {:?}", other),
    }
    match next_run_from_cron(Err("bad field".to_string())) {
        Err(SchedulerError::Cron(text)) => assert_eq!(text, "bad field"),
        other => panic!("unexpected outcome: {:?}", other),
    }
}

#[test]
fn schedule_type_words_round_trip() {
    for (kind, word) in [
        (ScheduleType::Once, "once"),
        (ScheduleType::Interval, "interval"),
        (ScheduleType::Cron, "cron"),
    ] {
        assert_eq!(kind.as_str(), word);
        assert_eq!(ScheduleType::parse(word).unwrap(), kind);
        assert_eq!(ScheduleType::from_str(word).unwrap(), kind);
        assert_eq!(word.parse::<ScheduleType>().unwrap(), kind);
    }
    for word in ["", "Once", "daily", "cron "] {
        match ScheduleType::parse(word) {
            Err(SchedulerError::InvalidScheduleType(text)) => assert_eq!(text, word),
            other => panic!("{:?} gave {:?}", word, other),
        }
    }
}

#[test]
fn scheduler_returns_due_tasks_in_the_order_added() {
    let mut sched = Scheduler::new();
    assert!(sched.due(Timestamp { millis: i64::MAX }).is_empty());
    sched.add(TaskSpec::once("late", Timestamp { millis: 500 }));
    sched.add(TaskSpec::once("early", Timestamp { millis: -5 }));
    sched.add(TaskSpec::once("now", Timestamp { millis: 100 }));
    sched.add(TaskSpec::once("soon", Timestamp { millis: 101 }));
    let ids = |now: i64| -> Vec<String> {
        sched
            .due(Timestamp { millis: now })
            .iter()
            .map(|task| task.id().to_string())
            .collect()
    };
    assert_eq!(ids(100), vec!["early", "now"]);
    assert_eq!(ids(500), vec!["late", "early", "now", "soon"]);
    assert_eq!(ids(-6), Vec::<String>::new());
    assert_eq!(sched.due(Timestamp { millis: 100 })[1].at(), Timestamp { millis: 100 });
}

#[test]
fn due_tasks_are_active_due_and_ordered() {
    let stored = vec![
        task("c", Some(30), "active"),
        task("paused", Some(5), "paused"),
        task("a", Some(10), "active"),
        task("unscheduled", None, "active"),
        task("future", Some(41), "active"),
        task("b1", Some(20), "active"),
        task("edge", Some(40), "active"),
        task("b2", Some(20), "active"),
        task("shouting", Some(1), "ACTIVE"),
        task("old", Some(-7), "active"),
    ];
    let due = due_tasks(&stored, Timestamp { millis: 40 });
    let ids: Vec<&str> = due.iter().map(|task| task.id.as_str()).collect();
    // tasks with the same next run keep their order
    assert_eq!(ids, vec!["old", "a", "b1", "b2", "c", "edge"]);
    assert_eq!(due[0].next_run, Some(Timestamp { millis: -7 }));
    assert_eq!(due[5].prompt, "p");
    assert!(due_tasks(&stored, Timestamp { millis: -8 }).is_empty());
    assert!(due_tasks(&Vec::new(), Timestamp { millis: 0 }).is_empty());
}

#[test]
fn rows_decode_with_fallbacks() {
    let good = decode_task(row("t", "cron", Some("2026-02-12T01:00:00+01:00"), "active"));
    assert_eq!(good.schedule_type, ScheduleType::Cron);
    assert_eq!(good.next_run, Some(at(2026, 2, 12, 0, 0, 0)));
    assert_eq!(good.id, "t");
    assert_eq!(good.group_folder, "g1");
    assert_eq!(good.chat_jid, "jid1");
    assert_eq!(good.prompt, "prompt");
    assert_eq!(good.schedule_value, "60000");
    assert_eq!(good.status, "active");
    assert_eq!(good.context_mode, "isolated");
    let copy = good.clone();
    assert_eq!(copy.id, "t");
    assert_eq!(copy.next_run, good.next_run);
    // an unknown schedule type reads as once, an unreadable time as none
    let odd = decode_task(row("t", "hourly", Some("yesterday"), "active"));
    assert_eq!(odd.schedule_type, ScheduleType::Once);
    assert_eq!(odd.next_run, None);
    let bare = decode_task(row("t", "once", None, "done"));
    assert_eq!(bare.next_run, None);
    let millis = decode_task(row("t", "once", Some("1970-01-01T00:00:01.234Z"), "active"));
    assert_eq!(millis.next_run, Some(Timestamp { millis: 1_234 }));
}

#[test]
fn update_writes_times_as_rfc3339() {
    let update = update_task_after_run(
        "t9",
        None,
        "failed: timeout",
        Timestamp { millis: 1_500 },
    )
    .unwrap();
    assert_eq!(update.id, "t9");
    assert_eq!(update.last_run, "1970-01-01T00:00:01.500+00:00");
    assert_eq!(update.last_result, "failed: timeout");
    assert_eq!(update.next_run, None);
    // times that no calendar date stands for cannot be written
    assert!(update_task_after_run("t", None, "", Timestamp { millis: i64::MAX }).is_none());
    assert!(update_task_after_run(
        "t",
        Some(Timestamp { millis: i64::MIN }),
        "",
        Timestamp { millis: 0 }
    )
    .is_none());
}
