use common_rust::logging_file::{
    default_roller_config, LogCommand, LogFileConfig, LogRecord, LogRoller, LogRollerConfig,
    RotationFlag, DEFAULT_ROLL_INTERVAL_MILLIS, DEFAULT_ROLL_SIZE,
};
use common_rust::CommonConfig;
use common_rust::config::LevelFilter;

fn two_output_config(roll_size: usize) -> LogRollerConfig {
    LogRollerConfig {
        base_name: String::from("app"),
        roll_size,
        roll_interval: 60_000,
        outputs: vec![
            LogFileConfig::new("METRICS", "dirA", ""),
            LogFileConfig::new("", "dirB", ""),
        ],
    }
}

fn line_of(n: usize) -> String {
    "x".repeat(n)
}

#[test]
fn writes_within_limit_accumulate_in_one_file() {
    let mut roller = LogRoller::new(two_output_config(100), 0);
    let path_before = roller.file_path(0).clone();
    let (rotated, idx) = roller.write_line(&line_of(30), "METRICS", 0, true);
    assert!(!rotated);
    assert_eq!(idx, 0);
    let (rotated, idx) = roller.write_line(&line_of(40), "METRICS", 0, true);
    assert!(!rotated);
    assert_eq!(idx, 0);
    assert_eq!(roller.bytes_written(0), 70);
    assert_eq!(roller.bytes_written(1), 0);
    assert_eq!(roller.file_path(0), &path_before);
}

#[test]
fn size_trigger_rotates_before_the_write() {
    let mut roller = LogRoller::new(two_output_config(100), 0);
    let (rotated, idx) = roller.write_line(&line_of(60), "METRICS", 0, true);
    assert!(!rotated);
    assert_eq!(idx, 0);
    assert_eq!(roller.bytes_written(0), 60);
    let first_path = roller.file_path(0).clone();
    // Two minutes later: 60 + 60 > 100, so the set is replaced first.
    let (rotated, idx) = roller.write_line(&line_of(60), "METRICS", 120_000, true);
    assert!(rotated);
    assert_eq!(idx, 0);
    assert_eq!(roller.bytes_written(0), 60);
    let second_path = roller.file_path(0).clone();
    assert_eq!(first_path, "dirA/19700101-0000-app.log");
    assert_eq!(second_path, "dirA/19700101-0002-app.log");
    assert_ne!(first_path, second_path);
}

#[test]
fn size_trigger_rotates_every_file_of_the_set() {
    let mut roller = LogRoller::new(two_output_config(100), 0);
    roller.write_line(&line_of(50), "METRICS", 0, true);
    assert_eq!(roller.bytes_written(0), 50);
    // The catch-all file overflows; the METRICS file is replaced too.
    roller.write_line(&line_of(80), "", 0, true);
    roller.write_line(&line_of(80), "", 120_000, true);
    assert_eq!(roller.bytes_written(0), 0);
    assert_eq!(roller.bytes_written(1), 80);
}

#[test]
fn failed_size_rotation_halves_the_counter_and_writes_anyway() {
    let mut roller = LogRoller::new(two_output_config(100), 0);
    roller.write_line(&line_of(60), "METRICS", 0, true);
    let path_before = roller.file_path(0).clone();
    let (rotated, idx) = roller.write_line(&line_of(60), "METRICS", 120_000, false);
    assert!(!rotated);
    assert_eq!(idx, 0);
    // 60 / 2 + 60: the old set stays, the over-limit counter is halved.
    assert_eq!(roller.bytes_written(0), 90);
    assert_eq!(roller.file_path(0), &path_before);
}

#[test]
fn signal_rotates_and_clears_the_flag() {
    let mut roller = LogRoller::new(two_output_config(100), 0);
    roller.write_line(&line_of(10), "METRICS", 0, true);
    let mut flag = RotationFlag::new();
    flag.request();
    let rotated = roller.check_log_roll(&mut flag, 120_000, true);
    assert!(rotated);
    assert!(!flag.requested());
    assert_eq!(roller.bytes_written(0), 0);
    assert_eq!(roller.file_path(0), "dirA/19700101-0002-app.log");
    // A second check without a new request does nothing.
    let rotated = roller.check_log_roll(&mut flag, 120_001, false);
    assert!(!rotated);
}

#[test]
fn failed_signal_rotation_keeps_the_old_set_usable() {
    let mut roller = LogRoller::new(two_output_config(100), 0);
    roller.write_line(&line_of(10), "METRICS", 0, true);
    let path_before = roller.file_path(0).clone();
    let mut flag = RotationFlag::new();
    flag.request();
    // Exclusive create collided: the host could not open the new set.
    let rotated = roller.check_log_roll(&mut flag, 1_000, false);
    assert!(!rotated);
    assert!(!flag.requested());
    assert_eq!(roller.bytes_written(0), 10);
    assert_eq!(roller.file_path(0), &path_before);
    let (rotated, idx) = roller.write_line(&line_of(10), "METRICS", 1_000, true);
    assert!(!rotated);
    assert_eq!(idx, 0);
    assert_eq!(roller.bytes_written(0), 20);
}

#[test]
fn time_trigger_rotates_after_the_deadline() {
    let mut roller = LogRoller::new(two_output_config(100), 0);
    assert_eq!(roller.write_until(), 60_000);
    let mut flag = RotationFlag::new();
    let rotated = roller.check_log_roll(&mut flag, 59_999, true);
    assert!(!rotated);
    let rotated = roller.check_log_roll(&mut flag, 60_001, true);
    assert!(rotated);
    assert_eq!(roller.write_until(), 120_000);
}

#[test]
fn failed_time_rotation_pushes_the_deadline_out() {
    let mut roller = LogRoller::new(two_output_config(100), 0);
    roller.write_line(&line_of(10), "", 0, true);
    let mut flag = RotationFlag::new();
    let rotated = roller.check_log_roll(&mut flag, 60_001, false);
    assert!(!rotated);
    assert_eq!(roller.bytes_written(1), 10);
    assert_eq!(roller.write_until(), 120_000);
}

#[test]
fn flush_twice_changes_nothing() {
    let mut roller = LogRoller::new(two_output_config(100), 0);
    roller.write_line(&line_of(10), "METRICS", 0, true);
    let path = roller.file_path(0).clone();
    let until = roller.write_until();
    roller.flush();
    roller.flush();
    assert_eq!(roller.bytes_written(0), 10);
    assert_eq!(roller.file_path(0), &path);
    assert_eq!(roller.write_until(), until);
}

#[test]
fn batch_checks_rotation_once_then_writes_in_order() {
    let mut roller = LogRoller::new(two_output_config(100), 0);
    let mut flag = RotationFlag::new();
    flag.request();
    let records = vec![
        LogRecord {
            command: LogCommand::Record,
            target: String::from("METRICS"),
            line: line_of(20),
        },
        LogRecord {
            command: LogCommand::Record,
            target: String::from("OTHER"),
            line: line_of(30),
        },
        LogRecord { command: LogCommand::Flush, target: String::new(), line: String::new() },
    ];
    roller.process_batch(&mut flag, &records, 120_000, true);
    assert!(!flag.requested());
    assert_eq!(roller.bytes_written(0), 20);
    // "OTHER" has no file of its own and falls back to the last output.
    assert_eq!(roller.bytes_written(1), 30);
    assert_eq!(roller.file_path(0), "dirA/19700101-0002-app.log");
}

#[test]
fn batch_of_flushes_only_changes_nothing() {
    let mut roller = LogRoller::new(two_output_config(100), 0);
    roller.write_line(&line_of(25), "", 0, true);
    let mut flag = RotationFlag::new();
    let records = vec![
        LogRecord { command: LogCommand::Flush, target: String::new(), line: String::new() },
        LogRecord { command: LogCommand::Shutdown, target: String::new(), line: String::new() },
    ];
    roller.process_batch(&mut flag, &records, 0, true);
    assert_eq!(roller.bytes_written(1), 25);
    assert_eq!(roller.write_until(), 60_000);
}

#[test]
fn routing_picks_exact_category_else_last() {
    let common = CommonConfig {
        log_channel_size: 100,
        log_level: LevelFilter::Info,
        log_path: String::from("logs"),
        alerts_path: String::from("alerts"),
    };
    let roller = LogRoller::new(default_roller_config("inst", &common), 0);
    assert_eq!(roller.file_count(), 4);
    assert_eq!(roller.find_file("METRICS"), 0);
    assert_eq!(roller.find_file("ALERTS"), 1);
    assert_eq!(roller.find_file("NOTIFICATIONS"), 2);
    assert_eq!(roller.find_file(""), 3);
    assert_eq!(roller.find_file("SOMETHING_ELSE"), 3);
    assert_eq!(roller.file_target(1), "ALERTS");
}

#[test]
fn default_config_names_and_limits() {
    let common = CommonConfig {
        log_channel_size: 100,
        log_level: LevelFilter::Info,
        log_path: String::from("logs"),
        alerts_path: String::from("alerts"),
    };
    let config = default_roller_config("inst", &common);
    assert_eq!(config.base_name, "inst");
    assert_eq!(config.roll_size, 2_000_000_000);
    assert_eq!(DEFAULT_ROLL_SIZE, 2_000_000_000);
    assert_eq!(config.roll_interval, 86_400_000);
    assert_eq!(DEFAULT_ROLL_INTERVAL_MILLIS, 86_400_000);
    assert_eq!(config.outputs.len(), 4);
    let paths = config.new_file_paths(0);
    assert_eq!(paths[0], "logs/19700101-0000-inst_metrics.log");
    assert_eq!(paths[1], "alerts/19700101-0000-inst_alerts.log");
    assert_eq!(paths[2], "alerts/19700101-0000-inst_devnotification.log");
    assert_eq!(paths[3], "logs/19700101-0000-inst.log");
}

#[test]
fn roll_time_lands_on_the_next_boundary() {
    let config = two_output_config(100);
    assert_eq!(config.calc_roll_time(0), 60_000);
    assert_eq!(config.calc_roll_time(1), 60_000);
    assert_eq!(config.calc_roll_time(59_999), 60_000);
    assert_eq!(config.calc_roll_time(60_000), 120_000);
}

#[test]
fn rotation_flag_is_observed_once() {
    let mut flag = RotationFlag::new();
    assert!(!flag.requested());
    flag.request();
    assert!(flag.requested());
    let mut flag2 = RotationFlag::new();
    flag2.request();
    assert!(flag2.take_and_clear());
    assert!(!flag2.requested());
    assert!(!flag2.take_and_clear());
}

#[test]
fn rotation_paths_follow_the_minute_stamp() {
    let roller = LogRoller::new(two_output_config(100), 0);
    let paths = roller.rotation_paths(26 * 3_600_000);
    assert_eq!(paths[0], "dirA/19700102-0200-app.log");
    assert_eq!(paths[1], "dirB/19700102-0200-app.log");
}
