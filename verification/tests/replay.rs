use radix_engine::replay::{
    hours_minutes_seconds, is_up_to_date, should_report_progress, source_kind, ReplayError,
    TxnSourceKind,
};

#[test]
fn source_kinds() {
    assert_eq!(source_kind(true, false), Ok(TxnSourceKind::TransactionFile));
    assert_eq!(source_kind(false, true), Ok(TxnSourceKind::StateManagerDatabaseDir));
    assert_eq!(source_kind(false, false), Err(ReplayError::InvalidTransactionSource));
}

#[test]
fn up_to_date_versions() {
    assert!(is_up_to_date(10, Some(10)));
    assert!(is_up_to_date(11, Some(10)));
    assert!(!is_up_to_date(9, Some(10)));
    assert!(!is_up_to_date(9, None));
    assert!(is_up_to_date(u64::MAX, None));
}

#[test]
fn progress_reports() {
    assert!(should_report_progress(0));
    assert!(should_report_progress(999));
    assert!(!should_report_progress(1001));
    assert!(should_report_progress(2000));
}

#[test]
fn elapsed_time_split() {
    assert_eq!(hours_minutes_seconds(0), (0, 0, 0));
    assert_eq!(hours_minutes_seconds(3725), (1, 2, 5));
    assert_eq!(hours_minutes_seconds(59), (0, 0, 59));
    assert_eq!(hours_minutes_seconds(90061), (25, 1, 1));
}

#[test]
fn network_choice() {
    let mainnet = "mainnet";
    assert_eq!(radix_engine::replay::choose_network::<&str, String>(None, mainnet), Ok("mainnet"));
    assert_eq!(radix_engine::replay::choose_network::<&str, String>(Some(Ok("stokenet")), mainnet), Ok("stokenet"));
    assert_eq!(
        radix_engine::replay::choose_network::<&str, String>(Some(Err("bad name".to_string())), mainnet),
        Err("bad name".to_string())
    );
}
