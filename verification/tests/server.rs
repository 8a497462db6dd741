use bottomless_harness::options::{
    s3_settings, CompressionKind, EncryptionConfig, Options, Patience,
};
use bottomless_harness::server::{
    configure_server, failed_step, judge_interrupted_start, judge_timeout, StartOutcome,
    StartProblem, TimeoutProblem,
};
use bottomless_harness::stall::{StallAction, StallServer, StallState};
use std::sync::Arc;

const PATIENT: Patience = Patience {
    max_retries: 10,
    read_timeout_secs: 5,
    connect_timeout_secs: 5,
};

#[test]
fn backup_options() {
    let options = Options::for_backup(
        "testbackuprestore",
        "testbackuprestore",
        "http://127.0.0.1:9000",
        PATIENT,
    );
    let by_hand = Options {
        db_id: Some("testbackuprestore".to_string()),
        create_bucket_if_not_exists: true,
        verify_crc: true,
        use_compression: CompressionKind::Gzip,
        encryption_config: None,
        aws_endpoint: Some("http://127.0.0.1:9000".to_string()),
        access_key_id: Some("bar".to_string()),
        secret_access_key: Some("foo".to_string()),
        session_token: None,
        region: Some("us-east-1".to_string()),
        bucket_name: "testbackuprestore".to_string(),
        max_frames_per_batch: 10000,
        max_batch_interval_millis: 250,
        s3_max_parallelism: 32,
        s3_max_retries: 10,
        s3_read_timeout_secs: 5,
        s3_connect_timeout_secs: 5,
        skip_snapshot: false,
        skip_shutdown_upload: false,
    };
    assert_eq!(options, by_hand);
    assert_eq!(options.clone(), by_hand);
    assert!(options.without_shutdown_upload().skip_shutdown_upload);
}

#[test]
fn probe_options() {
    let options = Options::for_probe(
        "http://192.0.2.1:12345",
        Patience {
            max_retries: 1,
            read_timeout_secs: 60,
            connect_timeout_secs: 2,
        },
    );
    assert_eq!(options.db_id, None);
    assert_eq!(
        options.aws_endpoint,
        Some("http://192.0.2.1:12345".to_string())
    );
    assert_eq!(options.access_key_id, Some("test".to_string()));
    assert_eq!(options.secret_access_key, Some("test".to_string()));
    assert_eq!(options.bucket_name, "test-bucket");
    assert_eq!(options.s3_max_retries, 1);
    assert_eq!(options.s3_read_timeout_secs, 60);
    assert_eq!(options.s3_connect_timeout_secs, 2);
}

#[test]
fn store_settings() {
    let settings = s3_settings("http://127.0.0.1:9000/");
    assert_eq!(settings.endpoint, "http://127.0.0.1:9000/");
    assert!(settings.force_path_style);
    assert_eq!(settings.region, "us-east-1");
    assert_eq!(settings.access_key_id, "bar");
    assert_eq!(settings.secret_access_key, "foo");
    assert_eq!(settings.session_token, None);
    assert_eq!(settings.provider, "Static");
}

#[test]
fn server_configuration() {
    let options = Options::for_backup("db", "bucket", "http://127.0.0.1:9000", PATIENT);
    let server = configure_server(&options, 4, "backup_restore.sqld");
    assert_eq!(server.db_config.bottomless_replication, Some(options));
    assert_eq!(server.db_config.max_log_size, 809_200);
    assert_eq!(server.db_config.max_response_size, 40_960_000_000);
    assert_eq!(server.db_config.max_total_response_size, 40_960_000_000);
    assert_eq!(server.db_config.checkpoint_interval_secs, Some(3));
    assert_eq!(server.db_config.max_concurrent_requests, 128);
    assert!(!server.db_config.snapshot_at_shutdown);
    assert_eq!(server.user_api_config.http_acceptor, Some(4));
    assert_eq!(server.user_api_config.hrana_ws_acceptor, None);
    assert!(!server.user_api_config.auth_required);
    assert_eq!(server.path, "backup_restore.sqld");
    assert!(server.disable_namespaces);
    assert!(!server.disable_default_namespace);
    assert_eq!(server.max_active_namespaces, 100);
}

#[test]
fn all_settings_of_the_replicator_are_passed_on() {
    for use_compression in [
        CompressionKind::Uncompressed,
        CompressionKind::Gzip,
        CompressionKind::Zstd,
    ] {
        let options = Options {
            use_compression,
            encryption_config: Some(EncryptionConfig {
                cipher: "aes256cbc".to_string(),
                encryption_key: Arc::new(vec![0, 1, 255]),
            }),
            session_token: Some("token".to_string()),
            skip_snapshot: true,
            ..Options::for_backup("db", "bucket", "http://127.0.0.1:9000", PATIENT)
        };
        let server = configure_server(&options, 0, "p");
        assert_eq!(server.db_config.encryption_config, None);
        assert_eq!(server.db_config.bottomless_replication, Some(options));
    }
}

#[test]
fn failed_steps_are_named() {
    assert_eq!(
        failed_step(4, "address in use"),
        "Failed step 4: address in use"
    );
}

#[test]
fn an_interrupted_start_has_to_fail_quickly() {
    assert_eq!(
        judge_interrupted_start(StartOutcome::Failed, 59_999),
        Ok(())
    );
    assert_eq!(
        judge_interrupted_start(StartOutcome::Failed, 60_000),
        Err(StartProblem::Slow)
    );
    assert_eq!(
        judge_interrupted_start(StartOutcome::Started, 1),
        Err(StartProblem::Started)
    );
    assert_eq!(
        judge_interrupted_start(StartOutcome::TimedOut, 30_000),
        Err(StartProblem::Hung)
    );
}

#[test]
fn a_request_without_an_answer_has_to_time_out() {
    assert_eq!(judge_timeout(true, 2_000), Ok(()));
    assert_eq!(judge_timeout(true, 60_000), Err(TimeoutProblem::Slow));
    assert_eq!(judge_timeout(false, 10), Err(TimeoutProblem::Answered));
}

#[test]
fn a_stalling_connection_reads_once_and_sleeps() {
    let (action, mut state) = StallState::Accepted.step();
    assert_eq!(action, StallAction::Read { limit: 1024 });
    for _ in 0..5 {
        let (action, next) = state.step();
        assert_eq!(action, StallAction::Sleep { secs: 60 });
        state = next;
    }
}

#[test]
fn a_stalling_server_takes_everyone_and_answers_no_one() {
    let mut server = StallServer::new();
    let first = server.accept();
    assert_eq!(first, 0);
    assert_eq!(server.step(first), StallAction::Read { limit: 1024 });
    assert_eq!(server.step(first), StallAction::Sleep { secs: 60 });
    // a client that comes while the first one is stalled is taken too
    let second = server.accept();
    assert_eq!(second, 1);
    assert_eq!(server.step(first), StallAction::Sleep { secs: 60 });
    assert_eq!(server.step(second), StallAction::Read { limit: 1024 });
    for _ in 0..3 {
        assert_eq!(server.step(first), StallAction::Sleep { secs: 60 });
        assert_eq!(server.step(second), StallAction::Sleep { secs: 60 });
    }
}
