use indy_api::boundary::{Runtime, SubsystemFailure};
use indy_api::config::RuntimeConfig;
use indy_api::error_code::ErrorCode;
use indy_api::handles::{HandleAllocator, WalletHandle};

fn failure(code: ErrorCode, message: &str, backtrace: Option<&str>) -> SubsystemFailure {
    SubsystemFailure {
        code,
        message: message.as_bytes().to_vec(),
        backtrace: backtrace.map(|b| b.as_bytes().to_vec()),
    }
}

#[test]
fn fresh_thread_sees_empty_record() {
    let rt = Runtime::new();
    assert_eq!(rt.indy_get_current_error(1), b"{\"message\":\"\"}".to_vec());
}

#[test]
fn failures_stay_on_their_own_thread() {
    let mut rt = Runtime::new();
    let (code, _) = rt.wallet_open_complete(2, Err(failure(ErrorCode::WalletAccessFailed, "no access", None)));
    assert_eq!(code, ErrorCode::WalletAccessFailed);
    assert_eq!(rt.indy_get_current_error(1), b"{\"message\":\"\"}".to_vec());
    assert_eq!(
        rt.indy_get_current_error(2),
        b"{\"message\":\"no access\"}".to_vec()
    );
}

#[test]
fn only_the_most_recent_failure_is_visible() {
    let mut rt = Runtime::new();
    rt.wallet_open_complete(5, Err(failure(ErrorCode::CommonIOError, "first", None)));
    rt.wallet_open_complete(5, Err(failure(ErrorCode::WalletNotFoundError, "second", None)));
    assert_eq!(
        rt.indy_get_current_error(5),
        b"{\"message\":\"second\"}".to_vec()
    );
}

#[test]
fn reading_does_not_consume_the_record() {
    let mut rt = Runtime::new();
    rt.wallet_open_complete(5, Err(failure(ErrorCode::CommonIOError, "kept", None)));
    let first = rt.indy_get_current_error(5);
    let second = rt.indy_get_current_error(5);
    assert_eq!(first, second);
    assert_eq!(first, b"{\"message\":\"kept\"}".to_vec());
}

#[test]
fn allocations_are_distinct_and_nonzero() {
    let mut alloc = HandleAllocator::new();
    let mut handles = Vec::new();
    for _ in 0..100 {
        let h = alloc.allocate();
        assert_ne!(h, 0);
        assert!(!handles.contains(&h));
        assert!(alloc.is_live(h));
        handles.push(h);
    }
}

#[test]
fn release_is_idempotent_and_reuse_avoids_live_values() {
    let mut alloc = HandleAllocator::new();
    let h1 = alloc.allocate();
    let h2 = alloc.allocate();
    alloc.release(h1);
    assert!(!alloc.is_live(h1));
    alloc.release(h1);
    assert!(!alloc.is_live(h1));
    assert!(alloc.is_live(h2));
    let h3 = alloc.allocate();
    assert_ne!(h3, 0);
    assert_ne!(h3, h2);
    assert!(alloc.is_live(h3));
}

#[test]
fn releasing_an_unknown_value_is_harmless() {
    let mut alloc = HandleAllocator::new();
    alloc.release(41);
    assert!(!alloc.is_live(41));
    let h = alloc.allocate();
    assert_ne!(h, 0);
}

#[test]
fn wallet_open_and_close_scenario() {
    let mut rt = Runtime::new();
    let (code, h1) = rt.wallet_open_complete(1, Ok(()));
    assert_eq!(code, ErrorCode::Success);
    assert_ne!(h1, WalletHandle(0));
    assert!(rt.wallets.is_live(h1.0));

    assert_eq!(rt.wallet_close(1, h1), ErrorCode::Success);
    assert!(!rt.wallets.is_live(h1.0));

    let (code2, h2) = rt.wallet_open_complete(1, Ok(()));
    assert_eq!(code2, ErrorCode::Success);
    assert_ne!(h2, WalletHandle(0));
    assert!(rt.wallets.is_live(h2.0));
}

#[test]
fn closing_a_dead_handle_yields_the_wallet_code() {
    let mut rt = Runtime::new();
    let (_, h1) = rt.wallet_open_complete(1, Ok(()));
    assert_eq!(rt.wallet_close(1, h1), ErrorCode::Success);
    assert_eq!(rt.wallet_close(1, h1), ErrorCode::WalletInvalidHandle);
    assert_eq!(
        rt.indy_get_current_error(1),
        b"{\"message\":\"invalid wallet handle\"}".to_vec()
    );
}

#[test]
fn absent_arguments_get_positional_codes_and_no_side_effect() {
    let mut rt = Runtime::new();
    let creds = b"{}".to_vec();
    let conf = b"{}".to_vec();
    assert_eq!(
        rt.wallet_open_request(1, None, Some(creds.as_slice())),
        Err(ErrorCode::CommonInvalidParam1)
    );
    assert_eq!(
        rt.wallet_open_request(1, Some(conf.as_slice()), None),
        Err(ErrorCode::CommonInvalidParam2)
    );
    assert_eq!(rt.wallet_open_request(1, Some(conf.as_slice()), Some(creds.as_slice())), Ok(()));
    let (_, h) = rt.wallet_open_complete(1, Ok(()));
    assert_eq!(h, WalletHandle(1));
}

#[test]
fn backtraces_stay_absent_while_capture_is_off() {
    let mut rt = Runtime::new();
    for k in 0..100 {
        let tid = (k % 7) as u64;
        rt.wallet_open_complete(
            tid,
            Err(failure(ErrorCode::CommonIOError, "boom", Some("trace text"))),
        );
        let payload = rt.indy_get_current_error(tid);
        assert_eq!(payload, b"{\"message\":\"boom\"}".to_vec());
    }
}

#[test]
fn backtraces_appear_once_capture_is_on() {
    let mut rt = Runtime::new();
    let conf = b"{\"collect_backtrace\": true}".to_vec();
    assert_eq!(rt.indy_set_runtime_config(1, Some(conf.as_slice())), ErrorCode::Success);
    rt.wallet_open_complete(
        1,
        Err(failure(ErrorCode::CommonIOError, "boom", Some("trace text"))),
    );
    assert_eq!(
        rt.indy_get_current_error(1),
        b"{\"backtrace\":\"trace text\",\"message\":\"boom\"}".to_vec()
    );
}

#[test]
fn diagnostics_are_escaped() {
    let mut rt = Runtime::new();
    rt.wallet_open_complete(
        1,
        Err(failure(
            ErrorCode::CommonIOError,
            "say \"hi\" \\ twice\nplease\u{1}",
            None,
        )),
    );
    assert_eq!(
        rt.indy_get_current_error(1),
        b"{\"message\":\"say \\\"hi\\\" \\\\ twice\\nplease\\u0001\"}".to_vec()
    );
}

#[test]
fn set_runtime_config_boundary_codes() {
    let mut rt = Runtime::new();
    assert_eq!(rt.indy_set_runtime_config(1, None), ErrorCode::CommonInvalidParam1);
    let bad = b"oops".to_vec();
    assert_eq!(
        rt.indy_set_runtime_config(1, Some(bad.as_slice())),
        ErrorCode::CommonInvalidStructure
    );
    assert_eq!(
        rt.indy_get_current_error(1),
        b"{\"message\":\"invalid runtime configuration\"}".to_vec()
    );
    let good = b"{\"crypto_thread_pool_size\": 8}".to_vec();
    assert_eq!(rt.indy_set_runtime_config(1, Some(good.as_slice())), ErrorCode::Success);
    assert_eq!(rt.config.crypto_thread_pool_size, 8);
    assert!(!rt.config.collect_backtrace);
}

#[test]
fn a_successful_call_keeps_the_prior_diagnostic() {
    let mut rt = Runtime::new();
    rt.wallet_open_complete(9, Err(failure(ErrorCode::CommonIOError, "kept", None)));
    let conf = b"{}".to_vec();
    assert_eq!(rt.indy_set_runtime_config(9, Some(conf.as_slice())), ErrorCode::Success);
    assert_eq!(rt.indy_get_current_error(9), b"{\"message\":\"kept\"}".to_vec());
}

#[test]
fn config_defaults_and_empty_object() {
    let mut c = RuntimeConfig::new();
    assert_eq!(c.crypto_thread_pool_size, 4);
    assert!(!c.collect_backtrace);
    assert_eq!(c.apply(b"{}"), ErrorCode::Success);
    assert_eq!(c.crypto_thread_pool_size, 4);
    assert!(!c.collect_backtrace);

    assert_eq!(c.apply(b"{\"crypto_thread_pool_size\": 9, \"collect_backtrace\": true}"), ErrorCode::Success);
    assert_eq!(c.apply(b"  { }  "), ErrorCode::Success);
    assert_eq!(c.crypto_thread_pool_size, 9);
    assert!(c.collect_backtrace);
}

#[test]
fn config_rejects_what_is_not_json() {
    let mut c = RuntimeConfig::new();
    assert_eq!(c.apply(b"not json"), ErrorCode::CommonInvalidStructure);
    assert_eq!(c.crypto_thread_pool_size, 4);
    assert!(!c.collect_backtrace);
}

#[test]
fn config_accepts_each_field_independently() {
    let mut c = RuntimeConfig::new();
    assert_eq!(c.apply(b"{\"collect_backtrace\": true}"), ErrorCode::Success);
    assert_eq!(c.crypto_thread_pool_size, 4);
    assert!(c.collect_backtrace);
    assert_eq!(c.apply(b"{\"crypto_thread_pool_size\": 16}"), ErrorCode::Success);
    assert_eq!(c.crypto_thread_pool_size, 16);
    assert!(c.collect_backtrace);
}

#[test]
fn config_tolerates_unknown_members_and_whitespace() {
    let mut c = RuntimeConfig::new();
    assert_eq!(
        c.apply(b" { \"plugin\" : null , \"collect_backtrace\" : false , \"label\" : \"x\" , \"retries\" : 3 } "),
        ErrorCode::Success
    );
    assert_eq!(c.crypto_thread_pool_size, 4);
    assert!(!c.collect_backtrace);
}

#[test]
fn config_rejects_wrong_shapes() {
    let mut c = RuntimeConfig::new();
    assert_eq!(c.apply(b""), ErrorCode::CommonInvalidStructure);
    assert_eq!(c.apply(b"[]"), ErrorCode::CommonInvalidStructure);
    assert_eq!(c.apply(b"{"), ErrorCode::CommonInvalidStructure);
    assert_eq!(c.apply(b"{} trailing"), ErrorCode::CommonInvalidStructure);
    assert_eq!(
        c.apply(b"{\"collect_backtrace\": 1}"),
        ErrorCode::CommonInvalidStructure
    );
    assert_eq!(
        c.apply(b"{\"crypto_thread_pool_size\": true}"),
        ErrorCode::CommonInvalidStructure
    );
    assert_eq!(
        c.apply(b"{\"crypto_thread_pool_size\": -1}"),
        ErrorCode::CommonInvalidStructure
    );
    assert_eq!(
        c.apply(b"{\"crypto_thread_pool_size\": 99999999999}"),
        ErrorCode::CommonInvalidStructure
    );
    assert_eq!(c.crypto_thread_pool_size, 4);
    assert!(!c.collect_backtrace);
}

#[test]
fn config_unknown_members_may_hold_any_json_value() {
    let mut c = RuntimeConfig::new();
    assert_eq!(
        c.apply(b"{\"future_option\": [1, 2], \"collect_backtrace\": true}"),
        ErrorCode::Success
    );
    assert!(c.collect_backtrace);
    assert_eq!(
        c.apply(
            b"{\"a\": {\"b\": [true, null, \"x\\\"y\", -1.5e3, 0.25]}, \"crypto_thread_pool_size\": 5}"
        ),
        ErrorCode::Success
    );
    assert_eq!(c.crypto_thread_pool_size, 5);
    assert_eq!(c.apply(b"{\"note\": \"say \\\"hi\\\" \\u0041\"}"), ErrorCode::Success);
}

#[test]
fn config_nesting_is_bounded() {
    let mut shallow = b"{\"x\": ".to_vec();
    shallow.extend(std::iter::repeat(b'[').take(50));
    shallow.extend(std::iter::repeat(b']').take(50));
    shallow.push(b'}');
    let mut deep = b"{\"x\": ".to_vec();
    deep.extend(std::iter::repeat(b'[').take(300));
    deep.extend(std::iter::repeat(b']').take(300));
    deep.push(b'}');
    let mut c = RuntimeConfig::new();
    assert_eq!(c.apply(&shallow), ErrorCode::Success);
    assert_eq!(c.apply(&deep), ErrorCode::CommonInvalidStructure);
}

#[test]
fn config_rejects_malformed_numbers() {
    let mut c = RuntimeConfig::new();
    assert_eq!(c.apply(b"{\"x\": 007}"), ErrorCode::CommonInvalidStructure);
    assert_eq!(c.apply(b"{\"x\": 1.}"), ErrorCode::CommonInvalidStructure);
    assert_eq!(c.apply(b"{\"x\": 1e}"), ErrorCode::CommonInvalidStructure);
    assert_eq!(c.apply(b"{\"x\": -}"), ErrorCode::CommonInvalidStructure);
    assert_eq!(
        c.apply(b"{\"crypto_thread_pool_size\": 1e3}"),
        ErrorCode::CommonInvalidStructure
    );
}

#[test]
fn config_pool_size_fits_thirty_two_bits() {
    let mut c = RuntimeConfig::new();
    assert_eq!(
        c.apply(b"{\"crypto_thread_pool_size\": 4294967295}"),
        ErrorCode::Success
    );
    assert_eq!(c.crypto_thread_pool_size, u32::MAX);
    assert_eq!(
        c.apply(b"{\"crypto_thread_pool_size\": 4294967296}"),
        ErrorCode::CommonInvalidStructure
    );
    assert_eq!(c.crypto_thread_pool_size, u32::MAX);
    assert_eq!(c.apply(b"{\"crypto_thread_pool_size\": 0}"), ErrorCode::Success);
    assert_eq!(c.crypto_thread_pool_size, 0);
}

#[test]
fn config_last_duplicate_wins() {
    let mut c = RuntimeConfig::new();
    assert_eq!(
        c.apply(b"{\"crypto_thread_pool_size\": 2, \"crypto_thread_pool_size\": 6}"),
        ErrorCode::Success
    );
    assert_eq!(c.crypto_thread_pool_size, 6);
}
