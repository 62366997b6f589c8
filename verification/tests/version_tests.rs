use libhi::{library_version, next_action, parse_version, registration_result, ApiResult, LoopAction, ReceiveOutcome};

#[test]
fn library_version_is_parsed() {
    assert_eq!(library_version(), ("0.1.0", 0, 1, 0));
}

#[test]
fn parse_version_cases() {
    assert_eq!(parse_version("1.2.3"), (1, 2, 3));
    assert_eq!(parse_version("10"), (10, 0, 0));
    assert_eq!(parse_version(""), (0, 0, 0));
    assert_eq!(parse_version("a.b.c"), (0, 0, 0));
    assert_eq!(parse_version("1.-2.+3"), (1, -2, 3));
    assert_eq!(parse_version("2147483648.1.1"), (0, 1, 1));
    assert_eq!(parse_version("-2147483648.2147483647"), (i32::MIN, i32::MAX, 0));
    assert_eq!(parse_version("1..3.4"), (1, 0, 3));
    assert_eq!(parse_version("1.2.3-beta"), (1, 2, 0));
    assert_eq!(parse_version("+.-.7"), (0, 0, 7));
    assert_eq!(parse_version("007.0.99999999999999999999"), (7, 0, 0));
}

#[test]
fn api_result_codes() {
    assert_eq!(ApiResult::Success.code(), 0);
    assert_eq!(ApiResult::GenericError.code(), -1);
    assert_eq!(ApiResult::NullHandleError.code(), -2);
    assert_eq!(ApiResult::InvalidArgument.code(), -3);
    assert_eq!(ApiResult::MutexFailError.code(), -4);
}

#[test]
fn loop_decisions() {
    for stop in [Some(false), None] {
        for handler in [true, false] {
            assert_eq!(next_action(ReceiveOutcome::Handled, stop, handler), LoopAction::Continue);
        }
    }
    assert_eq!(next_action(ReceiveOutcome::Handled, Some(true), true), LoopAction::Stop);
    assert_eq!(next_action(ReceiveOutcome::Handled, Some(true), false), LoopAction::Stop);
    assert_eq!(next_action(ReceiveOutcome::Failed, Some(true), true), LoopAction::Stop);
    assert_eq!(next_action(ReceiveOutcome::Failed, Some(false), true), LoopAction::ReportError);
    assert_eq!(next_action(ReceiveOutcome::Failed, Some(false), false), LoopAction::Continue);
    assert_eq!(next_action(ReceiveOutcome::Failed, None, true), LoopAction::Continue);
    assert_eq!(next_action(ReceiveOutcome::NothingRead, Some(true), false), LoopAction::Stop);
    assert_eq!(next_action(ReceiveOutcome::NothingRead, Some(false), true), LoopAction::Continue);
    assert_eq!(next_action(ReceiveOutcome::NothingRead, None, true), LoopAction::Continue);
}

#[test]
fn registration_outcomes() {
    assert_eq!(registration_result(false, true, true), ApiResult::InvalidArgument);
    assert_eq!(registration_result(false, false, false), ApiResult::InvalidArgument);
    assert_eq!(registration_result(true, false, true), ApiResult::NullHandleError);
    assert_eq!(registration_result(true, true, true), ApiResult::Success);
    assert_eq!(registration_result(true, true, false), ApiResult::MutexFailError);
    assert_eq!(registration_result(true, true, false).code(), -4);
}
