use u2f_nfc_bridge::apdu::{apdu_select, parse_response};
use u2f_nfc_bridge::bridge::{
    classify_relay_error, dispatch, error_from_code, relay_reply, search_step, Action, Error,
    RelayAction, SearchAction,
};
use u2f_nfc_bridge::codec::{HidMessage, BROADCAST_CID, CMD_ERROR, CMD_INIT, CMD_MSG};

#[test]
fn select_apdu_bytes_are_fixed() {
    assert_eq!(
        apdu_select(),
        vec![0x00, 0xa4, 0x04, 0x00, 0x08, 0xa0, 0x00, 0x00, 0x06, 0x47, 0x2f, 0x00, 0x01]
    );
}

#[test]
fn success_status_yields_payload() {
    let resp = [0x01, 0x02, 0x03, 0x90, 0x00];
    assert_eq!(parse_response(&resp), Ok(&resp[0..3]));
}

#[test]
fn success_status_with_empty_payload() {
    let resp = [0x90, 0x00];
    assert_eq!(parse_response(&resp), Ok(&resp[0..0]));
}

#[test]
fn failure_status_is_returned_as_code() {
    let resp = [0x01, 0x02, 0x69, 0x85];
    assert_eq!(parse_response(&resp), Err(0x6985));
}

#[test]
fn init_request_echoes_nonce_and_appends_capabilities() {
    let nonce = [0x01, 0x02, 0x03, 0x04, 0x05, 0x06, 0x07, 0x08];
    let msg = HidMessage { cid: BROADCAST_CID, cmd: CMD_INIT, data: nonce.to_vec() };
    match dispatch(msg) {
        Action::InitReply(reply) => {
            assert_eq!(reply.cid, BROADCAST_CID);
            assert_eq!(reply.cmd, CMD_INIT);
            assert_eq!(&reply.data[0..8], &nonce);
            assert_eq!(
                &reply.data[8..],
                &[0xaa, 0xbb, 0xcc, 0xdd, 0x01, 0x01, 0x00, 0x00, 0x00]
            );
        }
        _ => panic!("INIT on the broadcast channel must be answered locally"),
    }
}

#[test]
fn msg_command_is_relayed_as_opaque_apdu() {
    let msg = HidMessage { cid: 0x1234, cmd: CMD_MSG, data: vec![9, 9, 9] };
    match dispatch(msg) {
        Action::Relay { cid, apdu } => {
            assert_eq!(cid, 0x1234);
            assert_eq!(apdu, vec![9, 9, 9]);
        }
        _ => panic!("MSG must be relayed"),
    }
}

#[test]
fn unknown_command_draws_the_fixed_error_reply() {
    let msg = HidMessage { cid: 0x1234, cmd: 0x10, data: vec![] };
    match dispatch(msg) {
        Action::ErrorReply(reply) => {
            assert_eq!(reply.cid, 0x1234);
            assert_eq!(reply.cmd, CMD_ERROR);
            assert_eq!(reply.data, vec![0x01]);
        }
        _ => panic!("unknown commands draw the error reply"),
    }
}

#[test]
fn init_command_off_broadcast_is_unknown() {
    let msg = HidMessage { cid: 0x77, cmd: CMD_INIT, data: vec![0; 8] };
    match dispatch(msg) {
        Action::ErrorReply(reply) => {
            assert_eq!(reply.cid, 0x77);
            assert_eq!(reply.cmd, CMD_ERROR);
        }
        _ => panic!("INIT away from the broadcast channel is not understood"),
    }
}

#[test]
fn relay_reply_carries_raw_response() {
    let reply = relay_reply(0x55, &[0xde, 0xad]);
    assert_eq!(reply.cid, 0x55);
    assert_eq!(reply.cmd, CMD_MSG);
    assert_eq!(reply.data, vec![0xde, 0xad]);
}

#[test]
fn rf_transmission_error_ends_the_session() {
    assert_eq!(classify_relay_error(Error::RfTransmissionError), RelayAction::EndSession);
}

#[test]
fn device_chip_error_retries_the_exchange() {
    assert_eq!(classify_relay_error(Error::DeviceChipError), RelayAction::RetryExchange);
}

#[test]
fn other_relay_errors_are_fatal() {
    assert_eq!(classify_relay_error(Error::IoError), RelayAction::Fatal);
    assert_eq!(classify_relay_error(Error::TargetReleased), RelayAction::Fatal);
    assert_eq!(classify_relay_error(Error::TimedOut), RelayAction::Fatal);
}

#[test]
fn select_success_connects() {
    assert_eq!(search_step(&Ok(vec![0x01, 0x90, 0x00])), SearchAction::Connect);
}

#[test]
fn select_timeout_polls_again() {
    assert_eq!(search_step(&Err(Error::TimedOut)), SearchAction::TryAgain);
}

#[test]
fn select_bad_status_polls_again() {
    assert_eq!(search_step(&Ok(vec![0x69, 0x85])), SearchAction::TryAgain);
    assert_eq!(search_step(&Ok(vec![0x90])), SearchAction::TryAgain);
}

#[test]
fn select_other_errors_are_fatal() {
    assert_eq!(search_step(&Err(Error::NoSuchDevice)), SearchAction::Fatal);
}

#[test]
fn every_native_code_maps_to_its_condition() {
    assert_eq!(error_from_code(-1), Some(Error::IoError));
    assert_eq!(error_from_code(-2), Some(Error::InvalidArgument));
    assert_eq!(error_from_code(-3), Some(Error::NotSupported));
    assert_eq!(error_from_code(-4), Some(Error::NoSuchDevice));
    assert_eq!(error_from_code(-5), Some(Error::BufferOverflow));
    assert_eq!(error_from_code(-6), Some(Error::TimedOut));
    assert_eq!(error_from_code(-7), Some(Error::Aborted));
    assert_eq!(error_from_code(-8), Some(Error::NotImplemented));
    assert_eq!(error_from_code(-10), Some(Error::TargetReleased));
    assert_eq!(error_from_code(-20), Some(Error::RfTransmissionError));
    assert_eq!(error_from_code(-30), Some(Error::MifareAuthenticationFailed));
    assert_eq!(error_from_code(-80), Some(Error::SoftwareError));
    assert_eq!(error_from_code(-90), Some(Error::DeviceChipError));
}

#[test]
fn codes_outside_the_closed_set_map_to_none() {
    assert_eq!(error_from_code(0), None);
    assert_eq!(error_from_code(-9), None);
    assert_eq!(error_from_code(-100), None);
    assert_eq!(error_from_code(1), None);
}

#[test]
fn conditions_carry_diagnostic_messages() {
    assert_eq!(Error::TimedOut.message(), "Operation timed out");
    assert_eq!(Error::RfTransmissionError.message(), "RF transmission error");
    assert!(!Error::DeviceChipError.message().is_empty());
}
