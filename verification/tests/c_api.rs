//! What the C interface decides around a session.
use lenny::abi::{
    lenny_abi_version, lenny_control_cmd, lenny_event, lenny_identity, lenny_lens, lenny_lens_caps, lenny_mode,
    lenny_receiver_config, lenny_sender_config, lenny_state, lenny_stream_settings, LENNY_E_INVALID_ARG, LENNY_E_IO,
    LENNY_E_STATE, LENNY_OK,
};
use lenny::c_api::{
    out_or_state, plain_call, receiver_config, sender_config, state_or_closed, token_call, video_call,
};
use lenny::session::state::{sent_code, Role};

fn identity() -> lenny_identity {
    lenny_identity { device_id: [9; 16], device_name: b"Pixel".to_vec(), app_version: b"1.0".to_vec(), platform: 1 }
}

#[test]
fn a_sender_is_made_from_what_c_hands_over() {
    let mode = lenny_mode { width: 1280, height: 720, fps_num: 30, fps_den: 1 };
    let c = lenny_sender_config {
        identity: identity(),
        modes: vec![mode],
        max_bitrate_kbps: 8000,
        controls: 4,
        lenses: vec![
            lenny_lens { lens_id: 0, facing: 1, label: b"Back".to_vec() },
            lenny_lens { lens_id: 7, facing: 0, label: b"Front".to_vec() },
        ],
        exposure_comp_min: -2000,
        exposure_comp_max: 2000,
        exposure_comp_step_milli: 333,
        lens_caps: vec![lenny_lens_caps { modes: vec![mode, mode], zoom_min: 50, zoom_max: 800, zoom_base: 60 }],
    };
    let r = sender_config(&c);
    assert_eq!(r.identity, identity());
    assert_eq!((r.modes, r.max_bitrate_kbps, r.controls), (vec![mode], 8000, 4));
    assert_eq!((r.exposure_comp_min, r.exposure_comp_max, r.exposure_comp_step_milli), (-2000, 2000, 333));
    assert_eq!((r.lenses[0].modes.len(), r.lenses[0].zoom_min, r.lenses[0].zoom_max), (2, 50, 800));
    assert_eq!(r.lenses[0].zoom_base, 60);
    // A lens without capabilities of its own.
    assert_eq!((r.lenses[1].id, r.lenses[1].label.as_slice()), (7, b"Front".as_slice()));
    assert!(r.lenses[1].modes.is_empty() && r.lenses[1].zoom_max == 0);
}

#[test]
fn a_receiver_is_made_from_what_c_hands_over() {
    let preferred = lenny_stream_settings { bitrate_kbps: 8000, ..Default::default() };
    let r = receiver_config(&lenny_receiver_config { identity: identity(), port: 47474, preferred });
    assert_eq!(r.identity, identity());
    assert_eq!((r.port, r.preferred), (47474, preferred));
}

#[test]
fn calls_are_refused_before_they_start() {
    assert_eq!(video_call(None, true), LENNY_E_INVALID_ARG);
    assert_eq!(video_call(Some(Role::Receiver), false), LENNY_E_STATE);
    assert_eq!(video_call(Some(Role::Sender), false), LENNY_E_INVALID_ARG);
    assert_eq!(video_call(Some(Role::Sender), true), LENNY_OK);
    assert_eq!(token_call(Some(Role::Receiver), true), LENNY_OK);
    assert_eq!(token_call(Some(Role::Receiver), false), LENNY_E_INVALID_ARG);
    assert_eq!(token_call(Some(Role::Sender), true), LENNY_E_INVALID_ARG);
    assert_eq!(token_call(None, true), LENNY_E_INVALID_ARG);
    assert_eq!(plain_call(true, true), LENNY_OK);
    assert_eq!(plain_call(true, false), LENNY_E_INVALID_ARG);
    assert_eq!(plain_call(false, true), LENNY_E_INVALID_ARG);
}

#[test]
fn answers_are_handed_out_known_or_not() {
    let mut out = 0;
    assert_eq!(out_or_state((true, 5), &mut out), LENNY_OK);
    assert_eq!(out, 5);
    assert_eq!(out_or_state((false, 6), &mut out), LENNY_E_STATE);
    assert_eq!(out, 6);
    assert_eq!(state_or_closed(None), lenny_state::LENNY_STATE_CLOSED.code());
    assert_eq!(state_or_closed(Some(4)), 4);
    assert_eq!((sent_code(true), sent_code(false)), (LENNY_OK, LENNY_E_IO));
}

#[test]
fn numbers_of_the_interface() {
    assert_eq!(lenny_abi_version(), 0x0001_0003);
    assert_eq!(lenny_event::LENNY_EVENT_CONTROL_ACK.code(), 6);
    assert_eq!(lenny_control_cmd::LENNY_CTL_PAN.code(), 21);
    assert_eq!(lenny_control_cmd::from_code(10), Some(lenny_control_cmd::LENNY_CTL_KEYFRAME_REQUEST));
    assert_eq!(lenny_control_cmd::from_code(22), None);
    assert_eq!(lenny_control_cmd::from_code(9), None);
}
