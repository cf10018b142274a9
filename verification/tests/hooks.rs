use cand::can::{CanAddr, CanPacket};
use cand::hook::control::{
    parse_address, parse_hex_byte, parse_payload, process_control_message, split_words,
    ControlError,
};
use cand::hook::{
    bytes_equal, child_command, format_hex, format_payload, match_packet_against_config,
    ChildCommand, Hook, Hooks, Job, Step,
};

fn packet(src: (u8, u8), dest: (u8, u8), payload: &[u8]) -> CanPacket {
    CanPacket::new(
        CanAddr::new(src.0, src.1).unwrap(),
        CanAddr::new(dest.0, dest.1).unwrap(),
        payload.to_vec(),
    )
    .unwrap()
}

fn any_hook() -> Hook {
    Hook {
        src_addr: None,
        src_port: None,
        dst_addr: None,
        dst_port: None,
        payload: None,
        run: vec!["/bin/echo".to_string(), "hi".to_string()],
        cooldown: None,
        delay: None,
    }
}

fn echo_command(p: &CanPacket) -> ChildCommand {
    child_command(&any_hook(), p).unwrap()
}

#[test]
fn hook_without_fields_admits_every_frame() {
    assert!(match_packet_against_config(&packet((1, 2), (3, 4), &[]), &any_hook()));
    assert!(match_packet_against_config(&packet((0xff, 0x3f), (0, 0), &[1, 2, 3]), &any_hook()));
}

#[test]
fn hook_fields_must_all_be_met() {
    let p = packet((1, 2), (3, 4), &[0xde, 0xad]);
    let exact = Hook {
        src_addr: Some(1),
        src_port: Some(2),
        dst_addr: Some(3),
        dst_port: Some(4),
        payload: Some(vec![0xde, 0xad]),
        ..any_hook()
    };
    assert!(match_packet_against_config(&p, &exact));
    assert!(!match_packet_against_config(&p, &Hook { src_addr: Some(9), ..exact.clone() }));
    assert!(!match_packet_against_config(&p, &Hook { src_port: Some(9), ..exact.clone() }));
    assert!(!match_packet_against_config(&p, &Hook { dst_addr: Some(9), ..exact.clone() }));
    assert!(!match_packet_against_config(&p, &Hook { dst_port: Some(9), ..exact.clone() }));
    assert!(!match_packet_against_config(&p, &Hook { payload: Some(vec![0xde]), ..exact.clone() }));
    assert!(!match_packet_against_config(
        &p,
        &Hook { payload: Some(vec![0xde, 0xae]), ..exact.clone() }
    ));
    assert!(!match_packet_against_config(&p, &Hook { payload: Some(vec![]), ..exact.clone() }));
    assert_eq!(exact.clone(), exact);
}

#[test]
fn byte_strings_are_compared_byte_for_byte() {
    assert!(bytes_equal(&[], &[]));
    assert!(bytes_equal(&[1, 2], &[1, 2]));
    assert!(!bytes_equal(&[1, 2], &[1, 3]));
    assert!(!bytes_equal(&[1, 2], &[1]));
}

#[test]
fn frame_sets_off_the_rules_that_admit_it() {
    let hooks = Hooks::new(vec![
        Hook { dst_addr: Some(0x42), ..any_hook() },
        Hook { dst_addr: Some(0x43), ..any_hook() },
        any_hook(),
    ]);
    assert_eq!(hooks.len(), 3);
    let jobs = hooks.process_hooks(&packet((1, 2), (0x42, 4), &[]), 17);
    assert_eq!(jobs, vec![Job { hook: 0, admitted_at: 17 }, Job { hook: 2, admitted_at: 17 }]);
    let none = Hooks::new(vec![Hook { dst_addr: Some(0x43), ..any_hook() }]);
    assert_eq!(none.process_hooks(&packet((1, 2), (0x42, 4), &[]), 17), vec![]);
}

#[test]
fn cooldown_suppresses_the_second_of_two_close_frames() {
    let mut hooks = Hooks::new(vec![Hook {
        dst_addr: Some(0x42),
        cooldown: Some(1000),
        ..any_hook()
    }]);
    let p = packet((1, 2), (0x42, 4), &[]);
    let mut ran_at = Vec::new();
    for now in [0u64, 500, 1500] {
        for job in hooks.process_hooks(&p, now) {
            match hooks.advance(job, &p, now) {
                Step::Run(command) => {
                    assert_eq!(command, echo_command(&p));
                    ran_at.push(now);
                }
                Step::Suppressed => {}
                other => panic!("another step: {:?}", other),
            }
        }
    }
    assert_eq!(ran_at, vec![0, 1500]);
}

#[test]
fn cooldown_ends_exactly_after_its_time() {
    let mut hooks = Hooks::new(vec![Hook { cooldown: Some(1000), ..any_hook() }]);
    assert!(hooks.try_activate(0, 10));
    assert!(!hooks.try_activate(0, 10));
    assert!(!hooks.try_activate(0, 1009));
    assert!(hooks.try_activate(0, 1010));
    assert!(!hooks.try_activate(0, 2009));
    assert!(hooks.try_activate(0, u64::MAX));
    assert!(!hooks.try_activate(0, u64::MAX));
}

#[test]
fn rule_without_cooldown_always_runs() {
    let mut hooks = Hooks::new(vec![any_hook()]);
    assert!(hooks.try_activate(0, 5));
    assert!(hooks.try_activate(0, 5));
    assert!(hooks.try_activate(0, 6));
}

#[test]
fn rules_rest_apart_from_each_other() {
    let mut hooks = Hooks::new(vec![
        Hook { cooldown: Some(1000), ..any_hook() },
        Hook { cooldown: Some(1000), ..any_hook() },
    ]);
    assert!(hooks.try_activate(0, 0));
    assert!(hooks.try_activate(1, 1));
    assert!(!hooks.try_activate(0, 999));
    assert!(hooks.try_activate(0, 1000));
    assert!(!hooks.try_activate(1, 1000));
}

#[test]
fn delayed_run_waits_for_what_is_left() {
    let mut hooks = Hooks::new(vec![Hook { delay: Some(200), ..any_hook() }]);
    let p = packet((1, 2), (3, 4), &[]);
    let job = Job { hook: 0, admitted_at: 1000 };
    assert_eq!(hooks.advance(job, &p, 1000), Step::Wait(200));
    assert_eq!(hooks.advance(job, &p, 1199), Step::Wait(1));
    assert_eq!(hooks.advance(job, &p, 1200), Step::Run(echo_command(&p)));
}

#[test]
fn delay_beyond_the_end_of_time_waits_to_the_end() {
    let mut hooks = Hooks::new(vec![Hook { delay: Some(u64::MAX), ..any_hook() }]);
    let p = packet((1, 2), (3, 4), &[]);
    let job = Job { hook: 0, admitted_at: 10 };
    assert_eq!(hooks.advance(job, &p, 11), Step::Wait(u64::MAX - 11));
}

#[test]
fn delayed_run_can_still_be_suppressed() {
    let mut hooks = Hooks::new(vec![Hook { delay: Some(100), cooldown: Some(1000), ..any_hook() }]);
    let p = packet((1, 2), (3, 4), &[]);
    let first = Job { hook: 0, admitted_at: 0 };
    let second = Job { hook: 0, admitted_at: 50 };
    assert_eq!(hooks.advance(first, &p, 100), Step::Run(echo_command(&p)));
    assert_eq!(hooks.advance(second, &p, 150), Step::Suppressed);
}

#[test]
fn rule_without_program_runs_nothing() {
    let mut hooks = Hooks::new(vec![Hook { run: vec![], ..any_hook() }]);
    let p = packet((1, 2), (3, 4), &[]);
    assert_eq!(hooks.advance(Job { hook: 0, admitted_at: 0 }, &p, 0), Step::NoProgram);
    assert_eq!(child_command(&Hook { run: vec![], ..any_hook() }, &p), None);
}

#[test]
fn program_gets_the_frame_in_its_environment() {
    let p = packet((0x01, 0x02), (0xa3, 0x3f), &[0xde, 0xad, 0xbe, 0xef]);
    let hook = Hook {
        run: vec!["prog".to_string(), "-a".to_string(), "b c".to_string()],
        ..any_hook()
    };
    let command = child_command(&hook, &p).unwrap();
    assert_eq!(command.program, "prog");
    assert_eq!(command.args, vec!["-a".to_string(), "b c".to_string()]);
    let env: Vec<(&str, &str)> =
        command.env.iter().map(|(k, v)| (k.as_str(), v.as_str())).collect();
    assert_eq!(
        env,
        vec![
            ("CAN_SRC_ADDR", "1"),
            ("CAN_DST_ADDR", "a3"),
            ("CAN_SRC_PORT", "2"),
            ("CAN_DST_PORT", "3f"),
            ("CAN_PAYLOAD", "deadbeef"),
        ]
    );
}

#[test]
fn hexadecimal_is_lowercase_without_leading_zero() {
    assert_eq!(format_hex(0), "0");
    assert_eq!(format_hex(9), "9");
    assert_eq!(format_hex(0x0a), "a");
    assert_eq!(format_hex(0x10), "10");
    assert_eq!(format_hex(0xff), "ff");
    for x in 0..=255u8 {
        assert_eq!(format_hex(x), format!("{:x}", x));
    }
    assert_eq!(format_payload(&[]), "");
    assert_eq!(format_payload(&[0x0a, 0x01, 0xf0]), "a1f0");
}

#[test]
fn send_with_a_source() {
    let sent = process_control_message(b"send -s 01:02 03:04 deadbeef");
    assert_eq!(sent, Ok(packet((1, 2), (3, 4), &[0xde, 0xad, 0xbe, 0xef])));
    let long = process_control_message(b"send --source 01:02 03:04 deadbeef");
    assert_eq!(long, sent);
}

#[test]
fn send_without_a_source_comes_from_zero() {
    assert_eq!(
        process_control_message(b"send ff:3f DEADbeef00112233"),
        Ok(packet((0, 0), (0xff, 0x3f), &[0xde, 0xad, 0xbe, 0xef, 0x00, 0x11, 0x22, 0x33]))
    );
    assert_eq!(process_control_message(b"send 3:4 "), Ok(packet((0, 0), (3, 4), &[])));
}

#[test]
fn line_that_is_no_send_is_unknown() {
    assert_eq!(process_control_message(b""), Err(ControlError::UnknownCommand));
    assert_eq!(process_control_message(b"sent 03:04 00"), Err(ControlError::UnknownCommand));
    assert_eq!(process_control_message(b" send 03:04 00"), Err(ControlError::UnknownCommand));
    assert_eq!(process_control_message(b"SEND 03:04 00"), Err(ControlError::UnknownCommand));
}

#[test]
fn send_needs_destination_and_payload() {
    assert_eq!(process_control_message(b"send"), Err(ControlError::MissingArgument));
    assert_eq!(process_control_message(b"send 03:04"), Err(ControlError::MissingArgument));
    assert_eq!(process_control_message(b"send -s"), Err(ControlError::MissingArgument));
    assert_eq!(process_control_message(b"send -s 01:02 03:04"), Err(ControlError::MissingArgument));
}

#[test]
fn send_takes_nothing_more() {
    assert_eq!(process_control_message(b"send 03:04 00 11"), Err(ControlError::UnexpectedArgument));
    assert_eq!(process_control_message(b"send  03:04 00"), Err(ControlError::UnexpectedArgument));
    assert_eq!(
        process_control_message(b"send -s 01:02 03:04 00 "),
        Err(ControlError::UnexpectedArgument)
    );
}

#[test]
fn address_must_be_node_and_port_in_hexadecimal() {
    for line in [
        &b"send 0304 00"[..],
        b"send 03: 00",
        b"send :04 00",
        b"send 03:04:05 00",
        b"send 0g:04 00",
        b"send 003:04 00",
        b"send 03:40 00",
        b"send -s 01:ff 03:04 00",
        b"send -s x 03:04 00",
    ] {
        assert_eq!(process_control_message(line), Err(ControlError::InvalidAddress));
    }
}

#[test]
fn payload_must_be_up_to_eight_bytes_of_hexadecimal() {
    for line in [
        &b"send 03:04 abc"[..],
        b"send 03:04 zz",
        b"send 03:04 001122334455667788",
        b"send 03:04 0x12",
    ] {
        assert_eq!(process_control_message(line), Err(ControlError::InvalidPayload));
    }
}

#[test]
fn address_is_refused_before_payload() {
    assert_eq!(process_control_message(b"send 0304 zz"), Err(ControlError::InvalidAddress));
}

#[test]
fn words_stand_between_spaces() {
    assert_eq!(split_words(b""), vec![Vec::<u8>::new()]);
    assert_eq!(split_words(b"a"), vec![b"a".to_vec()]);
    assert_eq!(split_words(b"ab  c "), vec![b"ab".to_vec(), vec![], b"c".to_vec(), vec![]]);
}

#[test]
fn parts_of_a_command_are_parsed() {
    assert_eq!(parse_hex_byte(b"7"), Some(7));
    assert_eq!(parse_hex_byte(b"fF"), Some(255));
    assert_eq!(parse_hex_byte(b""), None);
    assert_eq!(parse_hex_byte(b"100"), None);
    assert_eq!(parse_address(b"a:3f"), CanAddr::new(10, 0x3f));
    assert_eq!(parse_address(b"a:40"), None);
    assert_eq!(parse_payload(b"0aFf"), Some(vec![0x0a, 0xff]));
    assert_eq!(parse_payload(b""), Some(vec![]));
    assert_eq!(parse_payload(b"0"), None);
}
