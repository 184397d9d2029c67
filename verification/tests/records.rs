use amibuf::member::{MemberBusy, MemberRingninuse, QueueMember, Status};
use amibuf::agent::{AgentDump, AgentLogin, AgentLogoff, AgenteCalled};
use amibuf::writer::BufWriter;

#[test]
fn status_known_codes() {
    assert_eq!(Status::NotInUse, Status::from("1"));
    assert_eq!(Status::InUse, Status::from("2"));
    assert_eq!(Status::Busy, Status::from("3"));
    assert_eq!(Status::Invalid, Status::from("4"));
    assert_eq!(Status::Unavailable, Status::from("5"));
    assert_eq!(Status::Ringing, Status::from("6"));
    assert_eq!(Status::RingingAndInUse, Status::from("7"));
    assert_eq!(Status::OnHold, Status::from("8"));
}

#[test]
fn status_unknown_codes() {
    assert_eq!(Status::Unknown, Status::from("0"));
    assert_eq!(Status::Unknown, Status::from("9"));
    assert_eq!(Status::Unknown, Status::from(""));
    assert_eq!(Status::Unknown, Status::from("10"));
    assert_eq!(Status::Unknown, Status::from("x"));
    assert_eq!(Status::Unknown, Status::default());
}

#[test]
fn queue_member_holds_fields() {
    let member = QueueMember {
        queue: String::from("support"),
        interface: String::from("PJSIP/100"),
        member_name: String::from("alex"),
        status: Status::from("2"),
        log_in_time: String::from("12345"),
        last_call: 10,
        last_pause: 0,
        calls_taken: 3,
        in_call: true,
        ring_in_use: false,
        pause_reason: String::new(),
        paused: false,
    };
    assert_eq!(Status::InUse, member.status);
    assert_eq!(3, member.calls_taken);
    assert!(member.in_call && !member.paused);
}

#[test]
fn member_records_hold_fields() {
    let ringing = MemberRingninuse {
        queue: String::from("support"),
        interface: String::from("PJSIP/100"),
        member_name: String::from("alex"),
        position: 2,
        caller_id: String::from("555"),
        caller_name: String::from("caller"),
    };
    let busy = MemberBusy {
        queue: ringing.queue.clone(),
        interface: ringing.interface.clone(),
        member_name: ringing.member_name.clone(),
        position: ringing.position,
        caller_id: ringing.caller_id.clone(),
        caller_name: ringing.caller_name.clone(),
    };
    assert_eq!(ringing.position, busy.position);
    assert_eq!("support", busy.queue.as_str());
}

#[test]
fn agent_records_hold_fields() {
    let called = AgenteCalled {
        queue: String::from("support"),
        member_name: String::from("alex"),
        interface: String::from("PJSIP/100"),
        caller_unique_id: String::from("uid-1"),
        caller_id_num: String::from("555"),
        caller_id_name: String::from("caller"),
        dest_unique_id: String::from("uid-2"),
        dest_caller_id_num: String::from("100"),
        dest_caller_id_name: String::from("alex"),
        dest_connected_line_num: String::from("555"),
        dest_connected_line_name: String::from("caller"),
    };
    let dump = AgentDump {
        queue: called.queue.clone(),
        member_name: called.member_name.clone(),
        interface: called.interface.clone(),
        caller_unique_id: called.caller_unique_id.clone(),
        caller_id_num: called.caller_id_num.clone(),
        caller_id_name: called.caller_id_name.clone(),
        dest_caller_id_num: called.dest_caller_id_num.clone(),
        dest_caller_id_name: called.dest_caller_id_name.clone(),
        dest_unique_id: called.dest_unique_id.clone(),
    };
    let _login = AgentLogin {};
    let _logoff = AgentLogoff;
    assert_eq!("uid-1", dump.caller_unique_id.as_str());
    assert_eq!("support", called.queue.as_str());
}

#[test]
fn writer_stages_and_takes() {
    let mut writer: BufWriter<Vec<u8>> = BufWriter::new(Vec::new());
    writer.write_buffered(&[1u8, 2, 3]).unwrap();
    writer.write_buffered(&[4u8]).unwrap();
    let staged = writer.take_buffered().unwrap();
    assert_eq!(&[1u8, 2, 3, 4][..], staged.as_slice());
    assert!(writer.take_buffered().is_none());
}
