use packet_inspector::network_capture::{
    dispatch, frame_reports, report, CaptureEvent, Dispatch, DELIMITER_LEN,
};
use packet_inspector::rule_matcher::MatchEvent;
use packet_inspector::rule_parser::{load_rules, RuleAction, SnortRule};

fn example_rules() -> Vec<SnortRule> {
    load_rules(&["alert tcp any any -> any any", "drop tcp any any -> any 80"]).rules
}

fn frame(protocol: u8, dst_port: u16) -> Vec<u8> {
    let mut data = vec![0u8; 40];
    data[12] = 0x08;
    data[14] = 0x45;
    data[23] = protocol;
    data[26..30].copy_from_slice(&[10, 0, 0, 1]);
    data[30..34].copy_from_slice(&[192, 168, 1, 20]);
    data[34..36].copy_from_slice(&50000u16.to_be_bytes());
    data[36..38].copy_from_slice(&dst_port.to_be_bytes());
    data[38] = b'h';
    data[39] = b'i';
    data
}

const DUMP: &str = "\
0000: 00 00 00 00 00 00 00 00 00 00 00 00 08 00 45 00 ..............E.\n\
0010: 00 00 00 00 00 00 00 06 00 00 0a 00 00 01 c0 a8 ................\n\
0020: 01 14 c3 50 00 50 68 69                         ...P.Phi\n";

fn expected_report(action: &str) -> String {
    format!(
        "Action: {}\nSource IP: 10.0.0.1, Source Port: 50000\n\
         Destination IP: 192.168.1.20, Destination Port: 80\n{}{}\n",
        action,
        DUMP,
        "#".repeat(85)
    )
}

#[test]
fn the_delimiter_has_85_marks() {
    assert_eq!(DELIMITER_LEN, 85);
}

#[test]
fn report_holds_the_metadata_the_dump_and_the_delimiter() {
    let event = MatchEvent {
        action: RuleAction::Drop,
        src_ip: [10, 0, 0, 1],
        src_port: 50000,
        dst_ip: [192, 168, 1, 20],
        dst_port: 80,
    };
    assert_eq!(report(&event, DUMP), expected_report("drop"));
    let event = MatchEvent {
        action: RuleAction::Pass,
        src_ip: [0, 0, 0, 0],
        src_port: 0,
        dst_ip: [255, 255, 255, 255],
        dst_port: 65535,
    };
    assert_eq!(
        report(&event, ""),
        format!(
            "Action: pass\nSource IP: 0.0.0.0, Source Port: 0\n\
             Destination IP: 255.255.255.255, Destination Port: 65535\n{}\n",
            "#".repeat(85)
        )
    );
}

#[test]
fn a_frame_gives_one_report_for_each_match() {
    let rules = example_rules();
    let reports = frame_reports(&rules, &frame(6, 80));
    assert_eq!(reports, vec![expected_report("alert"), expected_report("drop")]);
}

#[test]
fn a_frame_that_matches_one_rule_gives_one_report() {
    let rules = example_rules();
    let reports = frame_reports(&rules, &frame(6, 443));
    assert_eq!(reports.len(), 1);
    assert!(reports[0].starts_with(
        "Action: alert\nSource IP: 10.0.0.1, Source Port: 50000\n\
         Destination IP: 192.168.1.20, Destination Port: 443\n0000: "
    ));
    assert!(reports[0].ends_with(&format!("\n{}\n", "#".repeat(85))));
}

#[test]
fn a_frame_that_matches_nothing_gives_no_report() {
    let rules = example_rules();
    assert_eq!(frame_reports(&rules, &frame(17, 80)), Vec::<String>::new());
    assert_eq!(frame_reports(&[], &frame(6, 80)), Vec::<String>::new());
}

#[test]
fn a_frame_without_headers_is_passed_over() {
    let rules = example_rules();
    assert_eq!(frame_reports(&rules, &[]), Vec::<String>::new());
    assert_eq!(frame_reports(&rules, &frame(6, 80)[..37]), Vec::<String>::new());
    assert_eq!(frame_reports(&rules, &frame(1, 80)), Vec::<String>::new());
    let mut arp = frame(6, 80);
    arp[13] = 0x06;
    assert_eq!(frame_reports(&rules, &arp), Vec::<String>::new());
}

#[test]
fn dispatch_goes_on_after_a_frame() {
    let rules = example_rules();
    let data = frame(6, 80);
    match dispatch(&rules, &CaptureEvent::Frame(&data)) {
        Dispatch::Continue { reports } => {
            assert_eq!(reports, vec![expected_report("alert"), expected_report("drop")]);
        }
        Dispatch::Stop { message } => panic!("stopped: {}", message),
    }
    match dispatch(&rules, &CaptureEvent::Frame(&[1, 2, 3])) {
        Dispatch::Continue { reports } => assert!(reports.is_empty()),
        Dispatch::Stop { message } => panic!("stopped: {}", message),
    }
}

#[test]
fn dispatch_stops_when_the_source_fails() {
    let rules = example_rules();
    match dispatch(&rules, &CaptureEvent::Failed("no more packets to read from the file")) {
        Dispatch::Stop { message } => {
            assert_eq!(message, "Error capturing packet: no more packets to read from the file");
        }
        Dispatch::Continue { .. } => panic!("went on"),
    }
    match dispatch(&[], &CaptureEvent::Failed("")) {
        Dispatch::Stop { message } => assert_eq!(message, "Error capturing packet: "),
        Dispatch::Continue { .. } => panic!("went on"),
    }
}
