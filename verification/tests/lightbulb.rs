use music_lights::capture::{STEP_NORMAL, STEP_PULSE};
use music_lights::color::RGBColor;
use music_lights::lightbulb::{
    discovery_message, is_parsable, ConnectAction, LightBulb, LightBulbModes, MusicStartStep,
    SwitchPlan,
};
use music_lights::provider::{Answer, BulbRegistry};

const ANNOUNCE: &str = "HTTP/1.1 200 OK\r\nCache-Control: max-age=3600\r\nDate: \r\nExt: \r\nLocation: yeelight://192.168.1.239:55443\r\nServer: POSIX UPnP/1.0 YGLC/1\r\nid: 0x000000000015243f\r\nmodel: color\r\nfw_ver: 18\r\n";

fn s(b: &[u8]) -> String {
    String::from_utf8(b.to_vec()).unwrap()
}

#[test]
fn parses_announcement() {
    assert!(is_parsable(ANNOUNCE));
    let lb = LightBulb::parse_with_port_offset(ANNOUNCE, 3);
    assert_eq!(s(lb.id()), "0x000000000015243f");
    assert_eq!(s(lb.ip()), "192.168.1.239:55443");
    assert_eq!(lb.music_mode_port(), 1491);
    assert_eq!(lb.current_state(), LightBulbModes::NoneMode);
}

#[test]
fn parse_draws_port_in_range() {
    for _ in 0..50 {
        let lb = LightBulb::parse(ANNOUNCE);
        assert!(lb.music_mode_port() >= 1488 && lb.music_mode_port() < 1498);
        assert_eq!(s(lb.ip()), "192.168.1.239:55443");
    }
}

#[test]
fn parse_with_trailing_zero_bytes() {
    let mut text = String::from(ANNOUNCE);
    text.push_str("\0\0\0\0");
    assert!(is_parsable(&text));
    let lb = LightBulb::parse_with_port_offset(&text, 0);
    assert_eq!(s(lb.id()), "0x000000000015243f");
}

#[test]
fn later_header_wins_and_first_two_lines_are_skipped() {
    let text = "id: skipped\nLocation: x://skipped\nid: first\r\nLocation: y://1.2.3.4:1\r\nid: second\r\n";
    let lb = LightBulb::parse_with_port_offset(text, 0);
    assert_eq!(s(lb.id()), "second");
    assert_eq!(s(lb.ip()), "1.2.3.4:1");
}

#[test]
fn value_loses_its_last_character() {
    // no carriage return: the last character of the value goes
    let text = "a\nb\nid: abc\nLocation: //host\n";
    let lb = LightBulb::parse_with_port_offset(text, 0);
    assert_eq!(s(lb.id()), "ab");
    assert_eq!(s(lb.ip()), "hos");
    // a multi-byte last character goes whole
    let text = "a\nb\nid: abé\nLocation: //host\n";
    let lb = LightBulb::parse_with_port_offset(text, 0);
    assert_eq!(s(lb.id()), "ab");
}

#[test]
fn unparsable_announcements() {
    // a single line
    assert!(!is_parsable("HTTP/1.1 200 OK"));
    // no id
    assert!(!is_parsable("a\nb\nLocation: //h\r\n"));
    // no Location
    assert!(!is_parsable("a\nb\nid: 1\r\n"));
    // Location without //
    assert!(!is_parsable("a\nb\nLocation: h\r\nid: 1\r\n"));
    // nothing after the colon
    assert!(!is_parsable("a\nb\nid: 1\r\nLocation: //h\r\nbad:"));
    // a multi-byte character right after the colon
    assert!(!is_parsable("a\nb\nid: 1\r\nLocation: //h\r\nbad:é\r\n"));
}

#[test]
fn commands_are_framed() {
    let c = LightBulb::set_color_command(RGBColor::new(1, 2, 3), 350);
    assert_eq!(s(&c), "{\"id\":3,\"method\":\"set_rgb\",\"params\":[66051, \"smooth\", 350]}\r\n");
    let c = LightBulb::set_hsv_command(300, 70);
    assert_eq!(s(&c), "{\"id\":3,\"method\":\"set_hsv\",\"params\":[300, 70,\"smooth\", 100]}\r\n");
    let c = LightBulb::set_brightness_command(0, 200);
    assert_eq!(s(&c), "{\"id\":3,\"method\":\"set_bright\",\"params\":[0,\"smooth\", 200]}\r\n");
    let c = LightBulb::music_off_command();
    assert_eq!(s(&c), "{\"id\":1,\"method\":\"set_music\",\"params\":[0]}\r\n");
    let lb = LightBulb::parse_with_port_offset(ANNOUNCE, 9);
    assert_eq!(
        s(&lb.music_on_command()),
        "{\"id\":1,\"method\":\"set_music\",\"params\":[1, \"192.168.0.133\", 1497]}\r\n"
    );
    assert_eq!(s(&lb.music_listen_address()), "192.168.0.133:1497");
    assert_eq!(
        s(&discovery_message()),
        "M-SEARCH * HTTP/1.1\r\nMAN: \"ssdp:discover\"\r\nST: wifi_bulb\r\n"
    );
}

#[test]
fn ping_host_drops_the_port() {
    let lb = LightBulb::parse_with_port_offset(ANNOUNCE, 0);
    assert_eq!(s(&lb.ping_host()), "192.168.1.239");
    let lb = LightBulb::parse_with_port_offset("a\nb\nid: 1\r\nLocation: //10.0.0.2\r\n", 0);
    assert_eq!(s(&lb.ping_host()), "10.0.0.2");
}

#[test]
fn connection_decisions() {
    let mut lb = LightBulb::parse_with_port_offset(ANNOUNCE, 0);
    assert_eq!(lb.connect_action(true), ConnectAction::Connect);
    assert!(lb.music_mode_needed());
    lb.mark_connected();
    assert_eq!(lb.current_state(), LightBulbModes::StandartMode);
    assert_eq!(lb.connect_action(true), ConnectAction::KeepConnection);
    assert_eq!(lb.connect_action(false), ConnectAction::Connect);
    assert!(lb.needs_mode_change(LightBulbModes::MusicMode));
    lb.mark_music_mode();
    assert!(!lb.music_mode_needed());
    assert!(!lb.needs_mode_change(LightBulbModes::MusicMode));
    assert_eq!(lb.connect_action(true), ConnectAction::Connect);
    assert_eq!(LightBulb::switch_plan(LightBulbModes::MusicMode), SwitchPlan::StartMusicModeUntilOk);
    assert_eq!(LightBulb::switch_plan(LightBulbModes::StandartMode), SwitchPlan::Connect);
    assert_eq!(LightBulb::switch_plan(LightBulbModes::NoneMode), SwitchPlan::Connect);
    assert_eq!(LightBulb::init_plan(), SwitchPlan::StartMusicModeUntilOk);
}

#[test]
fn ping_verdict() {
    assert!(Answer::from_pings(b"a".to_vec(), &[true, true, true, true]).result());
    assert!(Answer::from_pings(b"a".to_vec(), &[false, true, false, true]).result());
    assert!(!Answer::from_pings(b"a".to_vec(), &[false, false, false, true]).result());
    assert!(!Answer::from_pings(b"a".to_vec(), &[false, false, false, false]).result());
    assert_eq!(Answer::from_pings(b"xy".to_vec(), &[]).id(), &b"xy".to_vec());
}

#[test]
fn registry_keeps_ids_unique() {
    let mut r: BulbRegistry<u32> = BulbRegistry::new();
    assert_eq!(r.len(), 0);
    assert!(r.insert_new(b"a".to_vec(), 1));
    assert!(r.insert_new(b"b".to_vec(), 2));
    assert!(!r.insert_new(b"a".to_vec(), 3));
    assert_eq!(r.len(), 2);
    assert_eq!(r.get(b"a"), Some(&1));
    assert_eq!(r.get(b"c"), None);
    assert!(r.contains(b"b"));
    assert_eq!(r.ids(), vec![b"a".to_vec(), b"b".to_vec()]);
}

#[test]
fn registry_drops_dead_bulbs() {
    let mut r: BulbRegistry<u32> = BulbRegistry::new();
    r.insert_new(b"a".to_vec(), 1);
    r.insert_new(b"b".to_vec(), 2);
    r.insert_new(b"c".to_vec(), 3);
    let answers = vec![
        Answer::from_pings(b"a".to_vec(), &[true, true, true, true]),
        Answer::from_pings(b"b".to_vec(), &[false, false, false, false]),
        Answer::from_pings(b"zz".to_vec(), &[false, false, false, false]),
    ];
    assert!(r.remove_dead(&answers));
    assert_eq!(r.ids(), vec![b"a".to_vec(), b"c".to_vec()]);
    let all_alive = vec![Answer::from_pings(b"a".to_vec(), &[true, true, true, true])];
    assert!(!r.remove_dead(&all_alive));
    assert_eq!(r.len(), 2);
}

#[test]
fn wheel_steps() {
    assert_eq!(STEP_NORMAL, 2);
    assert_eq!(STEP_PULSE, 129);
}

#[test]
fn music_start_failures() {
    assert!(!LightBulb::music_start_failure_aborts(MusicStartStep::Connect));
    assert!(LightBulb::music_start_failure_aborts(MusicStartStep::Listen));
    assert!(LightBulb::music_start_failure_aborts(MusicStartStep::MusicOff));
    assert!(!LightBulb::music_start_failure_aborts(MusicStartStep::MusicOn));
    assert!(LightBulb::music_start_failure_aborts(MusicStartStep::Accept));
    assert!(LightBulb::music_start_failure_aborts(MusicStartStep::CloseOld));
}
