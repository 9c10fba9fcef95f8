use native_activity_thread::common::PolicySourceData;
use native_activity_thread::pci_authorizer::{
    BulkAction, EventOutcome, PciAuthState, PciPolicyState, PciServiceEvent, UEventAction,
    UEventInfo,
};
use native_activity_thread::sysfs::{
    authorized_value, is_removable, AuthorizedEntry, SysfsError, SysfsUtils, TbtDeviceEntries,
};

fn step(p: &mut PciPolicyState, e: PciServiceEvent) -> EventOutcome {
    p.handle_service_event(e)
}

#[test]
fn policy_data_starts_restrictive() {
    let d = PolicySourceData::new();
    assert!(!d.pci_tunnels_enabled);
    assert!(d.is_locked);
    assert!(d.logged_in_users.is_empty());
    assert_eq!(PciPolicyState::calculate_auth_state(&d), PciAuthState::Disabled);
    let d = PolicySourceData::default();
    assert!(d.is_locked);
}

#[test]
fn full_authorization_flow_states() {
    let mut p = PciPolicyState::new();
    assert_eq!(p.current_pci_auth_state, PciAuthState::Disabled);
    let o = step(&mut p, PciServiceEvent::EnablePciTunnels(true));
    assert_eq!(p.current_pci_auth_state, PciAuthState::DenyNoUser);
    assert_eq!(o, EventOutcome { keep_running: true, bulk: BulkAction::DeauthorizeAll });
    let o = step(&mut p, PciServiceEvent::UpdateLoggedInState { logged_in: true, user_id: 1 });
    assert_eq!(p.current_pci_auth_state, PciAuthState::DeferNewDevices);
    assert_eq!(o.bulk, BulkAction::Nothing);
    let o = step(&mut p, PciServiceEvent::UpdateLockState(false));
    assert_eq!(p.current_pci_auth_state, PciAuthState::Authorized);
    assert_eq!(o.bulk, BulkAction::AuthorizeAll);
    let o = step(&mut p, PciServiceEvent::UpdateLockState(false));
    assert_eq!(o, EventOutcome { keep_running: true, bulk: BulkAction::Nothing });
}

#[test]
fn deauthorization_flow_states() {
    let mut p = PciPolicyState::new();
    step(&mut p, PciServiceEvent::EnablePciTunnels(true));
    step(&mut p, PciServiceEvent::UpdateLoggedInState { logged_in: true, user_id: 1 });
    step(&mut p, PciServiceEvent::UpdateLockState(false));
    assert_eq!(p.current_pci_auth_state, PciAuthState::Authorized);
    let o = step(&mut p, PciServiceEvent::UpdateLockState(true));
    assert_eq!(p.current_pci_auth_state, PciAuthState::DeferNewDevices);
    assert_eq!(o.bulk, BulkAction::Nothing);
    let o = step(&mut p, PciServiceEvent::UpdateLoggedInState { logged_in: false, user_id: 1 });
    assert_eq!(p.current_pci_auth_state, PciAuthState::DenyNoUser);
    assert_eq!(o.bulk, BulkAction::DeauthorizeAll);
    step(&mut p, PciServiceEvent::UpdateLoggedInState { logged_in: true, user_id: 1 });
    step(&mut p, PciServiceEvent::UpdateLockState(false));
    let o = step(&mut p, PciServiceEvent::EnablePciTunnels(false));
    assert_eq!(p.current_pci_auth_state, PciAuthState::Disabled);
    assert_eq!(o.bulk, BulkAction::DeauthorizeAll);
}

#[test]
fn two_users_must_both_log_out() {
    let mut p = PciPolicyState::new();
    step(&mut p, PciServiceEvent::EnablePciTunnels(true));
    step(&mut p, PciServiceEvent::UpdateLoggedInState { logged_in: true, user_id: 1 });
    step(&mut p, PciServiceEvent::UpdateLoggedInState { logged_in: true, user_id: 2 });
    step(&mut p, PciServiceEvent::UpdateLoggedInState { logged_in: false, user_id: 1 });
    assert_eq!(p.current_pci_auth_state, PciAuthState::DeferNewDevices);
    step(&mut p, PciServiceEvent::UpdateLoggedInState { logged_in: false, user_id: 2 });
    assert_eq!(p.current_pci_auth_state, PciAuthState::DenyNoUser);
}

#[test]
fn shutdown_stops_without_change() {
    let mut p = PciPolicyState::new();
    let o = step(&mut p, PciServiceEvent::Shutdown);
    assert_eq!(o, EventOutcome { keep_running: false, bulk: BulkAction::Nothing });
    assert_eq!(p.current_pci_auth_state, PciAuthState::Disabled);
}

fn authorized_policy() -> PciPolicyState {
    let mut p = PciPolicyState::new();
    step(&mut p, PciServiceEvent::EnablePciTunnels(true));
    step(&mut p, PciServiceEvent::UpdateLoggedInState { logged_in: true, user_id: 1 });
    step(&mut p, PciServiceEvent::UpdateLockState(false));
    p
}

#[test]
fn added_thunderbolt_device_is_authorized() {
    let p = authorized_policy();
    let ev = UEventInfo {
        action: UEventAction::Add,
        devpath: "/devices/pci0000:00/0-1".to_string(),
        subsystem: "thunderbolt".to_string(),
    };
    assert_eq!(p.handle_uevent_result(&ev), Some("/sys/devices/pci0000:00/0-1".to_string()));
    let removed = UEventInfo { action: UEventAction::Remove, ..ev.clone() };
    assert_eq!(p.handle_uevent_result(&removed), None);
    let usb = UEventInfo { subsystem: "usb".to_string(), ..ev.clone() };
    assert_eq!(p.handle_uevent_result(&usb), None);
    let locked = PciPolicyState::new();
    assert_eq!(locked.handle_uevent_result(&ev), None);
}

#[test]
fn uevent_packet_is_parsed_before_deciding() {
    let p = authorized_policy();
    let packet: &[u8] = b"add@/devices/pci0000:00/0-1\0ACTION=add\0DEVPATH=/devices/pci0000:00/0-1\0SUBSYSTEM=thunderbolt\0SEQNUM=12";
    assert_eq!(p.handle_uevent_packet(packet), Some("/sys/devices/pci0000:00/0-1".to_string()));
    let no_seq: &[u8] = b"add@/x\0ACTION=add\0DEVPATH=/x\0SUBSYSTEM=thunderbolt";
    assert_eq!(p.handle_uevent_packet(no_seq), None);
    let tty: &[u8] = b"add@/x\0ACTION=add\0DEVPATH=/x\0SUBSYSTEM=tty\0SEQNUM=1";
    assert_eq!(p.handle_uevent_packet(tty), None);
}

#[test]
fn sysfs_paths_follow_root() {
    let s = SysfsUtils::new();
    assert_eq!(s.tbt_devices_path(), "/sys/bus/thunderbolt/devices");
    assert_eq!(s.pci_devices_path(), "/sys/bus/pci/devices");
    let s = SysfsUtils::with_root_path("/tmp/root".to_string());
    assert_eq!(s.tbt_devices_path(), "/tmp/root/sys/bus/thunderbolt/devices");
    assert_eq!(s.pci_devices_path(), "/tmp/root/sys/bus/pci/devices");
    assert_eq!(SysfsUtils::default(), SysfsUtils::new());
    let s = SysfsUtils::with_root_path(String::new());
    assert_eq!(s.pci_devices_path(), "sys/bus/pci/devices");
}

fn device(authorized: AuthorizedEntry) -> TbtDeviceEntries {
    TbtDeviceEntries {
        exists: true,
        subsystem_target: Some("../../../../bus/thunderbolt".to_string()),
        authorized,
    }
}

#[test]
fn authorization_writes_only_when_needed() {
    let s = SysfsUtils::new();
    let off = device(AuthorizedEntry::Contents("0\n".to_string()));
    let on = device(AuthorizedEntry::Contents("1\n".to_string()));
    let empty = device(AuthorizedEntry::Contents(String::new()));
    assert_eq!(s.authorize_thunderbolt_dev(&off), Ok(true));
    assert_eq!(s.authorize_thunderbolt_dev(&on), Ok(false));
    assert_eq!(s.deauthorize_thunderbolt_dev(&on), Ok(true));
    assert_eq!(s.deauthorize_thunderbolt_dev(&off), Ok(false));
    assert_eq!(s.authorize_thunderbolt_dev(&empty), Ok(true));
    assert_eq!(s.authorize_thunderbolt_dev(&device(AuthorizedEntry::Missing)), Ok(false));
    assert_eq!(authorized_value(true), "1");
    assert_eq!(authorized_value(false), "0");
}

#[test]
fn authorization_errors() {
    let s = SysfsUtils::new();
    let mut gone = device(AuthorizedEntry::Missing);
    gone.exists = false;
    assert_eq!(s.authorize_thunderbolt_dev(&gone), Err(SysfsError::PathNotFound));
    let mut no_link = device(AuthorizedEntry::Missing);
    no_link.subsystem_target = None;
    assert_eq!(s.authorize_thunderbolt_dev(&no_link), Err(SysfsError::SubsystemUnreadable));
    let mut pci = device(AuthorizedEntry::Missing);
    pci.subsystem_target = Some("../../bus/pci".to_string());
    assert_eq!(s.deauthorize_thunderbolt_dev(&pci), Err(SysfsError::NotThunderbolt));
    assert_eq!(
        s.authorize_thunderbolt_dev(&device(AuthorizedEntry::Unreadable)),
        Err(SysfsError::AuthorizedUnreadable)
    );
}

#[test]
fn removable_marks() {
    assert!(is_removable("1"));
    assert!(is_removable(" 1\n"));
    assert!(!is_removable("0"));
    assert!(!is_removable(""));
    assert!(!is_removable("11"));
    assert!(!is_removable("1 x"));
}

#[test]
fn devices_are_authorized_parents_first() {
    let s = SysfsUtils::new();
    let link = |parts: &[&str]| parts.iter().map(|p| p.to_string()).collect::<Vec<String>>();
    let devs = vec![
        (link(&["..", "devices", "0-0", "0-1"]), "/sys/bus/thunderbolt/devices/0-1".to_string()),
        (link(&["..", "devices", "0-0"]), "/sys/bus/thunderbolt/devices/0-0".to_string()),
        (link(&["..", "devices", "0-0", "0-1", "0-301"]), "/sys/bus/thunderbolt/devices/0-301".to_string()),
    ];
    assert_eq!(
        s.authorize_all_devices(devs),
        vec![
            "/sys/bus/thunderbolt/devices/0-0".to_string(),
            "/sys/bus/thunderbolt/devices/0-1".to_string(),
            "/sys/bus/thunderbolt/devices/0-301".to_string(),
        ]
    );
}

#[test]
fn only_removable_pci_devices_are_removed() {
    let s = SysfsUtils::new();
    let pci = vec![
        ("/sys/bus/pci/devices/a".to_string(), "1\n".to_string()),
        ("/sys/bus/pci/devices/b".to_string(), "0\n".to_string()),
        ("/sys/bus/pci/devices/c".to_string(), String::new()),
        ("/sys/bus/pci/devices/d".to_string(), "1".to_string()),
    ];
    assert_eq!(
        s.deauthorize_all_devices(&pci),
        vec!["/sys/bus/pci/devices/a".to_string(), "/sys/bus/pci/devices/d".to_string()]
    );
}
