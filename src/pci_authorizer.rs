//! The PCI authorization state machine: what state the policy inputs put the system in, what a
//! change of state asks of sysfs, and which hot-plugged devices are authorized on arrival.
use vstd::prelude::*;

use crate::common::PolicySourceData;
use kobject_uevent::ActionType;

verus! {

broadcast use vstd::std_specs::hash::group_hash_axioms;

/// The authorization state that the policy inputs decide.
#[derive(Debug, Clone, Copy, PartialEq, Eq, Structural)]
pub enum PciAuthState {
    /// PCI tunnelling is disabled.
    Disabled,
    /// Tunnelling is enabled but no user is logged in.
    DenyNoUser,
    /// Tunnelling is enabled and a user is logged in, but the screen is locked.
    DeferNewDevices,
    /// Tunnelling is enabled, a user is logged in and the screen is unlocked.
    Authorized,
}

/// A change of one policy input, or the request to stop.
#[derive(Debug, Clone, Copy, PartialEq, Eq, Structural)]
pub enum PciServiceEvent {
    EnablePciTunnels(bool),
    UpdateLockState(bool),
    UpdateLoggedInState { logged_in: bool, user_id: usize },
    Shutdown,
}

/// The work on all devices that a change of state asks for.
#[derive(Debug, Clone, Copy, PartialEq, Eq, Structural)]
pub enum BulkAction {
    Nothing,
    AuthorizeAll,
    DeauthorizeAll,
}

/// What handling one event decided.
#[derive(Debug, Clone, Copy, PartialEq, Eq, Structural)]
pub struct EventOutcome {
    /// Whether the event loop goes on.
    pub keep_running: bool,
    pub bulk: BulkAction,
}

/// The kind of a kernel object event.
#[derive(Debug, Clone, Copy, PartialEq, Eq, Structural)]
pub enum UEventAction {
    Add,
    Remove,
    Change,
    Move,
    Online,
    Offline,
    Bind,
    Unbind,
}

/// The parts of a kernel object event that the policy reads.
#[derive(Debug, Clone, PartialEq, Eq)]
pub struct UEventInfo {
    pub action: UEventAction,
    pub devpath: String,
    pub subsystem: String,
}

pub open spec fn auth_state_of(enabled: bool, locked: bool, users: Set<usize>) -> PciAuthState {
    if !enabled {
        PciAuthState::Disabled
    } else if users.is_empty() {
        PciAuthState::DenyNoUser
    } else if locked {
        PciAuthState::DeferNewDevices
    } else {
        PciAuthState::Authorized
    }
}

/// The bulk work when the state goes from `from` to `to`: entering `Authorized` authorizes every
/// device, entering `DenyNoUser` or `Disabled` withdraws every authorization.
pub open spec fn transition_action(from: PciAuthState, to: PciAuthState) -> BulkAction {
    if from == to {
        BulkAction::Nothing
    } else {
        match to {
            PciAuthState::Authorized => BulkAction::AuthorizeAll,
            PciAuthState::DenyNoUser => BulkAction::DeauthorizeAll,
            PciAuthState::Disabled => BulkAction::DeauthorizeAll,
            PciAuthState::DeferNewDevices => BulkAction::Nothing,
        }
    }
}

/// The logged-in users after an event.
pub open spec fn users_after(users: Set<usize>, event: PciServiceEvent) -> Set<usize> {
    match event {
        PciServiceEvent::UpdateLoggedInState { logged_in, user_id } => if logged_in {
            users.insert(user_id)
        } else {
            users.remove(user_id)
        },
        _ => users,
    }
}

/// The sysfs directory of a device, from the kernel's absolute device path.
pub open spec fn sysfs_device_path(devpath: Seq<char>) -> Seq<char> {
    seq!['/', 's', 'y', 's', '/'] + devpath.skip(1)
}

/// The device that an event asks to authorize: a thunderbolt device that is added while the
/// state is `Authorized`. A device path that is not absolute names no device.
pub open spec fn uevent_target(
    state: PciAuthState,
    action: UEventAction,
    devpath: Seq<char>,
    subsystem: Seq<char>,
) -> Option<Seq<char>> {
    if state == PciAuthState::Authorized && subsystem == seq![
        't',
        'h',
        'u',
        'n',
        'd',
        'e',
        'r',
        'b',
        'o',
        'l',
        't',
    ] && action == UEventAction::Add && devpath.len() > 0 && devpath[0] == '/' {
        Some(sysfs_device_path(devpath))
    } else {
        None
    }
}

/// What the kernel's event parser reads from a netlink packet: the action, the device path and
/// the subsystem, or nothing when the packet is not a complete event.
pub uninterp spec fn parsed_uevent(packet: Seq<u8>) -> Option<(UEventAction, Seq<char>, Seq<char>)>;

/// Relies on kobject_uevent::UEvent::from_netlink_packet, which parses a packet of the
/// NETLINK_KOBJECT_UEVENT broadcast; its result depends on the bytes alone.
#[verifier::external_body]
fn parse_netlink_packet(packet: &[u8]) -> (r: Option<UEventInfo>)
    ensures
        match parsed_uevent(packet@) {
            Some((a, d, s)) => r matches Some(u) && u.action == a && u.devpath@ == d
                && u.subsystem@ == s,
            None => r is None,
        },
{
    let e = kobject_uevent::UEvent::from_netlink_packet(packet).ok()?;
    let action = match e.action {
        ActionType::Add => UEventAction::Add,
        ActionType::Remove => UEventAction::Remove,
        ActionType::Change => UEventAction::Change,
        ActionType::Move => UEventAction::Move,
        ActionType::Online => UEventAction::Online,
        ActionType::Offline => UEventAction::Offline,
        ActionType::Bind => UEventAction::Bind,
        ActionType::Unbind => UEventAction::Unbind,
    };
    Some(UEventInfo { action, devpath: e.devpath.to_string_lossy().into_owned(), subsystem: e.subsystem })
}

fn is_thunderbolt(s: &str) -> (r: bool)
    ensures
        r == (s@ == seq!['t', 'h', 'u', 'n', 'd', 'e', 'r', 'b', 'o', 'l', 't']),
{
    proof {
        reveal_strlit("thunderbolt");
    }
    let t = "thunderbolt";
    let n = s.unicode_len();
    if n != 11 {
        return false;
    }
    let mut i: usize = 0;
    while i < 11
        invariant
            n == 11,
            s@.len() == 11,
            t@ == seq!['t', 'h', 'u', 'n', 'd', 'e', 'r', 'b', 'o', 'l', 't'],
            i <= 11,
            forall|j: int| 0 <= j < i ==> s@[j] == t@[j],
        decreases 11 - i,
    {
        if s.get_char(i) != t.get_char(i) {
            return false;
        }
        i = i + 1;
    }
    assert(s@ =~= t@);
    true
}

/// The decision state of the authorizer: the policy inputs and the state they put the system in.
pub struct PciPolicyState {
    pub policy_data: PolicySourceData,
    pub current_pci_auth_state: PciAuthState,
}

impl PciPolicyState {
    /// The state of the given policy inputs.
    pub fn calculate_auth_state(policy_data: &PolicySourceData) -> (r: PciAuthState)
        ensures
            r == auth_state_of(
                policy_data.pci_tunnels_enabled,
                policy_data.is_locked,
                policy_data.logged_in_users@,
            ),
    {
        let allow_flag = policy_data.pci_tunnels_enabled;
        let screen_unlocked = !policy_data.is_locked;
        let has_logged_in_users = !policy_data.logged_in_users.is_empty();
        if !allow_flag {
            PciAuthState::Disabled
        } else if !has_logged_in_users {
            PciAuthState::DenyNoUser
        } else if !screen_unlocked {
            PciAuthState::DeferNewDevices
        } else {
            PciAuthState::Authorized
        }
    }

    /// Starts from the restrictive inputs, in the state they decide.
    pub fn new() -> (r: Self)
        ensures
            !r.policy_data.pci_tunnels_enabled,
            r.policy_data.is_locked,
            r.policy_data.logged_in_users@ == Set::<usize>::empty(),
            r.current_pci_auth_state == PciAuthState::Disabled,
    {
        let policy_data = PolicySourceData::new();
        let current_pci_auth_state = Self::calculate_auth_state(&policy_data);
        PciPolicyState { policy_data, current_pci_auth_state }
    }

    /// Applies an event to the inputs and moves to the state they now decide; a change of state
    /// may ask for bulk work. `Shutdown` changes nothing and stops the loop.
    pub fn handle_service_event(&mut self, event: PciServiceEvent) -> (r: EventOutcome)
        ensures
            event == PciServiceEvent::Shutdown ==> r == (EventOutcome {
                keep_running: false,
                bulk: BulkAction::Nothing,
            }) && final(self).policy_data.pci_tunnels_enabled
                == old(self).policy_data.pci_tunnels_enabled
                && final(self).policy_data.is_locked == old(self).policy_data.is_locked
                && final(self).policy_data.logged_in_users@ == old(
                self,
            ).policy_data.logged_in_users@ && final(self).current_pci_auth_state == old(
                self,
            ).current_pci_auth_state,
            event != PciServiceEvent::Shutdown ==> {
                &&& final(self).policy_data.pci_tunnels_enabled == match event {
                    PciServiceEvent::EnablePciTunnels(e) => e,
                    _ => old(self).policy_data.pci_tunnels_enabled,
                }
                &&& final(self).policy_data.is_locked == match event {
                    PciServiceEvent::UpdateLockState(l) => l,
                    _ => old(self).policy_data.is_locked,
                }
                &&& final(self).policy_data.logged_in_users@ == users_after(
                    old(self).policy_data.logged_in_users@,
                    event,
                )
                &&& final(self).current_pci_auth_state == auth_state_of(
                    final(self).policy_data.pci_tunnels_enabled,
                    final(self).policy_data.is_locked,
                    final(self).policy_data.logged_in_users@,
                )
                &&& r.keep_running
                &&& r.bulk == transition_action(
                    old(self).current_pci_auth_state,
                    final(self).current_pci_auth_state,
                )
            },
    {
        match event {
            PciServiceEvent::EnablePciTunnels(enable) => {
                self.policy_data.pci_tunnels_enabled = enable;
            },
            PciServiceEvent::UpdateLockState(locked) => {
                self.policy_data.is_locked = locked;
            },
            PciServiceEvent::UpdateLoggedInState { logged_in, user_id } => {
                if logged_in {
                    self.policy_data.logged_in_users.insert(user_id);
                } else {
                    self.policy_data.logged_in_users.remove(&user_id);
                }
            },
            PciServiceEvent::Shutdown => {
                return EventOutcome { keep_running: false, bulk: BulkAction::Nothing };
            },
        }
        let old_state = self.current_pci_auth_state;
        let new_state = Self::calculate_auth_state(&self.policy_data);
        if old_state == new_state {
            return EventOutcome { keep_running: true, bulk: BulkAction::Nothing };
        }
        self.current_pci_auth_state = new_state;
        let bulk = match new_state {
            PciAuthState::Authorized => BulkAction::AuthorizeAll,
            PciAuthState::DenyNoUser => BulkAction::DeauthorizeAll,
            PciAuthState::Disabled => BulkAction::DeauthorizeAll,
            PciAuthState::DeferNewDevices => BulkAction::Nothing,
        };
        EventOutcome { keep_running: true, bulk }
    }

    /// The sysfs directory of the device that an event asks to authorize, if any.
    pub fn handle_uevent_result(&self, uevent: &UEventInfo) -> (r: Option<String>)
        ensures
            r is None <==> uevent_target(
                self.current_pci_auth_state,
                uevent.action,
                uevent.devpath@,
                uevent.subsystem@,
            ) is None,
            r matches Some(p) ==> Some(p@) == uevent_target(
                self.current_pci_auth_state,
                uevent.action,
                uevent.devpath@,
                uevent.subsystem@,
            ),
    {
        if self.current_pci_auth_state != PciAuthState::Authorized {
            return None;
        }
        if !is_thunderbolt(uevent.subsystem.as_str()) {
            return None;
        }
        if uevent.action != UEventAction::Add {
            return None;
        }
        let n = uevent.devpath.as_str().unicode_len();
        if n == 0 || uevent.devpath.as_str().get_char(0) != '/' {
            return None;
        }
        proof {
            reveal_strlit("/sys/");
        }
        let mut path = String::from_str("/sys/");
        path.append(uevent.devpath.as_str().substring_char(1, n));
        assert(path@ =~= sysfs_device_path(uevent.devpath@));
        Some(path)
    }

    /// Parses a netlink packet and gives the sysfs directory of the device it asks to
    /// authorize, if any; a packet that is not a complete event asks for nothing.
    pub fn handle_uevent_packet(&self, packet: &[u8]) -> (r: Option<String>)
        ensures
            match parsed_uevent(packet@) {
                Some((a, d, s)) => {
                    &&& r is None <==> uevent_target(self.current_pci_auth_state, a, d, s) is None
                    &&& r matches Some(p) ==> Some(p@) == uevent_target(
                        self.current_pci_auth_state,
                        a,
                        d,
                        s,
                    )
                },
                None => r is None,
            },
    {
        match parse_netlink_packet(packet) {
            Some(uevent) => self.handle_uevent_result(&uevent),
            None => None,
        }
    }
}

} // verus!
