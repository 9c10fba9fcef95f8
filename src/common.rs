//! State shared by the device-authorization policy: the inputs that decide it, and the control
//! interface through which a consumer reports changes of them.
use vstd::prelude::*;
use std::collections::HashSet;

verus! {

/// The live inputs of the authorization policy.
pub struct PolicySourceData {
    /// Whether PCI tunnelling is enabled.
    pub pci_tunnels_enabled: bool,
    /// Whether the screen is locked.
    pub is_locked: bool,
    /// The ids of the users that are logged in.
    pub logged_in_users: HashSet<usize>,
}

impl PolicySourceData {
    /// The restrictive starting point: tunnels disabled, screen locked, nobody logged in.
    pub fn new() -> (r: Self)
        ensures
            !r.pci_tunnels_enabled,
            r.is_locked,
            r.logged_in_users@ == Set::<usize>::empty(),
    {
        PolicySourceData {
            pci_tunnels_enabled: false,
            is_locked: true,
            logged_in_users: HashSet::new(),
        }
    }
}

impl Default for PolicySourceData {
    fn default() -> (r: Self)
        ensures
            !r.pci_tunnels_enabled,
            r.is_locked,
            r.logged_in_users@ == Set::<usize>::empty(),
    {
        Self::new()
    }
}

/// How a consumer tells the policy engine that its inputs changed.
pub trait TunnelControl {
    /// Enables or disables PCI tunnelling.
    fn enable_pci_tunnels(&mut self, enable: bool);

    /// Reports that the screen was locked or unlocked.
    fn update_lock_state(&mut self, locked: bool);

    /// Reports that a user logged in or out.
    fn update_logged_in_state(&mut self, logged_in: bool, user_id: usize);
}

} // verus!
