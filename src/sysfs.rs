//! Decisions on the sysfs entries of thunderbolt and PCI devices. The caller reads the entries
//! and writes what these functions decide; paths are plain strings.
use vstd::prelude::*;

verus! {

/// `rel` appended to `base` as a path: an absolute `rel` replaces `base`, and a separator is put
/// between the two unless `base` is empty or already ends with one.
pub open spec fn path_join(base: Seq<char>, rel: Seq<char>) -> Seq<char> {
    if rel.len() > 0 && rel[0] == '/' {
        rel
    } else if base.len() == 0 || base.last() == '/' {
        base + rel
    } else {
        base + seq!['/'] + rel
    }
}

pub open spec fn ends_with(s: Seq<char>, suffix: Seq<char>) -> bool {
    suffix.len() <= s.len() && s.subrange(s.len() - suffix.len(), s.len() as int) == suffix
}

/// The characters that Rust's `char::is_whitespace` accepts (Unicode White_Space).
pub open spec fn is_white(c: char) -> bool {
    ('\u{9}' <= c && c <= '\u{d}') || c == ' ' || c == '\u{85}' || c == '\u{a0}' || c
        == '\u{1680}' || ('\u{2000}' <= c && c <= '\u{200a}') || c == '\u{2028}' || c
        == '\u{2029}' || c == '\u{202f}' || c == '\u{205f}' || c == '\u{3000}'
}

/// The contents of a PCI device's `removable` entry mark it removable: "1", with nothing but
/// white space around it.
pub open spec fn marks_removable(s: Seq<char>) -> bool {
    exists|i: int|
        0 <= i < s.len() && s[i] == '1' && forall|j: int|
            0 <= j < s.len() && j != i ==> is_white(#[trigger] s[j])
}

/// What reading a device's `authorized` entry gave.
#[derive(Debug, Clone, PartialEq, Eq)]
pub enum AuthorizedEntry {
    /// The entry does not exist.
    Missing,
    /// The entry exists but could not be read.
    Unreadable,
    /// The entry's contents.
    Contents(String),
}

/// What was read of a thunderbolt device directory before its authorization is set.
#[derive(Debug, Clone, PartialEq, Eq)]
pub struct TbtDeviceEntries {
    /// Whether the directory exists.
    pub exists: bool,
    /// Where its `subsystem` link points, if it could be read.
    pub subsystem_target: Option<String>,
    pub authorized: AuthorizedEntry,
}

/// Why a device's authorization could not be set.
#[derive(Debug, Clone, Copy, PartialEq, Eq, Structural)]
pub enum SysfsError {
    /// The device directory does not exist.
    PathNotFound,
    /// The `subsystem` link could not be read.
    SubsystemUnreadable,
    /// The device does not belong to the thunderbolt bus.
    NotThunderbolt,
    /// The `authorized` entry could not be read.
    AuthorizedUnreadable,
}

pub open spec fn thunderbolt_bus_suffix() -> Seq<char> {
    seq!['/', 'b', 'u', 's', '/', 't', 'h', 'u', 'n', 'd', 'e', 'r', 'b', 'o', 'l', 't']
}

/// The character that stands for an authorization in the `authorized` entry.
pub open spec fn authorized_char(enable: bool) -> char {
    if enable {
        '1'
    } else {
        '0'
    }
}

/// Whether the `authorized` entry must be written to reach `enable`, or why it cannot be: a
/// missing entry needs nothing, and neither does one that already starts with the wanted value;
/// an empty one is written.
pub open spec fn authorization_decision(dev: TbtDeviceEntries, enable: bool) -> Result<
    bool,
    SysfsError,
> {
    if !dev.exists {
        Err(SysfsError::PathNotFound)
    } else {
        match dev.subsystem_target {
            None => Err(SysfsError::SubsystemUnreadable),
            Some(t) => if !ends_with(t@, thunderbolt_bus_suffix()) {
                Err(SysfsError::NotThunderbolt)
            } else {
                match dev.authorized {
                    AuthorizedEntry::Missing => Ok(false),
                    AuthorizedEntry::Unreadable => Err(SysfsError::AuthorizedUnreadable),
                    AuthorizedEntry::Contents(c) => Ok(
                        c@.len() == 0 || c@[0] != authorized_char(enable),
                    ),
                }
            },
        }
    }
}

fn ends_with_exec(s: &str, suffix: &str) -> (r: bool)
    ensures
        r == ends_with(s@, suffix@),
{
    let n = s.unicode_len();
    let m = suffix.unicode_len();
    if m > n {
        return false;
    }
    let mut i: usize = 0;
    while i < m
        invariant
            n == s@.len(),
            m == suffix@.len(),
            m <= n,
            i <= m,
            forall|j: int| 0 <= j < i ==> s@[n - m + j] == suffix@[j],
        decreases m - i,
    {
        if s.get_char(n - m + i) != suffix.get_char(i) {
            assert(s@.subrange(n - m, n as int)[i as int] != suffix@[i as int]);
            return false;
        }
        i = i + 1;
    }
    assert(s@.subrange(n - m, n as int) =~= suffix@);
    true
}

fn is_white_exec(c: char) -> (r: bool)
    ensures
        r == is_white(c),
{
    ('\u{9}' <= c && c <= '\u{d}') || c == ' ' || c == '\u{85}' || c == '\u{a0}' || c
        == '\u{1680}' || ('\u{2000}' <= c && c <= '\u{200a}') || c == '\u{2028}' || c
        == '\u{2029}' || c == '\u{202f}' || c == '\u{205f}' || c == '\u{3000}'
}

/// Whether a PCI device's `removable` entry marks it removable.
pub fn is_removable(contents: &str) -> (r: bool)
    ensures
        r == marks_removable(contents@),
{
    let n = contents.unicode_len();
    let mut one: Option<usize> = None;
    let mut i: usize = 0;
    while i < n
        invariant
            n == contents@.len(),
            i <= n,
            one matches Some(k) ==> k < i && contents@[k as int] == '1',
            forall|j: int|
                0 <= j < i && !(one matches Some(k) && j == k) ==> is_white(#[trigger] contents@[j]),
        decreases n - i,
    {
        let c = contents.get_char(i);
        if !is_white_exec(c) {
            if c == '1' && one.is_none() {
                one = Some(i);
            } else {
                proof {
                    if marks_removable(contents@) {
                        let k = choose|k: int|
                            0 <= k < contents@.len() && contents@[k] == '1' && forall|j: int|
                                0 <= j < contents@.len() && j != k ==> is_white(
                                    #[trigger] contents@[j],
                                );
                        if k != i {
                            assert(is_white(contents@[i as int]));
                        }
                        match one {
                            Some(o) => {
                                assert(o != k ==> is_white(contents@[o as int]));
                                assert(!is_white('1'));
                            },
                            None => {},
                        }
                    }
                }
                return false;
            }
        }
        i = i + 1;
    }
    match one {
        Some(k) => {
            assert(contents@[k as int] == '1');
            true
        },
        None => {
            proof {
                if marks_removable(contents@) {
                    let k = choose|k: int|
                        0 <= k < contents@.len() && contents@[k] == '1' && forall|j: int|
                            0 <= j < contents@.len() && j != k ==> is_white(
                                #[trigger] contents@[j],
                            );
                    assert(is_white(contents@[k]));
                }
            }
            false
        },
    }
}

/// Locations of the device directories in sysfs.
#[derive(Debug, Clone, PartialEq, Eq)]
pub struct SysfsUtils {
    tbt_devices_path: String,
    pci_devices_path: String,
}

pub open spec fn tbt_devices_rel() -> Seq<char> {
    seq!['s', 'y', 's', '/', 'b', 'u', 's', '/', 't', 'h', 'u', 'n', 'd', 'e', 'r', 'b', 'o', 'l', 't', '/', 'd', 'e', 'v', 'i', 'c', 'e', 's']
}

pub open spec fn pci_devices_rel() -> Seq<char> {
    seq!['s', 'y', 's', '/', 'b', 'u', 's', '/', 'p', 'c', 'i', '/', 'd', 'e', 'v', 'i', 'c', 'e', 's']
}

fn join_exec(base: &str, rel: &str) -> (r: String)
    requires
        rel@.len() > 0,
        rel@[0] != '/',
    ensures
        r@ == path_join(base@, rel@),
{
    let n = base.unicode_len();
    let mut r = String::from_str(base);
    if n > 0 && base.get_char(n - 1) != '/' {
        proof {
            reveal_strlit("/");
        }
        r.append("/");
    }
    r.append(rel);
    r
}

impl SysfsUtils {
    pub closed spec fn spec_tbt_devices_path(&self) -> Seq<char> {
        self.tbt_devices_path@
    }

    pub closed spec fn spec_pci_devices_path(&self) -> Seq<char> {
        self.pci_devices_path@
    }

    /// Paths under the root directory `/`.
    pub fn new() -> (r: Self)
        ensures
            r.spec_tbt_devices_path() == path_join(seq!['/'], tbt_devices_rel()),
            r.spec_pci_devices_path() == path_join(seq!['/'], pci_devices_rel()),
    {
        proof {
            reveal_strlit("/");
        }
        Self::with_root_path(String::from_str("/"))
    }

    /// Paths under the directory `root`.
    pub fn with_root_path(root: String) -> (r: Self)
        ensures
            r.spec_tbt_devices_path() == path_join(root@, tbt_devices_rel()),
            r.spec_pci_devices_path() == path_join(root@, pci_devices_rel()),
    {
        proof {
            reveal_strlit("sys/bus/thunderbolt/devices");
            reveal_strlit("sys/bus/pci/devices");
        }
        let tbt = "sys/bus/thunderbolt/devices";
        let pci = "sys/bus/pci/devices";
        assert(tbt@ =~= tbt_devices_rel());
        assert(pci@ =~= pci_devices_rel());
        SysfsUtils {
            tbt_devices_path: join_exec(root.as_str(), tbt),
            pci_devices_path: join_exec(root.as_str(), pci),
        }
    }

    /// The directory that lists the thunderbolt devices.
    pub fn tbt_devices_path(&self) -> (r: &str)
        ensures
            r@ == self.spec_tbt_devices_path(),
    {
        self.tbt_devices_path.as_str()
    }

    /// The directory that lists the PCI devices.
    pub fn pci_devices_path(&self) -> (r: &str)
        ensures
            r@ == self.spec_pci_devices_path(),
    {
        self.pci_devices_path.as_str()
    }

    fn set_authorized_attribute(&self, dev: &TbtDeviceEntries, enable: bool) -> (r: Result<
        bool,
        SysfsError,
    >)
        ensures
            r == authorization_decision(*dev, enable),
    {
        if !dev.exists {
            return Err(SysfsError::PathNotFound);
        }
        let target = match &dev.subsystem_target {
            Some(t) => t,
            None => {
                return Err(SysfsError::SubsystemUnreadable);
            },
        };
        proof {
            reveal_strlit("/bus/thunderbolt");
        }
        let suffix = "/bus/thunderbolt";
        assert(suffix@ =~= thunderbolt_bus_suffix());
        if !ends_with_exec(target.as_str(), suffix) {
            return Err(SysfsError::NotThunderbolt);
        }
        match &dev.authorized {
            AuthorizedEntry::Missing => Ok(false),
            AuthorizedEntry::Unreadable => Err(SysfsError::AuthorizedUnreadable),
            AuthorizedEntry::Contents(c) => {
                let n = c.as_str().unicode_len();
                if n == 0 {
                    Ok(true)
                } else {
                    let first = c.as_str().get_char(0);
                    Ok(first != authorized_value_char(enable))
                }
            },
        }
    }

    /// Whether the device's `authorized` entry must be set to "0" to withdraw its authorization
    /// (`Ok(false)`: nothing to do), or why it cannot be.
    pub fn deauthorize_thunderbolt_dev(&self, dev: &TbtDeviceEntries) -> (r: Result<bool, SysfsError>)
        ensures
            r == authorization_decision(*dev, false),
    {
        self.set_authorized_attribute(dev, false)
    }

    /// Whether the device's `authorized` entry must be set to "1" to authorize it
    /// (`Ok(false)`: nothing to do), or why it cannot be.
    pub fn authorize_thunderbolt_dev(&self, dev: &TbtDeviceEntries) -> (r: Result<bool, SysfsError>)
        ensures
            r == authorization_decision(*dev, true),
    {
        self.set_authorized_attribute(dev, true)
    }
}

impl Default for SysfsUtils {
    /// Paths under the root directory `/`.
    fn default() -> (r: Self)
        ensures
            r.spec_tbt_devices_path() == path_join(seq!['/'], tbt_devices_rel()),
            r.spec_pci_devices_path() == path_join(seq!['/'], pci_devices_rel()),
    {
        Self::new()
    }
}

fn authorized_value_char(enable: bool) -> (r: char)
    ensures
        r == authorized_char(enable),
{
    if enable {
        '1'
    } else {
        '0'
    }
}

/// The text written to a device's `authorized` entry.
pub fn authorized_value(enable: bool) -> (r: &'static str)
    ensures
        r@ == seq![authorized_char(enable)],
{
    proof {
        reveal_strlit("1");
        reveal_strlit("0");
    }
    if enable {
        "1"
    } else {
        "0"
    }
}

/// Lexicographic order of strings by character, as `str`'s order by UTF-8 bytes gives it.
pub open spec fn chars_le(a: Seq<char>, b: Seq<char>) -> bool
    decreases a.len(),
{
    if a.len() == 0 {
        true
    } else if b.len() == 0 {
        false
    } else if a[0] != b[0] {
        (a[0] as u32) < (b[0] as u32)
    } else {
        chars_le(a.skip(1), b.skip(1))
    }
}

/// Lexicographic order of paths given as their components.
pub open spec fn components_le(a: Seq<String>, b: Seq<String>) -> bool
    decreases a.len(),
{
    if a.len() == 0 {
        true
    } else if b.len() == 0 {
        false
    } else if a[0]@ != b[0]@ {
        chars_le(a[0]@, b[0]@)
    } else {
        components_le(a.skip(1), b.skip(1))
    }
}

/// The devices are in the order of their link targets.
pub open spec fn sorted_by_link(s: Seq<(Vec<String>, String)>) -> bool {
    forall|i: int, j: int| 0 <= i < j < s.len() ==> components_le(s[i].0@, s[j].0@)
}

/// Relies on `slice::sort`, which orders the pairs by `Ord` (the link's components compared
/// lexicographically, each as a string by its bytes, then the path) and keeps every element.
#[verifier::external_body]
fn sort_by_link(devices: &mut Vec<(Vec<String>, String)>)
    ensures
        final(devices)@.to_multiset() == old(devices)@.to_multiset(),
        sorted_by_link(final(devices)@),
{
    devices.sort();
}

/// The PCI devices among `s` whose `removable` entry marks them removable, in order.
pub open spec fn removal_targets(s: Seq<(String, String)>) -> Seq<String>
    decreases s.len(),
{
    if s.len() == 0 {
        seq![]
    } else {
        removal_targets(s.drop_last()) + if marks_removable(s.last().1@) {
            seq![s.last().0]
        } else {
            seq![]
        }
    }
}

impl SysfsUtils {
    /// The order in which thunderbolt devices are authorized, from each device's path and the
    /// components of its link target: by link target, so that a parent comes before its
    /// children.
    pub fn authorize_all_devices(&self, devices: Vec<(Vec<String>, String)>) -> (r: Vec<String>)
        ensures
            exists|s: Seq<(Vec<String>, String)>|
                s.to_multiset() == devices@.to_multiset() && sorted_by_link(s) && r@ == s.map_values(
                    |d: (Vec<String>, String)| d.1,
                ),
    {
        let mut devices = devices;
        sort_by_link(&mut devices);
        let mut r: Vec<String> = Vec::new();
        let mut i: usize = 0;
        while i < devices.len()
            invariant
                i <= devices@.len(),
                r@ == devices@.take(i as int).map_values(|d: (Vec<String>, String)| d.1),
            decreases devices@.len() - i,
        {
            r.push(devices[i].1.clone());
            assert(devices@.take(i + 1).map_values(|d: (Vec<String>, String)| d.1) =~= devices@.take(
                i as int,
            ).map_values(|d: (Vec<String>, String)| d.1).push(devices@[i as int].1));
            i = i + 1;
        }
        assert(devices@.take(i as int) =~= devices@);
        r
    }

    /// The PCI devices to remove when authorizations are withdrawn, from each device's path and
    /// the contents of its `removable` entry: those marked removable, in the order given.
    pub fn deauthorize_all_devices(&self, pci_devices: &Vec<(String, String)>) -> (r: Vec<String>)
        ensures
            r@ == removal_targets(pci_devices@),
    {
        let mut r: Vec<String> = Vec::new();
        let mut i: usize = 0;
        while i < pci_devices.len()
            invariant
                i <= pci_devices@.len(),
                r@ == removal_targets(pci_devices@.take(i as int)),
            decreases pci_devices@.len() - i,
        {
            let dev = &pci_devices[i];
            assert(pci_devices@.take(i + 1).drop_last() =~= pci_devices@.take(i as int));
            if is_removable(dev.1.as_str()) {
                r.push(dev.0.clone());
            }
            assert(r@ =~= removal_targets(pci_devices@.take(i + 1)));
            i = i + 1;
        }
        assert(pci_devices@.take(i as int) =~= pci_devices@);
        r
    }
}

} // verus!
