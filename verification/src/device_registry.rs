//! Registry of known FNIRSI devices and their USB vendor and product IDs, in
//! normal operating mode and in DFU (bootloader) mode.

use vstd::prelude::*;

verus! {

/// A supported device model.
#[derive(Debug, Clone)]
pub struct DeviceInfo {
    /// Vendor ID in normal operating mode.
    pub vendor_id: u16,
    /// Product ID in normal operating mode.
    pub product_id: u16,
    /// Device name, such as "FNIRSI FNB-58".
    pub name: String,
    /// Short model identifier, such as "FNB-58".
    pub model: String,
    /// Vendor ID in DFU/bootloader mode, if known.
    pub dfu_vendor_id: Option<u16>,
    /// Product ID in DFU/bootloader mode, if known.
    pub dfu_product_id: Option<u16>,
}

/// The mode a connected device is in.
#[derive(Debug, Clone, Copy, PartialEq, Eq, Structural)]
pub enum DeviceMode {
    /// Working as a USB tester.
    Normal,
    /// Bootloader, ready for a firmware update.
    Dfu,
}

impl DeviceInfo {
    /// The device shows these IDs in normal mode.
    pub open spec fn matches_normal(&self, vid: u16, pid: u16) -> bool {
        self.vendor_id == vid && self.product_id == pid
    }

    /// The device has DFU IDs, and they are these.
    pub open spec fn matches_dfu(&self, vid: u16, pid: u16) -> bool {
        self.dfu_vendor_id == Some(vid) && self.dfu_product_id == Some(pid)
    }

    /// The device shows these IDs in one of its modes.
    pub open spec fn matches(&self, vid: u16, pid: u16) -> bool {
        self.matches_normal(vid, pid) || self.matches_dfu(vid, pid)
    }

    /// The mode in which the device shows these IDs, normal mode taking precedence.
    pub open spec fn mode_for(&self, vid: u16, pid: u16) -> DeviceMode {
        if self.matches_normal(vid, pid) {
            DeviceMode::Normal
        } else {
            DeviceMode::Dfu
        }
    }

    /// Whether `vid:pid` are this device's normal-mode IDs.
    pub fn is_normal_mode(&self, vid: u16, pid: u16) -> (b: bool)
        ensures
            b == self.matches_normal(vid, pid),
    {
        self.vendor_id == vid && self.product_id == pid
    }

    /// Whether the device has DFU-mode IDs and `vid:pid` are those.
    pub fn is_dfu_mode(&self, vid: u16, pid: u16) -> (b: bool)
        ensures
            b == self.matches_dfu(vid, pid),
    {
        match (self.dfu_vendor_id, self.dfu_product_id) {
            (Some(dfu_vid), Some(dfu_pid)) => dfu_vid == vid && dfu_pid == pid,
            _ => false,
        }
    }
}

impl DeviceMode {
    /// Human-readable name of the mode.
    pub open spec fn spec_label(self) -> Seq<char> {
        match self {
            DeviceMode::Normal => "Normal Mode"@,
            DeviceMode::Dfu => "DFU/Bootloader Mode"@,
        }
    }

    /// Human-readable name of the mode: "Normal Mode" or "DFU/Bootloader Mode".
    pub fn label(&self) -> (s: &'static str)
        ensures
            s@ == self.spec_label(),
    {
        match self {
            DeviceMode::Normal => "Normal Mode",
            DeviceMode::Dfu => "DFU/Bootloader Mode",
        }
    }
}

/// The FNIRSI FNB-58: normal mode 2e3c:5558, DFU mode 0483:0038.
pub open spec fn is_fnb58(d: DeviceInfo) -> bool {
    &&& d.vendor_id == 0x2e3c
    &&& d.product_id == 0x5558
    &&& d.name@ == "FNIRSI FNB-58"@
    &&& d.model@ == "FNB-58"@
    &&& d.dfu_vendor_id == Some(0x0483u16)
    &&& d.dfu_product_id == Some(0x0038u16)
}

/// The first device of `devs`, from index `i` on, that shows `vid:pid`, with
/// its index and the mode it is in.
pub open spec fn find_from(devs: Seq<DeviceInfo>, vid: u16, pid: u16, i: int) -> Option<
    (int, DeviceMode),
>
    decreases devs.len() - i,
{
    if i < 0 || i >= devs.len() {
        None
    } else if devs[i].matches(vid, pid) {
        Some((i, devs[i].mode_for(vid, pid)))
    } else {
        find_from(devs, vid, pid, i + 1)
    }
}

/// The first device of `devs` that shows `vid:pid`, with its index and mode.
pub open spec fn spec_find(devs: Seq<DeviceInfo>, vid: u16, pid: u16) -> Option<(int, DeviceMode)> {
    find_from(devs, vid, pid, 0)
}

/// The supported devices among the USB devices with IDs `ids`, in bus order:
/// the index of each in `ids` and the mode it is in.
pub open spec fn spec_recognized(devs: Seq<DeviceInfo>, ids: Seq<(u16, u16)>) -> Seq<(usize, DeviceMode)>
    decreases ids.len(),
{
    if ids.len() == 0 {
        Seq::empty()
    } else {
        let rest = spec_recognized(devs, ids.drop_last());
        match spec_find(devs, ids.last().0, ids.last().1) {
            Some((_, m)) => rest.push(((ids.len() - 1) as usize, m)),
            None => rest,
        }
    }
}

/// The list of supported devices.
pub struct DeviceRegistry {
    devices: Vec<DeviceInfo>,
}

impl View for DeviceRegistry {
    type V = Seq<DeviceInfo>;

    closed spec fn view(&self) -> Seq<DeviceInfo> {
        self.devices@
    }
}

impl DeviceRegistry {
    /// The registry of all known models: the FNIRSI FNB-58.
    pub fn new() -> (r: Self)
        ensures
            r@.len() == 1,
            is_fnb58(r@[0]),
    {
        let mut devices: Vec<DeviceInfo> = Vec::new();
        devices.push(
            DeviceInfo {
                vendor_id: 0x2e3c,
                product_id: 0x5558,
                name: "FNIRSI FNB-58".to_owned(),
                model: "FNB-58".to_owned(),
                dfu_vendor_id: Some(0x0483),
                dfu_product_id: Some(0x0038),
            },
        );
        DeviceRegistry { devices }
    }

    /// The first registered device that shows `vid:pid`, in normal or DFU mode,
    /// and that mode; normal mode takes precedence for a device that shows the
    /// same IDs in both.
    pub fn find_device(&self, vid: u16, pid: u16) -> (r: Option<(&DeviceInfo, DeviceMode)>)
        ensures
            r is None <==> spec_find(self@, vid, pid) is None,
            r matches Some((d, m)) ==> (spec_find(self@, vid, pid) matches Some((i, m2)) && m
                == m2 && *d == self@[i]),
    {
        let mut i: usize = 0;
        while i < self.devices.len()
            invariant
                i <= self.devices@.len(),
                spec_find(self@, vid, pid) == find_from(self@, vid, pid, i as int),
            decreases self.devices@.len() - i,
        {
            let device = &self.devices[i];
            if device.is_normal_mode(vid, pid) {
                return Some((device, DeviceMode::Normal));
            }
            if device.is_dfu_mode(vid, pid) {
                return Some((device, DeviceMode::Dfu));
            }
            i = i + 1;
        }
        None
    }

    /// All registered devices, in registration order.
    pub fn list_supported_devices(&self) -> (s: &[DeviceInfo])
        ensures
            s@ == self@,
    {
        self.devices.as_slice()
    }

    /// Picks out the supported devices among the USB devices whose vendor and
    /// product IDs are `ids`: for each, in order, its index in `ids` and its mode.
    pub fn recognize_devices(&self, ids: &[(u16, u16)]) -> (found: Vec<(usize, DeviceMode)>)
        ensures
            found@ == spec_recognized(self@, ids@),
    {
        let mut found: Vec<(usize, DeviceMode)> = Vec::new();
        let mut i: usize = 0;
        while i < ids.len()
            invariant
                i <= ids@.len(),
                found@ == spec_recognized(self@, ids@.subrange(0, i as int)),
            decreases ids@.len() - i,
        {
            let (vid, pid) = ids[i];
            let ghost prefix = ids@.subrange(0, i + 1);
            assert(prefix.drop_last() =~= ids@.subrange(0, i as int));
            assert(prefix.last() == ids@[i as int]);
            match self.find_device(vid, pid) {
                Some((_, mode)) => {
                    found.push((i, mode));
                },
                None => {},
            }
            i = i + 1;
        }
        assert(ids@.subrange(0, ids@.len() as int) =~= ids@);
        found
    }

    /// Registers one more device, after the others.
    pub fn add_device(&mut self, device: DeviceInfo)
        ensures
            final(self)@ == old(self)@.push(device),
    {
        self.devices.push(device);
    }
}

proof fn lemma_find_from(devs: Seq<DeviceInfo>, vid: u16, pid: u16, i: int)
    requires
        0 <= i <= devs.len(),
    ensures
        find_from(devs, vid, pid, i) matches Some((k, m)) ==> (i <= k < devs.len() && devs[k].matches(
            vid,
            pid,
        ) && m == devs[k].mode_for(vid, pid) && forall|j: int|
            i <= j < k ==> !#[trigger] devs[j].matches(vid, pid)),
        find_from(devs, vid, pid, i) is None ==> forall|j: int|
            i <= j < devs.len() ==> !#[trigger] devs[j].matches(vid, pid),
    decreases devs.len() - i,
{
    if i < devs.len() && !devs[i].matches(vid, pid) {
        lemma_find_from(devs, vid, pid, i + 1);
    }
}

/// `find_device` is the first match: it finds the device at index `k` exactly
/// when that device shows `vid:pid` and no earlier one does, and it finds
/// nothing exactly when no registered device shows `vid:pid`.
pub proof fn law_find_is_first_match(devs: Seq<DeviceInfo>, vid: u16, pid: u16)
    ensures
        spec_find(devs, vid, pid) is None <==> forall|j: int|
            0 <= j < devs.len() ==> !#[trigger] devs[j].matches(vid, pid),
        forall|k: int|
            0 <= k < devs.len() && #[trigger] devs[k].matches(vid, pid) && (forall|j: int|
                0 <= j < k ==> !#[trigger] devs[j].matches(vid, pid)) ==> spec_find(devs, vid, pid)
                == Some((k, devs[k].mode_for(vid, pid))),
{
    lemma_find_from(devs, vid, pid, 0);
    assert forall|k: int|
        0 <= k < devs.len() && #[trigger] devs[k].matches(vid, pid) && (forall|j: int|
            0 <= j < k ==> !#[trigger] devs[j].matches(vid, pid)) implies spec_find(devs, vid, pid)
        == Some((k, devs[k].mode_for(vid, pid))) by {
        if let Some((k2, m)) = spec_find(devs, vid, pid) {
            assert(!(k2 < k));
            assert(!(k < k2));
        }
    }
}

/// Registering a device never changes what an earlier match finds, and a
/// device that nothing before it matches is found once registered.
pub proof fn law_add_then_find(devs: Seq<DeviceInfo>, d: DeviceInfo, vid: u16, pid: u16)
    ensures
        spec_find(devs, vid, pid) is Some ==> spec_find(devs.push(d), vid, pid) == spec_find(
            devs,
            vid,
            pid,
        ),
        spec_find(devs, vid, pid) is None && d.matches(vid, pid) ==> spec_find(
            devs.push(d),
            vid,
            pid,
        ) == Some((devs.len() as int, d.mode_for(vid, pid))),
        spec_find(devs, vid, pid) is None && !d.matches(vid, pid) ==> spec_find(
            devs.push(d),
            vid,
            pid,
        ) is None,
{
    let e = devs.push(d);
    law_find_is_first_match(devs, vid, pid);
    law_find_is_first_match(e, vid, pid);
    if let Some((k, m)) = spec_find(devs, vid, pid) {
        lemma_find_from(devs, vid, pid, 0);
        assert(e[k] == devs[k]);
        assert forall|j: int| 0 <= j < k implies !#[trigger] e[j].matches(vid, pid) by {
            assert(e[j] == devs[j]);
        }
    } else {
        assert forall|j: int| 0 <= j < devs.len() implies !#[trigger] e[j].matches(vid, pid) by {
            assert(e[j] == devs[j]);
        }
        assert(e[devs.len() as int] == d);
        assert(e[devs.len() as int].matches(vid, pid) == d.matches(vid, pid));
    }
}

/// The list of a registry that held `v` after `add_device` was called with
/// each device of `ds`, in order: each call appends its device.
pub open spec fn after_adds(v: Seq<DeviceInfo>, ds: Seq<DeviceInfo>) -> Seq<DeviceInfo>
    decreases ds.len(),
{
    if ds.len() == 0 {
        v
    } else {
        after_adds(v, ds.drop_last()).push(ds.last())
    }
}

/// Registering devices one after the other lists them after the devices
/// already registered, in call order, none lost or reordered; repeated IDs are
/// kept.
pub proof fn law_adds_append_in_order(v: Seq<DeviceInfo>, ds: Seq<DeviceInfo>)
    ensures
        after_adds(v, ds) == v + ds,
        after_adds(v, ds).len() == v.len() + ds.len(),
    decreases ds.len(),
{
    if ds.len() > 0 {
        law_adds_append_in_order(v, ds.drop_last());
        assert((v + ds.drop_last()).push(ds.last()) =~= v + ds);
    } else {
        assert(v + ds =~= v);
    }
}

/// Where to flash, among the supported devices found on the bus.
#[derive(Debug, Clone, Copy, PartialEq, Eq, Structural)]
pub enum FlashTarget {
    /// No supported device was found.
    NoSupportedDevice,
    /// The found device at this index is in DFU mode and can be flashed.
    Dfu(usize),
    /// Supported devices were found, none in DFU mode; the one at this index
    /// is the one to tell the user about.
    NotInDfuMode(usize),
}

/// The choice among `found`: the first device in DFU mode; if there is none,
/// the first device, which must be put into DFU mode first.
pub open spec fn spec_flash_target(found: Seq<(usize, DeviceMode)>) -> FlashTarget {
    if found.len() == 0 {
        FlashTarget::NoSupportedDevice
    } else if exists|k: int| 0 <= k < found.len() && (#[trigger] found[k]).1 == DeviceMode::Dfu {
        let k = choose|k: int|
            0 <= k < found.len() && (#[trigger] found[k]).1 == DeviceMode::Dfu && forall|j: int|
                0 <= j < k ==> (#[trigger] found[j]).1 != DeviceMode::Dfu;
        FlashTarget::Dfu(k as usize)
    } else {
        FlashTarget::NotInDfuMode(0)
    }
}

/// Picks the device to flash among the supported devices found on the bus
/// (each with its mode): the first one in DFU mode, if any.
pub fn choose_flash_target(found: &[(usize, DeviceMode)]) -> (t: FlashTarget)
    ensures
        found@.len() == 0 <==> t == FlashTarget::NoSupportedDevice,
        t matches FlashTarget::Dfu(k) ==> (k < found@.len() && found@[k as int].1
            == DeviceMode::Dfu && forall|j: int| 0 <= j < k ==> (#[trigger] found@[j]).1 != DeviceMode::Dfu),
        t matches FlashTarget::NotInDfuMode(k) ==> (k == 0 && found@.len() > 0 && forall|j: int|
            0 <= j < found@.len() ==> (#[trigger] found@[j]).1 != DeviceMode::Dfu),
{
    if found.len() == 0 {
        return FlashTarget::NoSupportedDevice;
    }
    let mut k: usize = 0;
    while k < found.len()
        invariant
            k <= found@.len(),
            forall|j: int| 0 <= j < k ==> (#[trigger] found@[j]).1 != DeviceMode::Dfu,
        decreases found@.len() - k,
    {
        if found[k].1 == DeviceMode::Dfu {
            return FlashTarget::Dfu(k);
        }
        k = k + 1;
    }
    FlashTarget::NotInDfuMode(0)
}

/// The mode in which the registry `devs` finds the USB IDs `id`, if it finds them.
pub open spec fn mode_found(devs: Seq<DeviceInfo>, id: (u16, u16)) -> Option<DeviceMode> {
    match spec_find(devs, id.0, id.1) {
        Some((_, m)) => Some(m),
        None => None,
    }
}

/// `recognize_devices` keeps exactly the supported devices, in bus order: every
/// entry `(j, m)` names a position `j` of `ids` whose IDs the registry finds
/// in mode `m`; every position whose IDs the registry finds, the first one
/// included, appears with that mode; positions increase along the result.
pub proof fn law_recognized_are_the_supported_devices(devs: Seq<DeviceInfo>, ids: Seq<(u16, u16)>)
    requires
        ids.len() <= usize::MAX,
    ensures
        ({
            let res = spec_recognized(devs, ids);
            &&& forall|k: int|
                0 <= k < res.len() ==> (#[trigger] res[k]).0 < ids.len() && mode_found(
                    devs,
                    ids[res[k].0 as int],
                ) == Some(res[k].1)
            &&& forall|j: int|
                0 <= j < ids.len() && (#[trigger] mode_found(devs, ids[j])) is Some ==> exists|
                    k: int,
                | 0 <= k < res.len() && #[trigger] res[k] == (j as usize, mode_found(
                    devs,
                    ids[j],
                )->0)
            &&& forall|k1: int, k2: int|
                0 <= k1 < k2 < res.len() ==> (#[trigger] res[k1]).0 < (#[trigger] res[k2]).0
            &&& res.len() <= ids.len()
        }),
    decreases ids.len(),
{
    let res = spec_recognized(devs, ids);
    if ids.len() > 0 {
        let pre = ids.drop_last();
        law_recognized_are_the_supported_devices(devs, pre);
        let rest = spec_recognized(devs, pre);
        let j0 = ids.len() - 1;
        assert forall|k: int| 0 <= k < res.len() implies (#[trigger] res[k]).0 < ids.len()
            && mode_found(devs, ids[res[k].0 as int]) == Some(res[k].1) by {
            if k < rest.len() {
                assert(res[k] == rest[k]);
                assert(pre[rest[k].0 as int] == ids[rest[k].0 as int]);
            }
        }
        assert forall|j: int|
            0 <= j < ids.len() && (#[trigger] mode_found(devs, ids[j])) is Some implies exists|
            k: int,
        | 0 <= k < res.len() && #[trigger] res[k] == (j as usize, mode_found(devs, ids[j])->0) by {
            let m = mode_found(devs, ids[j])->0;
            if j < j0 {
                assert(pre[j] == ids[j]);
                assert(mode_found(devs, pre[j]) is Some);
                let k = choose|k: int|
                    0 <= k < rest.len() && #[trigger] rest[k] == (j as usize, mode_found(
                        devs,
                        pre[j],
                    )->0);
                assert(res[k] == rest[k]);
            } else {
                assert(res[rest.len() as int] == (j as usize, m));
            }
        }
        assert forall|k1: int, k2: int| 0 <= k1 < k2 < res.len() implies (#[trigger] res[k1]).0 < (
        #[trigger] res[k2]).0 by {
            assert(res[k1] == rest[k1]);
            if k2 < rest.len() {
                assert(res[k2] == rest[k2]);
            }
        }
    }
}

} // verus!
