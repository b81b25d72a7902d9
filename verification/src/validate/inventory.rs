//! Guests, network mounts, NAS permissions and Proxmox storage.

use vstd::prelude::*;

use super::{inventory_error, storage_error, ValidationError};
use crate::model::{ConfigBundle, Guest, GuestKind, ProxmoxStorage};
use crate::table::{
    contains_key, flat_map, has_key, lemma_dup_in_prefix, lemma_flat_map_prefix, lemma_flat_map_step,
    lemma_push_no_duplicates, string_in, texts, u32_in,
};
use crate::text::{blank, first_char_is, is_blank, starts_with_char, upper_seq, upper_string};

verus! {

pub open spec fn guest_vmid_keys(g: Seq<(String, Guest)>) -> Seq<(Seq<char>, u32)> {
    g.map_values(|e: (String, Guest)| (e.1.host@, e.1.vmid))
}

pub open spec fn guest_macs(g: Seq<(String, Guest)>) -> Seq<Seq<char>> {
    g.map_values(|e: (String, Guest)| upper_seq(e.1.mac@))
}

pub open spec fn guest_ipv4s(g: Seq<(String, Guest)>) -> Seq<u32> {
    g.map_values(|e: (String, Guest)| e.1.ipv4)
}

/// The PCI devices claimed by the guests, guest by guest.
pub open spec fn guest_pci_devices(g: Seq<(String, Guest)>) -> Seq<Seq<char>> {
    flat_map(g, |e: (String, Guest)| e.1.pci_devices@.map_values(|d: crate::model::GuestPciDevice| d.device@))
}

/// The rules for a single guest: a known parent host; VM-only attachments
/// only on VMs; PCI and VirtioFS slots not repeated; no blank device or
/// directory.
pub open spec fn guest_ok(b: &ConfigBundle, g: Guest) -> bool {
    &&& has_key(b.inventory.hosts@, g.host@)
    &&& (g.kind != GuestKind::Vm ==> g.pci_devices@.len() == 0 && g.virtiofs@.len() == 0)
    &&& g.pci_devices@.map_values(|d: crate::model::GuestPciDevice| d.slot).no_duplicates()
    &&& forall|k: int| 0 <= k < g.pci_devices@.len() ==> !blank((#[trigger] g.pci_devices@[k]).device@)
    &&& g.virtiofs@.map_values(|d: crate::model::GuestVirtioFs| d.slot).no_duplicates()
    &&& forall|k: int| 0 <= k < g.virtiofs@.len() ==> !blank((#[trigger] g.virtiofs@[k]).directory@)
}

/// Guest rules: each guest is valid; no two guests share a VMID on the same
/// host, a MAC address (compared in upper case), an IPv4 address or a PCI device.
pub open spec fn guests_ok(b: &ConfigBundle) -> bool {
    let g = b.guests.guests@;
    &&& forall|i: int| 0 <= i < g.len() ==> guest_ok(b, (#[trigger] g[i]).1)
    &&& guest_vmid_keys(g).no_duplicates()
    &&& guest_macs(g).no_duplicates()
    &&& guest_ipv4s(g).no_duplicates()
    &&& guest_pci_devices(g).no_duplicates()
}

/// Mount rules: known consumer and server hosts, absolute mount path.
pub open spec fn mounts_ok(b: &ConfigBundle) -> bool {
    forall|i: int|
        0 <= i < b.mounts.mounts@.len() ==> {
            let m = (#[trigger] b.mounts.mounts@[i]).1;
            &&& has_key(b.inventory.hosts@, m.host@)
            &&& has_key(b.inventory.hosts@, m.server_host@)
            &&& starts_with_char(m.mount_path@, '/')
        }
}

/// NAS permission rules: known NAS and client hosts, a share name and a
/// security mode.
pub open spec fn nas_permissions_ok(b: &ConfigBundle) -> bool {
    forall|i: int|
        0 <= i < b.nas_permissions.permissions@.len() ==> {
            let p = (#[trigger] b.nas_permissions.permissions@[i]).1;
            &&& has_key(b.inventory.hosts@, p.nas@)
            &&& has_key(b.inventory.hosts@, p.client_host@)
            &&& !blank(p.share@)
            &&& !blank(p.security@)
        }
}

pub open spec fn storage_ok(b: &ConfigBundle, s: ProxmoxStorage) -> bool {
    &&& has_key(b.inventory.hosts@, s.host@)
    &&& has_key(b.inventory.hosts@, s.server_host@)
    &&& starts_with_char(s.mount_path@, '/')
    &&& !blank(s.export@) && starts_with_char(s.export@, '/')
    &&& s.content@.len() > 0
}

pub open spec fn storage_keys(s: Seq<(String, ProxmoxStorage)>) -> Seq<(Seq<char>, Seq<char>)> {
    s.map_values(|e: (String, ProxmoxStorage)| (e.1.host@, e.1.storage_id@))
}

/// Proxmox storage rules: each storage is valid and no storage ID repeats on a host.
pub open spec fn storages_ok(b: &ConfigBundle) -> bool {
    &&& forall|i: int|
        0 <= i < b.proxmox_storages.storages@.len() ==> storage_ok(b, (#[trigger] b.proxmox_storages.storages@[i]).1)
    &&& storage_keys(b.proxmox_storages.storages@).no_duplicates()
}

/// PCI device `k` of guest `g` reuses no earlier slot and names a device.
pub open spec fn pci_entry_ok(g: Guest, k: int) -> bool {
    let slots = g.pci_devices@.map_values(|d: crate::model::GuestPciDevice| d.slot);
    !slots.take(k).contains(slots[k]) && !blank(g.pci_devices@[k].device@)
}

/// VirtioFS share `k` of guest `g` reuses no earlier slot and names a
/// directory.
pub open spec fn virtiofs_entry_ok(g: Guest, k: int) -> bool {
    let slots = g.virtiofs@.map_values(|d: crate::model::GuestVirtioFs| d.slot);
    !slots.take(k).contains(slots[k]) && !blank(g.virtiofs@[k].directory@)
}

/// The attachments of guest `g` are valid.
pub open spec fn attachments_ok(g: Guest) -> bool {
    &&& g.pci_devices@.map_values(|d: crate::model::GuestPciDevice| d.slot).no_duplicates()
    &&& forall|k: int| 0 <= k < g.pci_devices@.len() ==> !blank((#[trigger] g.pci_devices@[k]).device@)
    &&& g.virtiofs@.map_values(|d: crate::model::GuestVirtioFs| d.slot).no_duplicates()
    &&& forall|k: int| 0 <= k < g.virtiofs@.len() ==> !blank((#[trigger] g.virtiofs@[k]).directory@)
}

/// Why the attachments of guest `name` are refused: its first PCI device
/// that reuses a slot or names no device, else its first VirtioFS share that
/// reuses a slot or names no directory.
pub open spec fn attachment_refusal(name: Seq<char>, g: Guest, e: ValidationError) -> bool {
    let ps = g.pci_devices@.map_values(|d: crate::model::GuestPciDevice| d.slot);
    let fs = g.virtiofs@.map_values(|d: crate::model::GuestVirtioFs| d.slot);
    if exists|k: int| 0 <= k < g.pci_devices@.len() && !#[trigger] pci_entry_ok(g, k) {
        exists|k: int| 0 <= k < g.pci_devices@.len() && !#[trigger] pci_entry_ok(g, k)
            && ps.take(k).no_duplicates() && (forall|j: int| 0 <= j < k ==> !blank((#[trigger] g.pci_devices@[j]).device@))
            && if ps.take(k).contains(ps[k]) {
                e matches ValidationError::DuplicatePciSlot { guest, slot } && guest@ == name && slot == ps[k]
            } else {
                e matches ValidationError::EmptyPciDevice { guest, slot } && guest@ == name && slot == ps[k]
            }
    } else {
        exists|k: int| 0 <= k < g.virtiofs@.len() && !#[trigger] virtiofs_entry_ok(g, k)
            && fs.take(k).no_duplicates() && (forall|j: int| 0 <= j < k ==> !blank((#[trigger] g.virtiofs@[j]).directory@))
            && if fs.take(k).contains(fs[k]) {
                e matches ValidationError::DuplicateVirtiofsSlot { guest, slot } && guest@ == name && slot == fs[k]
            } else {
                e matches ValidationError::EmptyVirtiofsDirectory { guest, slot } && guest@ == name && slot == fs[k]
            }
    }
}

/// The first `n` guests meet the guest rules among themselves.
pub open spec fn guests_prefix_ok(b: &ConfigBundle, n: int) -> bool {
    let g = b.guests.guests@;
    &&& forall|j: int| 0 <= j < n ==> guest_ok(b, (#[trigger] g[j]).1)
    &&& guest_vmid_keys(g).take(n).no_duplicates()
    &&& guest_macs(g).take(n).no_duplicates()
    &&& guest_ipv4s(g).take(n).no_duplicates()
    &&& guest_pci_devices(g.take(n)).no_duplicates()
}

/// Why guest `i` is refused after the guests before it were accepted,
/// checked in this order: its parent, its VMID on that host, its MAC, its
/// address, attachments on a non-VM, its attachments, then its first PCI
/// device claimed before (the claiming guest is not stated).
pub open spec fn guest_refusal(b: &ConfigBundle, i: int, e: ValidationError) -> bool {
    let all = b.guests.guests@;
    let name = all[i].0@;
    let g = all[i].1;
    if !has_key(b.inventory.hosts@, g.host@) {
        e matches ValidationError::GuestUnknownParent { guest, host } && guest@ == name && host@ == g.host@
    } else if guest_vmid_keys(all).take(i).contains((g.host@, g.vmid)) {
        e matches ValidationError::DuplicateVmid { guest, vmid, host } && guest@ == name && vmid == g.vmid && host@ == g.host@
    } else if guest_macs(all).take(i).contains(upper_seq(g.mac@)) {
        e matches ValidationError::DuplicateMac { guest, mac } && guest@ == name && mac@ == upper_seq(g.mac@)
    } else if guest_ipv4s(all).take(i).contains(g.ipv4) {
        e matches ValidationError::DuplicateGuestIpv4 { guest, address } && guest@ == name && address == g.ipv4
    } else if g.kind != GuestKind::Vm && (g.pci_devices@.len() != 0 || g.virtiofs@.len() != 0) {
        e matches ValidationError::NonVmAttachments { guest } && guest@ == name
    } else if !attachments_ok(g) {
        attachment_refusal(name, g, e)
    } else {
        let base = guest_pci_devices(all.take(i));
        let own = g.pci_devices@.map_values(|d: crate::model::GuestPciDevice| d.device@);
        exists|k: int| #![trigger own[k]] 0 <= k < own.len() && (base + own.take(k)).no_duplicates()
            && (base + own.take(k)).contains(own[k])
            && (e matches ValidationError::PciDeviceClaimedTwice { guest, device, .. } && guest@ == name && device@ == own[k])
    }
}

/// The first guest refused, with its refusal.
pub open spec fn guests_refusal(b: &ConfigBundle, e: ValidationError) -> bool {
    exists|i: int| 0 <= i < b.guests.guests@.len() && #[trigger] guests_prefix_ok(b, i) && guest_refusal(b, i, e)
}

/// The first mount with an unknown host, an unknown server or a relative
/// path, in that order.
pub open spec fn mounts_refusal(b: &ConfigBundle, e: ValidationError) -> bool {
    let ms = b.mounts.mounts@;
    exists|i: int| #![trigger ms[i]] 0 <= i < ms.len()
        && (forall|j: int| 0 <= j < i ==> {
            let m = (#[trigger] ms[j]).1;
            &&& has_key(b.inventory.hosts@, m.host@)
            &&& has_key(b.inventory.hosts@, m.server_host@)
            &&& starts_with_char(m.mount_path@, '/')
        })
        && {
            let (id, m) = (ms[i].0@, ms[i].1);
            if !has_key(b.inventory.hosts@, m.host@) {
                e matches ValidationError::MountUnknownHost { mount, host } && mount@ == id && host@ == m.host@
            } else if !has_key(b.inventory.hosts@, m.server_host@) {
                e matches ValidationError::MountUnknownServer { mount, host } && mount@ == id && host@ == m.server_host@
            } else {
                !starts_with_char(m.mount_path@, '/') && (e matches ValidationError::MountPathNotAbsolute { mount, path }
                    && mount@ == id && path@ == m.mount_path@)
            }
        }
}

/// Why the guest and mount rules are refused: guests first, then mounts.
pub open spec fn inventory_refusal(b: &ConfigBundle, e: ValidationError) -> bool {
    if !guests_ok(b) {
        guests_refusal(b, e)
    } else {
        mounts_refusal(b, e)
    }
}

/// The first NAS permission with an unknown NAS or client, a blank share or
/// a blank security mode, in that order.
pub open spec fn nas_permissions_refusal(b: &ConfigBundle, e: ValidationError) -> bool {
    let ps = b.nas_permissions.permissions@;
    exists|i: int| #![trigger ps[i]] 0 <= i < ps.len()
        && (forall|j: int| 0 <= j < i ==> {
            let p = (#[trigger] ps[j]).1;
            &&& has_key(b.inventory.hosts@, p.nas@)
            &&& has_key(b.inventory.hosts@, p.client_host@)
            &&& !blank(p.share@)
            &&& !blank(p.security@)
        })
        && {
            let (id, p) = (ps[i].0@, ps[i].1);
            if !has_key(b.inventory.hosts@, p.nas@) {
                e matches ValidationError::NasUnknownNas { permission, host } && permission@ == id && host@ == p.nas@
            } else if !has_key(b.inventory.hosts@, p.client_host@) {
                e matches ValidationError::NasUnknownClient { permission, host } && permission@ == id && host@ == p.client_host@
            } else if blank(p.share@) {
                e matches ValidationError::NasEmptyShare { permission } && permission@ == id
            } else {
                blank(p.security@) && (e matches ValidationError::NasEmptySecurity { permission } && permission@ == id)
            }
        }
}

/// Why storage `i` is refused after the storages before it were accepted,
/// checked in this order: its host, its server, its mount path, its export,
/// its content, then its storage ID already used on the host.
pub open spec fn storage_refusal(b: &ConfigBundle, i: int, e: ValidationError) -> bool {
    let all = b.proxmox_storages.storages@;
    let id = all[i].0@;
    let s = all[i].1;
    if !has_key(b.inventory.hosts@, s.host@) {
        e matches ValidationError::StorageUnknownHost { storage, host } && storage@ == id && host@ == s.host@
    } else if !has_key(b.inventory.hosts@, s.server_host@) {
        e matches ValidationError::StorageUnknownServer { storage, host } && storage@ == id && host@ == s.server_host@
    } else if !starts_with_char(s.mount_path@, '/') {
        e matches ValidationError::StoragePathNotAbsolute { storage, path } && storage@ == id && path@ == s.mount_path@
    } else if blank(s.export@) || !starts_with_char(s.export@, '/') {
        e matches ValidationError::StorageExportNotAbsolute { storage, export } && storage@ == id && export@ == s.export@
    } else if s.content@.len() == 0 {
        e matches ValidationError::StorageNoContent { storage } && storage@ == id
    } else {
        storage_keys(all).take(i).contains((s.host@, s.storage_id@))
            && (e matches ValidationError::DuplicateStorageId { storage, storage_id, host }
                && storage@ == id && storage_id@ == s.storage_id@ && host@ == s.host@)
    }
}

/// The first storage refused, with its refusal.
pub open spec fn storages_refusal(b: &ConfigBundle, e: ValidationError) -> bool {
    let all = b.proxmox_storages.storages@;
    exists|i: int| #![trigger all[i]] 0 <= i < all.len()
        && (forall|j: int| 0 <= j < i ==> storage_ok(b, (#[trigger] all[j]).1))
        && storage_keys(all).take(i).no_duplicates()
        && storage_refusal(b, i, e)
}

/// Why the NAS permission and storage rules are refused: NAS permissions
/// first, then storages.
pub open spec fn nas_and_storage_refusal(b: &ConfigBundle, e: ValidationError) -> bool {
    if !nas_permissions_ok(b) {
        nas_permissions_refusal(b, e)
    } else {
        storages_refusal(b, e)
    }
}

/// Valid PCI slots and devices make every PCI entry pass.
proof fn lemma_pci_entries_ok(g: Guest)
    requires
        g.pci_devices@.map_values(|d: crate::model::GuestPciDevice| d.slot).no_duplicates(),
        forall|k: int| 0 <= k < g.pci_devices@.len() ==> !blank((#[trigger] g.pci_devices@[k]).device@),
    ensures
        forall|k: int| 0 <= k < g.pci_devices@.len() ==> #[trigger] pci_entry_ok(g, k),
{
    let slots = g.pci_devices@.map_values(|d: crate::model::GuestPciDevice| d.slot);
    assert forall|k: int| 0 <= k < g.pci_devices@.len() implies #[trigger] pci_entry_ok(g, k) by {
        if slots.take(k).contains(slots[k]) {
            let j = choose|j: int| 0 <= j < slots.take(k).len() && slots.take(k)[j] == slots[k];
            assert(slots[j] == slots[k]);
        }
    }
}

/// The checks of guest `i` that come before its PCI devices are compared
/// with other guests' all pass.
pub open spec fn guest_checks_pass(b: &ConfigBundle, i: int) -> bool {
    let all = b.guests.guests@;
    let g = all[i].1;
    &&& has_key(b.inventory.hosts@, g.host@)
    &&& !guest_vmid_keys(all).take(i).contains((g.host@, g.vmid))
    &&& !guest_macs(all).take(i).contains(upper_seq(g.mac@))
    &&& !guest_ipv4s(all).take(i).contains(g.ipv4)
    &&& !(g.kind != GuestKind::Vm && (g.pci_devices@.len() != 0 || g.virtiofs@.len() != 0))
    &&& attachments_ok(g)
}

fn check_guest_attachments(name: &String, guest: &Guest) -> (r: Result<(), ValidationError>)
    ensures
        r is Ok <==> ({
            &&& guest.pci_devices@.map_values(|d: crate::model::GuestPciDevice| d.slot).no_duplicates()
            &&& forall|k: int| 0 <= k < guest.pci_devices@.len() ==> !blank((#[trigger] guest.pci_devices@[k]).device@)
            &&& guest.virtiofs@.map_values(|d: crate::model::GuestVirtioFs| d.slot).no_duplicates()
            &&& forall|k: int| 0 <= k < guest.virtiofs@.len() ==> !blank((#[trigger] guest.virtiofs@[k]).directory@)
        }),
        r matches Err(e) ==> inventory_error(e),
        r matches Err(e) ==> attachment_refusal(name@, *guest, e),
{
    let pci = &guest.pci_devices;
    let ghost slots = pci@.map_values(|d: crate::model::GuestPciDevice| d.slot);
    let mut seen: Vec<u8> = Vec::new();
    let mut k: usize = 0;
    while k < pci.len()
        invariant
            pci == &guest.pci_devices,
            slots == pci@.map_values(|d: crate::model::GuestPciDevice| d.slot),
            k <= pci@.len(),
            seen@ == slots.take(k as int),
            slots.take(k as int).no_duplicates(),
            forall|j: int| 0 <= j < k ==> !blank((#[trigger] pci@[j]).device@),
        decreases pci@.len() - k,
    {
        let slot = pci[k].slot;
        let mut dup = false;
        let mut q: usize = 0;
        while q < seen.len()
            invariant
                q <= seen@.len(),
                dup ==> seen@.contains(slot),
                !dup ==> forall|j: int| 0 <= j < q ==> seen@[j] != slot,
            decreases seen@.len() - q,
        {
            if seen[q] == slot {
                dup = true;
            }
            q = q + 1;
        }
        proof {
            assert(slots.take(k + 1) =~= slots.take(k as int).push(slot));
            lemma_push_no_duplicates(slots.take(k as int), slot);
        }
        if dup {
            proof {
                lemma_dup_in_prefix(slots, slots.take(k + 1));
                assert(slots[k as int] == slot);
                assert(!pci_entry_ok(*guest, k as int));
            }
            return Err(ValidationError::DuplicatePciSlot { guest: name.clone(), slot });
        }
        if is_blank(pci[k].device.as_str()) {
            proof {
                assert(slots[k as int] == slot);
                assert(!pci_entry_ok(*guest, k as int));
            }
            return Err(ValidationError::EmptyPciDevice { guest: name.clone(), slot });
        }
        seen.push(slot);
        k = k + 1;
    }
    proof {
        assert(slots.take(pci@.len() as int) =~= slots);
    }
    let fs = &guest.virtiofs;
    let ghost fslots = fs@.map_values(|d: crate::model::GuestVirtioFs| d.slot);
    let mut seen: Vec<u8> = Vec::new();
    let mut k: usize = 0;
    while k < fs.len()
        invariant
            fs == &guest.virtiofs,
            fslots == fs@.map_values(|d: crate::model::GuestVirtioFs| d.slot),
            k <= fs@.len(),
            seen@ == fslots.take(k as int),
            fslots.take(k as int).no_duplicates(),
            forall|j: int| 0 <= j < k ==> !blank((#[trigger] fs@[j]).directory@),
            guest.pci_devices@.map_values(|d: crate::model::GuestPciDevice| d.slot).no_duplicates(),
            forall|j: int| 0 <= j < guest.pci_devices@.len() ==> !blank((#[trigger] guest.pci_devices@[j]).device@),
        decreases fs@.len() - k,
    {
        let slot = fs[k].slot;
        let mut dup = false;
        let mut q: usize = 0;
        while q < seen.len()
            invariant
                q <= seen@.len(),
                dup ==> seen@.contains(slot),
                !dup ==> forall|j: int| 0 <= j < q ==> seen@[j] != slot,
            decreases seen@.len() - q,
        {
            if seen[q] == slot {
                dup = true;
            }
            q = q + 1;
        }
        proof {
            assert(fslots.take(k + 1) =~= fslots.take(k as int).push(slot));
            lemma_push_no_duplicates(fslots.take(k as int), slot);
        }
        if dup {
            proof {
                lemma_dup_in_prefix(fslots, fslots.take(k + 1));
                assert(fslots[k as int] == slot);
                assert(!virtiofs_entry_ok(*guest, k as int));
                lemma_pci_entries_ok(*guest);
            }
            return Err(ValidationError::DuplicateVirtiofsSlot { guest: name.clone(), slot });
        }
        if is_blank(fs[k].directory.as_str()) {
            proof {
                assert(fslots[k as int] == slot);
                assert(!virtiofs_entry_ok(*guest, k as int));
                lemma_pci_entries_ok(*guest);
            }
            return Err(ValidationError::EmptyVirtiofsDirectory { guest: name.clone(), slot });
        }
        seen.push(slot);
        k = k + 1;
    }
    proof {
        assert(fslots.take(fs@.len() as int) =~= fslots);
    }
    Ok(())
}

fn check_guests(b: &ConfigBundle) -> (r: Result<(), ValidationError>)
    ensures
        r is Ok <==> guests_ok(b),
        r matches Err(e) ==> inventory_error(e),
        r matches Err(e) ==> guests_refusal(b, e),
{
    let guests = &b.guests.guests;
    let ghost all = guests@;
    let ghost gd = |e: (String, Guest)| e.1.pci_devices@.map_values(|d: crate::model::GuestPciDevice| d.device@);
    let mut vmids: Vec<(String, u32)> = Vec::new();
    let mut macs: Vec<String> = Vec::new();
    let mut addresses: Vec<u32> = Vec::new();
    let mut devices: Vec<(String, String)> = Vec::new();
    let mut i: usize = 0;
    proof {
        assert(all.take(0) =~= Seq::<(String, Guest)>::empty());
        assert(devices@.map_values(|c: (String, String)| c.0@) =~= guest_pci_devices(all.take(0)));
    }
    while i < guests.len()
        invariant
            guests == &b.guests.guests,
            all == guests@,
            i <= all.len(),
            gd == |e: (String, Guest)| e.1.pci_devices@.map_values(|d: crate::model::GuestPciDevice| d.device@),
            forall|j: int| 0 <= j < i ==> guest_ok(b, (#[trigger] all[j]).1),
            vmids@.map_values(|v: (String, u32)| (v.0@, v.1)) == guest_vmid_keys(all).take(i as int),
            guest_vmid_keys(all).take(i as int).no_duplicates(),
            texts(macs@) == guest_macs(all).take(i as int),
            guest_macs(all).take(i as int).no_duplicates(),
            addresses@ == guest_ipv4s(all).take(i as int),
            guest_ipv4s(all).take(i as int).no_duplicates(),
            devices@.map_values(|c: (String, String)| c.0@) == guest_pci_devices(all.take(i as int)),
            guest_pci_devices(all.take(i as int)).no_duplicates(),
        decreases all.len() - i,
    {
        let name = &guests[i].0;
        let guest = &guests[i].1;
        proof {
            assert(guests_prefix_ok(b, i as int));
        }
        if !contains_key(&b.inventory.hosts, guest.host.as_str()) {
            return Err(ValidationError::GuestUnknownParent { guest: name.clone(), host: guest.host.clone() });
        }
        // (host, VMID)
        let ghost vk = guest_vmid_keys(all);
        let ghost vv = vmids@.map_values(|v: (String, u32)| (v.0@, v.1));
        let mut dup = false;
        let mut q: usize = 0;
        while q < vmids.len()
            invariant
                q <= vmids@.len(),
                vv == vmids@.map_values(|v: (String, u32)| (v.0@, v.1)),
                dup ==> vv.contains((guest.host@, guest.vmid)),
                !dup ==> forall|j: int| 0 <= j < q ==> vv[j] != (guest.host@, guest.vmid),
            decreases vmids@.len() - q,
        {
            if vmids[q].0 == guest.host && vmids[q].1 == guest.vmid {
                assert(vv[q as int] == (guest.host@, guest.vmid));
                dup = true;
            }
            q = q + 1;
        }
        proof {
            assert(vk.take(i + 1) =~= vk.take(i as int).push((guest.host@, guest.vmid)));
            lemma_push_no_duplicates(vk.take(i as int), (guest.host@, guest.vmid));
        }
        if dup {
            proof {
                lemma_dup_in_prefix(vk, vk.take(i + 1));
                assert(vk.take(i as int).contains((guest.host@, guest.vmid)));
            }
            return Err(
                ValidationError::DuplicateVmid { guest: name.clone(), vmid: guest.vmid, host: guest.host.clone() },
            );
        }
        proof {
            assert(!vk.take(i as int).contains((guest.host@, guest.vmid))) by {
                if vk.take(i as int).contains((guest.host@, guest.vmid)) {
                    let j = choose|j: int| 0 <= j < vk.take(i as int).len() && vk.take(i as int)[j] == (guest.host@, guest.vmid);
                    assert(vv[j] == (guest.host@, guest.vmid));
                }
            }
        }
        vmids.push((guest.host.clone(), guest.vmid));
        proof {
            assert(vmids@.map_values(|v: (String, u32)| (v.0@, v.1)) =~= vk.take(i + 1));
        }
        // MAC
        let mac = upper_string(guest.mac.as_str());
        let ghost mk = guest_macs(all);
        let mdup = string_in(&macs, mac.as_str());
        proof {
            assert(mk.take(i + 1) =~= mk.take(i as int).push(mac@));
            lemma_push_no_duplicates(mk.take(i as int), mac@);
        }
        if mdup {
            proof {
                lemma_dup_in_prefix(mk, mk.take(i + 1));
                assert(mk.take(i as int).contains(mac@));
            }
            return Err(ValidationError::DuplicateMac { guest: name.clone(), mac });
        }
        macs.push(mac);
        proof {
            assert(texts(macs@) =~= mk.take(i + 1));
        }
        // IPv4
        let ghost ak = guest_ipv4s(all);
        let adup = u32_in(&addresses, guest.ipv4);
        proof {
            assert(ak.take(i + 1) =~= ak.take(i as int).push(guest.ipv4));
            lemma_push_no_duplicates(ak.take(i as int), guest.ipv4);
        }
        if adup {
            proof {
                lemma_dup_in_prefix(ak, ak.take(i + 1));
            }
            return Err(ValidationError::DuplicateGuestIpv4 { guest: name.clone(), address: guest.ipv4 });
        }
        addresses.push(guest.ipv4);
        if guest.kind != GuestKind::Vm && (guest.pci_devices.len() != 0 || guest.virtiofs.len() != 0) {
            return Err(ValidationError::NonVmAttachments { guest: name.clone() });
        }
        match check_guest_attachments(name, guest) {
            Ok(()) => {},
            Err(e) => {
                proof {
                    assert(!attachments_ok(*guest));
                }
                return Err(e);
            },
        }
        proof {
            assert(guest_checks_pass(b, i as int));
        }
        // PCI devices across guests
        proof {
            lemma_flat_map_step(all, gd, i as int);
            lemma_flat_map_prefix(all, gd, (i + 1) as int);
        }
        let ghost dbase = guest_pci_devices(all.take(i as int));
        let ghost own = guest.pci_devices@.map_values(|d: crate::model::GuestPciDevice| d.device@);
        let mut k: usize = 0;
        while k < guest.pci_devices.len()
            invariant
                guest == &all[i as int].1,
                i < all.len(),
                own == guest.pci_devices@.map_values(|d: crate::model::GuestPciDevice| d.device@),
                dbase == guest_pci_devices(all.take(i as int)),
                guest_pci_devices(all.take(i + 1)) == dbase + own,
                guest_pci_devices(all).take(guest_pci_devices(all.take(i + 1)).len() as int) == guest_pci_devices(all.take(i + 1)),
                guest_pci_devices(all).len() >= guest_pci_devices(all.take(i + 1)).len(),
                k <= own.len(),
                devices@.map_values(|c: (String, String)| c.0@) == dbase + own.take(k as int),
                (dbase + own.take(k as int)).no_duplicates(),
                guests == &b.guests.guests,
                all == guests@,
                guests_prefix_ok(b, i as int),
                guest_checks_pass(b, i as int),
                name@ == all[i as int].0@,
            decreases own.len() - k,
        {
            let device = &guest.pci_devices[k].device;
            let ghost cv = devices@.map_values(|c: (String, String)| c.0@);
            proof {
                let pre = dbase + own.take(k + 1);
                assert(own.take(k + 1) =~= own.take(k as int).push(device@));
                assert(pre =~= cv.push(device@));
                lemma_push_no_duplicates(cv, device@);
                assert(guest_pci_devices(all).take(pre.len() as int) =~= pre);
                if cv.contains(device@) {
                    lemma_dup_in_prefix(guest_pci_devices(all), pre);
                }
            }
            let mut q: usize = 0;
            while q < devices.len()
                invariant
                    q <= devices@.len(),
                    cv == devices@.map_values(|c: (String, String)| c.0@),
                    cv.contains(device@) ==> !guest_pci_devices(all).no_duplicates(),
                    forall|j: int| 0 <= j < q ==> cv[j] != device@,
                    guests == &b.guests.guests,
                    all == guests@,
                    guests_prefix_ok(b, i as int),
                    guest_checks_pass(b, i as int),
                    name@ == all[i as int].0@,
                    i < all.len(),
                    cv == dbase + own.take(k as int),
                    (dbase + own.take(k as int)).no_duplicates(),
                    k < own.len(),
                    own[k as int] == device@,
                    guest == &all[i as int].1,
                    own == guest.pci_devices@.map_values(|d: crate::model::GuestPciDevice| d.device@),
                    dbase == guest_pci_devices(all.take(i as int)),
                decreases devices@.len() - q,
            {
                if devices[q].0 == *device {
                    assert(cv[q as int] == device@);
                    assert(cv.contains(device@));
                    return Err(
                        ValidationError::PciDeviceClaimedTwice {
                            owner: devices[q].1.clone(),
                            guest: name.clone(),
                            device: device.clone(),
                        },
                    );
                }
                q = q + 1;
            }
            devices.push((device.clone(), name.clone()));
            k = k + 1;
            proof {
                assert(devices@.map_values(|c: (String, String)| c.0@) =~= cv.push(device@));
            }
        }
        proof {
            assert(own.take(own.len() as int) =~= own);
            assert(guest_ok(b, all[i as int].1));
        }
        i = i + 1;
    }
    proof {
        assert(all.take(all.len() as int) =~= all);
        assert(guest_vmid_keys(all).take(all.len() as int) =~= guest_vmid_keys(all));
        assert(guest_macs(all).take(all.len() as int) =~= guest_macs(all));
        assert(guest_ipv4s(all).take(all.len() as int) =~= guest_ipv4s(all));
    }
    Ok(())
}

fn check_mounts(b: &ConfigBundle) -> (r: Result<(), ValidationError>)
    ensures
        r is Ok <==> mounts_ok(b),
        r matches Err(e) ==> inventory_error(e),
        r matches Err(e) ==> mounts_refusal(b, e),
{
    let mounts = &b.mounts.mounts;
    let mut i: usize = 0;
    while i < mounts.len()
        invariant
            mounts == &b.mounts.mounts,
            i <= mounts@.len(),
            forall|j: int|
                0 <= j < i ==> {
                    let m = (#[trigger] mounts@[j]).1;
                    &&& has_key(b.inventory.hosts@, m.host@)
                    &&& has_key(b.inventory.hosts@, m.server_host@)
                    &&& starts_with_char(m.mount_path@, '/')
                },
        decreases mounts@.len() - i,
    {
        let id = &mounts[i].0;
        let mount = &mounts[i].1;
        if !contains_key(&b.inventory.hosts, mount.host.as_str()) {
            return Err(ValidationError::MountUnknownHost { mount: id.clone(), host: mount.host.clone() });
        }
        if !contains_key(&b.inventory.hosts, mount.server_host.as_str()) {
            return Err(ValidationError::MountUnknownServer { mount: id.clone(), host: mount.server_host.clone() });
        }
        if !first_char_is(mount.mount_path.as_str(), '/') {
            return Err(ValidationError::MountPathNotAbsolute { mount: id.clone(), path: mount.mount_path.clone() });
        }
        i = i + 1;
    }
    Ok(())
}

/// Checks the guest and network-mount rules.
pub fn validate_guest_and_mount_references(b: &ConfigBundle) -> (r: Result<(), ValidationError>)
    ensures
        r is Ok <==> guests_ok(b) && mounts_ok(b),
        r matches Err(e) ==> inventory_error(e),
        r matches Err(e) ==> inventory_refusal(b, e),
{
    check_guests(b)?;
    check_mounts(b)
}

fn check_nas_permissions(b: &ConfigBundle) -> (r: Result<(), ValidationError>)
    ensures
        r is Ok <==> nas_permissions_ok(b),
        r matches Err(e) ==> storage_error(e),
        r matches Err(e) ==> nas_permissions_refusal(b, e),
{
    let perms = &b.nas_permissions.permissions;
    let mut i: usize = 0;
    while i < perms.len()
        invariant
            perms == &b.nas_permissions.permissions,
            i <= perms@.len(),
            forall|j: int|
                0 <= j < i ==> {
                    let p = (#[trigger] perms@[j]).1;
                    &&& has_key(b.inventory.hosts@, p.nas@)
                    &&& has_key(b.inventory.hosts@, p.client_host@)
                    &&& !blank(p.share@)
                    &&& !blank(p.security@)
                },
        decreases perms@.len() - i,
    {
        let id = &perms[i].0;
        let p = &perms[i].1;
        if !contains_key(&b.inventory.hosts, p.nas.as_str()) {
            return Err(ValidationError::NasUnknownNas { permission: id.clone(), host: p.nas.clone() });
        }
        if !contains_key(&b.inventory.hosts, p.client_host.as_str()) {
            return Err(ValidationError::NasUnknownClient { permission: id.clone(), host: p.client_host.clone() });
        }
        if is_blank(p.share.as_str()) {
            return Err(ValidationError::NasEmptyShare { permission: id.clone() });
        }
        if is_blank(p.security.as_str()) {
            return Err(ValidationError::NasEmptySecurity { permission: id.clone() });
        }
        i = i + 1;
    }
    Ok(())
}

fn check_storages(b: &ConfigBundle) -> (r: Result<(), ValidationError>)
    ensures
        r is Ok <==> storages_ok(b),
        r matches Err(e) ==> storage_error(e),
        r matches Err(e) ==> storages_refusal(b, e),
{
    let storages = &b.proxmox_storages.storages;
    let ghost all = storages@;
    let ghost keys = storage_keys(all);
    let mut ids: Vec<(String, String)> = Vec::new();
    let mut i: usize = 0;
    while i < storages.len()
        invariant
            storages == &b.proxmox_storages.storages,
            all == storages@,
            keys == storage_keys(all),
            i <= all.len(),
            forall|j: int| 0 <= j < i ==> storage_ok(b, (#[trigger] all[j]).1),
            ids@.map_values(|v: (String, String)| (v.0@, v.1@)) == keys.take(i as int),
            keys.take(i as int).no_duplicates(),
        decreases all.len() - i,
    {
        let id = &storages[i].0;
        let s = &storages[i].1;
        if !contains_key(&b.inventory.hosts, s.host.as_str()) {
            return Err(ValidationError::StorageUnknownHost { storage: id.clone(), host: s.host.clone() });
        }
        if !contains_key(&b.inventory.hosts, s.server_host.as_str()) {
            return Err(ValidationError::StorageUnknownServer { storage: id.clone(), host: s.server_host.clone() });
        }
        if !first_char_is(s.mount_path.as_str(), '/') {
            return Err(ValidationError::StoragePathNotAbsolute { storage: id.clone(), path: s.mount_path.clone() });
        }
        if is_blank(s.export.as_str()) || !first_char_is(s.export.as_str(), '/') {
            return Err(ValidationError::StorageExportNotAbsolute { storage: id.clone(), export: s.export.clone() });
        }
        if s.content.len() == 0 {
            return Err(ValidationError::StorageNoContent { storage: id.clone() });
        }
        let ghost iv = ids@.map_values(|v: (String, String)| (v.0@, v.1@));
        let mut dup = false;
        let mut q: usize = 0;
        while q < ids.len()
            invariant
                q <= ids@.len(),
                iv == ids@.map_values(|v: (String, String)| (v.0@, v.1@)),
                dup ==> iv.contains((s.host@, s.storage_id@)),
                !dup ==> forall|j: int| 0 <= j < q ==> iv[j] != (s.host@, s.storage_id@),
            decreases ids@.len() - q,
        {
            if ids[q].0 == s.host && ids[q].1 == s.storage_id {
                assert(iv[q as int] == (s.host@, s.storage_id@));
                dup = true;
            }
            q = q + 1;
        }
        proof {
            assert(keys.take(i + 1) =~= keys.take(i as int).push((s.host@, s.storage_id@)));
            lemma_push_no_duplicates(keys.take(i as int), (s.host@, s.storage_id@));
        }
        if dup {
            proof {
                lemma_dup_in_prefix(keys, keys.take(i + 1));
            }
            return Err(
                ValidationError::DuplicateStorageId {
                    storage: id.clone(),
                    storage_id: s.storage_id.clone(),
                    host: s.host.clone(),
                },
            );
        }
        ids.push((s.host.clone(), s.storage_id.clone()));
        proof {
            assert(ids@.map_values(|v: (String, String)| (v.0@, v.1@)) =~= keys.take(i + 1));
        }
        i = i + 1;
    }
    proof {
        assert(keys.take(all.len() as int) =~= keys);
    }
    Ok(())
}

/// Checks the NAS permission and Proxmox storage rules.
pub fn validate_storage_and_nas_references(b: &ConfigBundle) -> (r: Result<(), ValidationError>)
    ensures
        r is Ok <==> nas_permissions_ok(b) && storages_ok(b),
        r matches Err(e) ==> storage_error(e),
        r matches Err(e) ==> nas_and_storage_refusal(b, e),
{
    check_nas_permissions(b)?;
    check_storages(b)
}

} // verus!
