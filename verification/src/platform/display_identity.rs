//! Persistent display identity, collected independently of desktop position.
use vstd::prelude::*;

use crate::capture::foreground::opt_view;
use crate::text::{
    ascii_lowercase, chars_of, decimal, hex_fixed, push_ascii_lowercase, push_decimal, push_hex,
    push_str, string_of,
};

verus! {

#[derive(Debug, Clone, Copy, PartialEq, Eq, Hash, Default, Structural)]
pub enum DisplayOrientation {
    #[default]
    Landscape,
    Portrait,
    LandscapeFlipped,
    PortraitFlipped,
}

#[derive(Debug, Clone, Copy, PartialEq, Eq, Default, Structural)]
pub enum IdentityQuality {
    DevicePathOrEdid,
    AdapterTarget,
    PersistentTarget,
    #[default]
    GdiFallback,
}

#[derive(Debug, Clone, PartialEq, Eq, Default, Structural)]
pub struct AdapterLuid {
    pub high: i32,
    pub low: u32,
}

#[derive(Debug, Clone, PartialEq, Eq, Default)]
pub struct DisplayIdentity {
    pub stable_key: String,
    pub adapter_luid: Option<AdapterLuid>,
    pub source_id: Option<u32>,
    pub target_id: Option<u32>,
    pub monitor_device_path: Option<String>,
    pub edid_manufacturer_id: Option<u16>,
    pub edid_product_code: Option<u16>,
    pub target_friendly_name: Option<String>,
    pub gdi_source_name: String,
    pub quality: IdentityQuality,
}

/// Whether an optional string is present and non-empty.
pub open spec fn present(o: Option<Seq<char>>) -> bool {
    o matches Some(s) && s.len() > 0
}

/// The stable key of an identity and how good it is, from the best evidence
/// available: the monitor device path, then EDID codes with the target, then
/// the adapter LUID with the target, then the target's friendly name, and
/// last the GDI source name.
pub open spec fn identity_key_and_quality(d: DisplayIdentity) -> (Seq<char>, IdentityQuality) {
    if present(opt_view(d.monitor_device_path)) {
        (
            "path:"@ + ascii_lowercase(opt_view(d.monitor_device_path).unwrap()),
            IdentityQuality::DevicePathOrEdid,
        )
    } else if d.edid_manufacturer_id is Some && d.edid_product_code is Some && d.target_id is Some {
        (
            "edid:"@ + hex_fixed(d.edid_manufacturer_id.unwrap() as nat, 4) + ":"@ + hex_fixed(
                d.edid_product_code.unwrap() as nat,
                4,
            ) + ":"@ + decimal(d.target_id.unwrap() as nat),
            IdentityQuality::DevicePathOrEdid,
        )
    } else if d.adapter_luid is Some && d.target_id is Some {
        (
            "adapter:"@ + hex_fixed((d.adapter_luid.unwrap().high as u32) as nat, 8) + hex_fixed(
                d.adapter_luid.unwrap().low as nat,
                8,
            ) + ":target:"@ + decimal(d.target_id.unwrap() as nat),
            IdentityQuality::AdapterTarget,
        )
    } else if present(opt_view(d.target_friendly_name)) {
        (
            "target:"@ + ascii_lowercase(opt_view(d.target_friendly_name).unwrap()),
            IdentityQuality::PersistentTarget,
        )
    } else {
        ("gdi:"@ + d.gdi_source_name@, IdentityQuality::GdiFallback)
    }
}

impl DisplayIdentity {
    /// An identity known only by its GDI source name.
    pub fn gdi_fallback(name: &str) -> (d: Self)
        ensures
            d.stable_key@ == "gdi:"@ + name@,
            d.gdi_source_name@ == name@,
            d.quality == IdentityQuality::GdiFallback,
            d.adapter_luid is None,
            d.source_id is None,
            d.target_id is None,
            d.monitor_device_path is None,
            d.edid_manufacturer_id is None,
            d.edid_product_code is None,
            d.target_friendly_name is None,
    {
        let mut key: Vec<char> = Vec::new();
        push_str(&mut key, "gdi:");
        push_str(&mut key, name);
        DisplayIdentity {
            stable_key: string_of(key.as_slice()),
            adapter_luid: None,
            source_id: None,
            target_id: None,
            monitor_device_path: None,
            edid_manufacturer_id: None,
            edid_product_code: None,
            target_friendly_name: None,
            gdi_source_name: name.to_owned(),
            quality: IdentityQuality::GdiFallback,
        }
    }

    /// Recomputes the stable key and its quality from the evidence collected.
    pub fn rebuild_stable_key(&mut self)
        ensures
            (final(self).stable_key@, final(self).quality) == identity_key_and_quality(*old(self)),
            final(self).adapter_luid == old(self).adapter_luid,
            final(self).source_id == old(self).source_id,
            final(self).target_id == old(self).target_id,
            final(self).monitor_device_path == old(self).monitor_device_path,
            final(self).edid_manufacturer_id == old(self).edid_manufacturer_id,
            final(self).edid_product_code == old(self).edid_product_code,
            final(self).target_friendly_name == old(self).target_friendly_name,
            final(self).gdi_source_name == old(self).gdi_source_name,
    {
        let mut key: Vec<char> = Vec::new();
        let path_present = match &self.monitor_device_path {
            Some(p) => chars_of(p.as_str()).len() > 0,
            None => false,
        };
        let name_present = match &self.target_friendly_name {
            Some(p) => chars_of(p.as_str()).len() > 0,
            None => false,
        };
        let quality;
        if path_present {
            let p = match &self.monitor_device_path {
                Some(p) => chars_of(p.as_str()),
                None => Vec::new(),
            };
            push_str(&mut key, "path:");
            push_ascii_lowercase(&mut key, p.as_slice());
            quality = IdentityQuality::DevicePathOrEdid;
        } else if self.edid_manufacturer_id.is_some() && self.edid_product_code.is_some()
            && self.target_id.is_some() {
            let m = match self.edid_manufacturer_id {
                Some(m) => m,
                None => 0,
            };
            let pc = match self.edid_product_code {
                Some(p) => p,
                None => 0,
            };
            let t = match self.target_id {
                Some(t) => t,
                None => 0,
            };
            push_str(&mut key, "edid:");
            push_hex(&mut key, m as u64, 4);
            push_str(&mut key, ":");
            push_hex(&mut key, pc as u64, 4);
            push_str(&mut key, ":");
            push_decimal(&mut key, t as u64);
            quality = IdentityQuality::DevicePathOrEdid;
        } else if self.adapter_luid.is_some() && self.target_id.is_some() {
            let (high, low) = match &self.adapter_luid {
                Some(l) => (l.high, l.low),
                None => (0, 0),
            };
            let t = match self.target_id {
                Some(t) => t,
                None => 0,
            };
            push_str(&mut key, "adapter:");
            push_hex(&mut key, (high as u32) as u64, 8);
            push_hex(&mut key, low as u64, 8);
            push_str(&mut key, ":target:");
            push_decimal(&mut key, t as u64);
            quality = IdentityQuality::AdapterTarget;
        } else if name_present {
            let nm = match &self.target_friendly_name {
                Some(p) => chars_of(p.as_str()),
                None => Vec::new(),
            };
            push_str(&mut key, "target:");
            push_ascii_lowercase(&mut key, nm.as_slice());
            quality = IdentityQuality::PersistentTarget;
        } else {
            push_str(&mut key, "gdi:");
            push_str(&mut key, self.gdi_source_name.as_str());
            quality = IdentityQuality::GdiFallback;
        }
        self.stable_key = string_of(key.as_slice());
        self.quality = quality;
    }
}

/// A monitor device path outranks every other piece of evidence: two
/// identities with the same non-empty device path get the same key, however
/// their GDI names, targets or adapters differ (so a GDI rename keeps the key).
pub proof fn lemma_device_path_key_survives_gdi_rename(a: DisplayIdentity, b: DisplayIdentity)
    requires
        present(opt_view(a.monitor_device_path)),
        a.monitor_device_path == b.monitor_device_path,
    ensures
        identity_key_and_quality(a) == identity_key_and_quality(b),
{
}

/// What the display configuration reports of a target monitor; empty texts
/// and zero codes mean "not reported".
#[derive(Debug, Clone, PartialEq, Eq)]
pub struct TargetReport {
    pub monitor_device_path: String,
    pub friendly_name: String,
    pub edid_manufacturer_id: u16,
    pub edid_product_code: u16,
}

/// What the display configuration reports of one active path: the adapter,
/// the source and target ids, the GDI name of the source, the rotation code
/// (2, 3 and 4 for a quarter, half and three-quarter turn), and the target,
/// when it could be read.
#[derive(Debug, Clone, PartialEq, Eq)]
pub struct PathReport {
    pub adapter: AdapterLuid,
    pub source_id: u32,
    pub target_id: u32,
    pub gdi_name: String,
    pub rotation: u32,
    pub target: Option<TargetReport>,
}

/// The orientation a rotation code stands for.
pub open spec fn orientation_of(rotation: u32) -> DisplayOrientation {
    if rotation == 2 {
        DisplayOrientation::Portrait
    } else if rotation == 3 {
        DisplayOrientation::LandscapeFlipped
    } else if rotation == 4 {
        DisplayOrientation::PortraitFlipped
    } else {
        DisplayOrientation::Landscape
    }
}

/// The orientation follows the turn: a quarter or three-quarter turn (2 or
/// 4) stands the monitor on its side, and only those give a portrait
/// orientation; a half or three-quarter turn (3 or 4) turns it over, and only
/// those give a flipped one; no turn, or an unknown code, is plain landscape.
pub proof fn lemma_orientation_follows_the_turn(rotation: u32)
    ensures
        (orientation_of(rotation) == DisplayOrientation::Portrait || orientation_of(rotation)
            == DisplayOrientation::PortraitFlipped) <==> (rotation == 2 || rotation == 4),
        (orientation_of(rotation) == DisplayOrientation::LandscapeFlipped || orientation_of(rotation)
            == DisplayOrientation::PortraitFlipped) <==> (rotation == 3 || rotation == 4),
{
}

/// A reported text, absent when empty.
pub open spec fn reported_text(s: Seq<char>) -> Option<Seq<char>> {
    if s.len() == 0 {
        None
    } else {
        Some(s)
    }
}

/// A monitor's identity with a path's report merged in, before its key is
/// rebuilt: the adapter, ids and GDI name always; the device path and
/// friendly name (present or not) and the non-zero EDID codes when the
/// target was read.
pub open spec fn merged_identity(d: DisplayIdentity, p: PathReport) -> DisplayIdentity {
    let base = DisplayIdentity {
        adapter_luid: Some(p.adapter),
        source_id: Some(p.source_id),
        target_id: Some(p.target_id),
        gdi_source_name: p.gdi_name,
        ..d
    };
    match p.target {
        None => base,
        Some(t) => DisplayIdentity {
            monitor_device_path: if t.monitor_device_path@.len() == 0 { None } else { Some(t.monitor_device_path) },
            target_friendly_name: if t.friendly_name@.len() == 0 { None } else { Some(t.friendly_name) },
            edid_manufacturer_id: if t.edid_manufacturer_id != 0 { Some(t.edid_manufacturer_id) } else { base.edid_manufacturer_id },
            edid_product_code: if t.edid_product_code != 0 { Some(t.edid_product_code) } else { base.edid_product_code },
            ..base
        },
    }
}

/// The first monitor whose label is the given GDI name.
pub fn monitor_with_label(labels: &[Option<String>], gdi_name: &str) -> (r: Option<usize>)
    ensures
        match r {
            Some(i) => i < labels@.len() && opt_view(labels@[i as int]) == Some(gdi_name@) && forall|j: int|
                0 <= j < i ==> opt_view(#[trigger] labels@[j]) != Some(gdi_name@),
            None => forall|j: int| 0 <= j < labels@.len() ==> opt_view(#[trigger] labels@[j]) != Some(gdi_name@),
        },
{
    let mut i: usize = 0;
    while i < labels.len()
        invariant
            i <= labels@.len(),
            forall|j: int| 0 <= j < i ==> opt_view(#[trigger] labels@[j]) != Some(gdi_name@),
        decreases labels@.len() - i,
    {
        match &labels[i] {
            Some(l) => {
                if crate::text::str_eq(l.as_str(), gdi_name) {
                    return Some(i);
                }
            },
            None => {},
        }
        i = i + 1;
    }
    None
}

impl DisplayIdentity {
    /// Merges a path's report into this identity, rebuilds its stable key,
    /// and gives the orientation the path reports.
    pub fn merge_path_report(&mut self, report: &PathReport) -> (o: DisplayOrientation)
        ensures
            o == orientation_of(report.rotation),
            (o == DisplayOrientation::Portrait || o == DisplayOrientation::PortraitFlipped) <==> (report.rotation == 2
                || report.rotation == 4),
            (o == DisplayOrientation::LandscapeFlipped || o == DisplayOrientation::PortraitFlipped) <==> (
            report.rotation == 3 || report.rotation == 4),
            (final(self).stable_key@, final(self).quality) == identity_key_and_quality(merged_identity(*old(self), *report)),
            final(self).adapter_luid == Some(report.adapter),
            final(self).source_id == Some(report.source_id),
            final(self).target_id == Some(report.target_id),
            final(self).gdi_source_name == report.gdi_name,
            final(self).monitor_device_path == merged_identity(*old(self), *report).monitor_device_path,
            final(self).target_friendly_name == merged_identity(*old(self), *report).target_friendly_name,
            final(self).edid_manufacturer_id == merged_identity(*old(self), *report).edid_manufacturer_id,
            final(self).edid_product_code == merged_identity(*old(self), *report).edid_product_code,
    {
        self.adapter_luid = Some(AdapterLuid { high: report.adapter.high, low: report.adapter.low });
        self.source_id = Some(report.source_id);
        self.target_id = Some(report.target_id);
        self.gdi_source_name = report.gdi_name.clone();
        let o = if report.rotation == 2 {
            DisplayOrientation::Portrait
        } else if report.rotation == 3 {
            DisplayOrientation::LandscapeFlipped
        } else if report.rotation == 4 {
            DisplayOrientation::PortraitFlipped
        } else {
            DisplayOrientation::Landscape
        };
        match &report.target {
            Some(t) => {
                self.monitor_device_path = if chars_of(t.monitor_device_path.as_str()).len() == 0 {
                    None
                } else {
                    Some(t.monitor_device_path.clone())
                };
                self.target_friendly_name = if chars_of(t.friendly_name.as_str()).len() == 0 {
                    None
                } else {
                    Some(t.friendly_name.clone())
                };
                if t.edid_manufacturer_id != 0 {
                    self.edid_manufacturer_id = Some(t.edid_manufacturer_id);
                }
                if t.edid_product_code != 0 {
                    self.edid_product_code = Some(t.edid_product_code);
                }
            },
            None => {},
        }
        let ghost merged = *self;
        proof {
            assert(merged == merged_identity(*old(self), *report));
        }
        self.rebuild_stable_key();
        proof {
            lemma_orientation_follows_the_turn(report.rotation);
        }
        o
    }
}

} // verus!
