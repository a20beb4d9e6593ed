//! Colour rules per application: the colour in which a recorded application
//! draws, with manual overrides, renaming and merging of rules.
use vstd::prelude::*;

use crate::app_colors::str_map::{assoc_insert, lemma_get_after_insert, lemma_insert_nonempty, StrMap};
use crate::keyed::{assoc_get, assoc_remove, assoc_update, lemma_get_after_update, lemma_update_keeps_keys};
use crate::capture::foreground::{identity_key, ApplicationIdentity};
use crate::clock::unix_time_now;
use crate::settings::model::RgbaColor;
use crate::text::{hex_fixed, push_hex, str_eq, string_of};

verus! {

/// How an application's colour is chosen.
#[derive(Debug, Clone, Copy, PartialEq, Eq, Structural)]
pub enum ApplicationColorMode {
    FixedGlobal,
    ApplicationSpecific,
    RandomOnce,
    PaletteOnce,
}

impl Default for ApplicationColorMode {
    fn default() -> (m: Self)
        ensures
            m == ApplicationColorMode::ApplicationSpecific,
    {
        ApplicationColorMode::ApplicationSpecific
    }
}

/// A colour rule: the keys it matches and the colour it draws in. Times are
/// seconds since the Unix epoch.
#[derive(Debug, Clone)]
pub struct ApplicationColorRule {
    pub id: String,
    pub label: String,
    pub match_keys: Vec<String>,
    pub automatic_color: RgbaColor,
    pub manual_color: Option<RgbaColor>,
    pub created_at: u64,
    pub last_seen_at: u64,
}

/// The entries of the older settings layout share the rule's shape.
pub type ApplicationColorEntry = ApplicationColorRule;

/// A rule seen as plain values.
pub struct RuleModel {
    pub id: Seq<char>,
    pub label: Seq<char>,
    pub match_keys: Seq<Seq<char>>,
    pub automatic_color: RgbaColor,
    pub manual_color: Option<RgbaColor>,
    pub created_at: u64,
    pub last_seen_at: u64,
}

/// The views of a sequence of strings.
pub open spec fn string_views(v: Seq<String>) -> Seq<Seq<char>> {
    v.map_values(|s: String| s@)
}

impl View for ApplicationColorRule {
    type V = RuleModel;

    open spec fn view(&self) -> RuleModel {
        RuleModel {
            id: self.id@,
            label: self.label@,
            match_keys: string_views(self.match_keys@),
            automatic_color: self.automatic_color,
            manual_color: self.manual_color,
            created_at: self.created_at,
            last_seen_at: self.last_seen_at,
        }
    }
}

/// The colour a rule draws in: the manual one where set, else the automatic one.
pub open spec fn resolved(r: RuleModel) -> RgbaColor {
    match r.manual_color {
        Some(c) => c,
        None => r.automatic_color,
    }
}

fn clone_strings(v: &Vec<String>) -> (r: Vec<String>)
    ensures
        string_views(r@) == string_views(v@),
{
    let mut r: Vec<String> = Vec::new();
    let mut i: usize = 0;
    while i < v.len()
        invariant
            i <= v@.len(),
            r@.len() == i,
            forall|j: int| 0 <= j < i ==> #[trigger] r@[j]@ == v@[j]@,
        decreases v@.len() - i,
    {
        let c = v[i].clone();
        r.push(c);
        i = i + 1;
    }
    assert(string_views(r@) =~= string_views(v@));
    r
}

impl ApplicationColorRule {
    /// The colour this rule draws in.
    pub fn resolved_color(&self) -> (c: RgbaColor)
        ensures
            c == resolved(self@),
    {
        match self.manual_color {
            Some(c) => c,
            None => self.automatic_color,
        }
    }

    /// Whether a manual colour overrides the automatic one.
    pub fn is_manual(&self) -> (b: bool)
        ensures
            b == self.manual_color is Some,
    {
        self.manual_color.is_some()
    }

    fn copy(&self) -> (r: Self)
        ensures
            r@ == self@,
    {
        ApplicationColorRule {
            id: self.id.clone(),
            label: self.label.clone(),
            match_keys: clone_strings(&self.match_keys),
            automatic_color: self.automatic_color,
            manual_color: self.manual_color,
            created_at: self.created_at,
            last_seen_at: self.last_seen_at,
        }
    }
}

/// The FNV-1a hash of a byte sequence, 64 bits.
pub open spec fn fnv1a(bytes: Seq<u8>) -> u64
    decreases bytes.len(),
{
    if bytes.len() == 0 {
        0xcbf29ce484222325u64
    } else {
        (fnv1a(bytes.drop_last()) ^ (bytes.last() as u64)).wrapping_mul(0x100000001b3u64)
    }
}

/// The hash of a key: FNV-1a over its UTF-8 bytes.
pub open spec fn key_hash(key: Seq<char>) -> u64 {
    fnv1a(vstd::utf8::encode_utf8(key))
}

/// The id of the rule made for a key: `app-` and sixteen hexadecimal digits
/// of the key's hash.
pub open spec fn rule_id_of(key: Seq<char>) -> Seq<char> {
    seq!['a', 'p', 'p', '-'] + hex_fixed(key_hash(key) as nat, 16)
}

/// The colour drawn from a key's hash: each channel 64 plus seven bits of the
/// hash, opaque.
pub open spec fn random_color_of(key: Seq<char>) -> RgbaColor {
    let h = key_hash(key);
    RgbaColor {
        r: (64 + (h & 0x7f)) as u8,
        g: (64 + ((h >> 8u64) & 0x7f)) as u8,
        b: (64 + ((h >> 16u64) & 0x7f)) as u8,
        a: 255,
    }
}

/// The palette colour picked by a key's hash, or the fallback for an empty
/// palette.
pub open spec fn palette_color_of(palette: Seq<RgbaColor>, key: Seq<char>, fallback: RgbaColor) -> RgbaColor {
    if palette.len() == 0 {
        fallback
    } else {
        palette[((key_hash(key) as usize) as int) % (palette.len() as int)]
    }
}

fn stable_hash(value: &str) -> (h: u64)
    ensures
        h == key_hash(value@),
{
    let bytes = value.as_bytes();
    let mut hash: u64 = 0xcbf29ce484222325u64;
    let mut i: usize = 0;
    while i < bytes.len()
        invariant
            i <= bytes@.len(),
            bytes@ == vstd::utf8::encode_utf8(value@),
            hash == fnv1a(bytes@.subrange(0, i as int)),
        decreases bytes@.len() - i,
    {
        assert(bytes@.subrange(0, i + 1).drop_last() =~= bytes@.subrange(0, i as int));
        hash = (hash ^ (bytes[i] as u64)).wrapping_mul(0x100000001b3u64);
        i = i + 1;
    }
    assert(bytes@.subrange(0, i as int) =~= bytes@);
    hash
}

fn rule_id(key: &str) -> (id: String)
    ensures
        id@ == rule_id_of(key@),
{
    let mut out: Vec<char> = Vec::new();
    out.push('a');
    out.push('p');
    out.push('p');
    out.push('-');
    push_hex(&mut out, stable_hash(key), 16);
    assert(out@ =~= rule_id_of(key@));
    string_of(out.as_slice())
}

fn random_color_from_key(key: &str) -> (c: RgbaColor)
    ensures
        c == random_color_of(key@),
{
    let h = stable_hash(key);
    assert(h & 0x7f <= 0x7f) by (bit_vector);
    assert((h >> 8u64) & 0x7f <= 0x7f) by (bit_vector);
    assert((h >> 16u64) & 0x7f <= 0x7f) by (bit_vector);
    RgbaColor::new(
        64 + (h & 0x7f) as u8,
        64 + ((h >> 8u64) & 0x7f) as u8,
        64 + ((h >> 16u64) & 0x7f) as u8,
        255,
    )
}

/// The colour rules of the application: how colours are chosen, the rules by
/// id, which rule owns each match key, and the entries of the older settings
/// layout by key.
#[derive(Debug)]
pub struct ApplicationColorRegistry {
    pub mode: ApplicationColorMode,
    pub fixed_global_color: RgbaColor,
    pub palette: Vec<RgbaColor>,
    pub rules: StrMap<ApplicationColorRule>,
    pub key_owners: StrMap<String>,
    pub entries: StrMap<ApplicationColorEntry>,
}

/// The registry seen as plain values; each map is its entries in key order.
pub struct RegistryModel {
    pub mode: ApplicationColorMode,
    pub fixed_global_color: RgbaColor,
    pub palette: Seq<RgbaColor>,
    pub rules: Seq<(Seq<char>, RuleModel)>,
    pub key_owners: Seq<(Seq<char>, Seq<char>)>,
    pub entries: Seq<(Seq<char>, RuleModel)>,
}

impl View for ApplicationColorRegistry {
    type V = RegistryModel;

    open spec fn view(&self) -> RegistryModel {
        RegistryModel {
            mode: self.mode,
            fixed_global_color: self.fixed_global_color,
            palette: self.palette@,
            rules: self.rules@,
            key_owners: self.key_owners@,
            entries: self.entries@,
        }
    }
}

/// `m` with other rules and key owners.
pub open spec fn with_rules_owners(
    m: RegistryModel,
    rules: Seq<(Seq<char>, RuleModel)>,
    key_owners: Seq<(Seq<char>, Seq<char>)>,
) -> RegistryModel {
    RegistryModel {
        mode: m.mode,
        fixed_global_color: m.fixed_global_color,
        palette: m.palette,
        rules,
        key_owners,
        entries: m.entries,
    }
}

/// `m` with other rules, key owners and entries.
pub open spec fn with_maps(
    m: RegistryModel,
    rules: Seq<(Seq<char>, RuleModel)>,
    key_owners: Seq<(Seq<char>, Seq<char>)>,
    entries: Seq<(Seq<char>, RuleModel)>,
) -> RegistryModel {
    RegistryModel {
        mode: m.mode,
        fixed_global_color: m.fixed_global_color,
        palette: m.palette,
        rules,
        key_owners,
        entries,
    }
}

/// `r` with another manual colour.
pub open spec fn with_manual(r: RuleModel, manual_color: Option<RgbaColor>) -> RuleModel {
    RuleModel {
        id: r.id,
        label: r.label,
        match_keys: r.match_keys,
        automatic_color: r.automatic_color,
        manual_color,
        created_at: r.created_at,
        last_seen_at: r.last_seen_at,
    }
}

/// `r` last seen at `now`.
pub open spec fn seen_at(r: RuleModel, now: u64) -> RuleModel {
    RuleModel {
        id: r.id,
        label: r.label,
        match_keys: r.match_keys,
        automatic_color: r.automatic_color,
        manual_color: r.manual_color,
        created_at: r.created_at,
        last_seen_at: now,
    }
}

/// `r` with another label.
pub open spec fn with_label(r: RuleModel, label: Seq<char>) -> RuleModel {
    RuleModel {
        id: r.id,
        label,
        match_keys: r.match_keys,
        automatic_color: r.automatic_color,
        manual_color: r.manual_color,
        created_at: r.created_at,
        last_seen_at: r.last_seen_at,
    }
}

/// `r` with other match keys.
pub open spec fn with_keys(r: RuleModel, match_keys: Seq<Seq<char>>) -> RuleModel {
    RuleModel {
        id: r.id,
        label: r.label,
        match_keys,
        automatic_color: r.automatic_color,
        manual_color: r.manual_color,
        created_at: r.created_at,
        last_seen_at: r.last_seen_at,
    }
}

/// The second key of the rule made from an older entry: the entry's first
/// match key, or its own key when it has none.
pub open spec fn entry_first_key(k: Seq<char>, e: RuleModel) -> Seq<char> {
    if e.match_keys.len() > 0 {
        e.match_keys[0]
    } else {
        k
    }
}

/// The rule made from the older entry `e` stored under `k`.
pub open spec fn rule_from_entry(k: Seq<char>, e: RuleModel) -> RuleModel {
    RuleModel {
        id: rule_id_of(k),
        label: e.label,
        match_keys: seq![k, entry_first_key(k, e)],
        automatic_color: e.automatic_color,
        manual_color: e.manual_color,
        created_at: 0,
        last_seen_at: 0,
    }
}

/// Rules and key owners after turning the older entries `es` into rules, in
/// order: each entry's rule is stored under its id, and its two keys are
/// given to it.
pub open spec fn migrate_entries(
    rules: Seq<(Seq<char>, RuleModel)>,
    owners: Seq<(Seq<char>, Seq<char>)>,
    es: Seq<(Seq<char>, RuleModel)>,
) -> (Seq<(Seq<char>, RuleModel)>, Seq<(Seq<char>, Seq<char>)>)
    decreases es.len(),
{
    if es.len() == 0 {
        (rules, owners)
    } else {
        let prev = migrate_entries(rules, owners, es.drop_last());
        let k = es.last().0;
        let r = rule_from_entry(k, es.last().1);
        (
            assoc_insert(prev.0, r.id, r),
            assoc_insert(assoc_insert(prev.1, k, r.id), entry_first_key(k, es.last().1), r.id),
        )
    }
}

/// Key owners after giving each of `keys`, in order, to rule `id`.
pub open spec fn claim_keys(
    owners: Seq<(Seq<char>, Seq<char>)>,
    id: Seq<char>,
    keys: Seq<Seq<char>>,
) -> Seq<(Seq<char>, Seq<char>)>
    decreases keys.len(),
{
    if keys.len() == 0 {
        owners
    } else {
        assoc_insert(claim_keys(owners, id, keys.drop_last()), keys.last(), id)
    }
}

/// Key owners after giving every rule of `rules`, in order, its match keys.
pub open spec fn claim_all(
    owners: Seq<(Seq<char>, Seq<char>)>,
    rules: Seq<(Seq<char>, RuleModel)>,
) -> Seq<(Seq<char>, Seq<char>)>
    decreases rules.len(),
{
    if rules.len() == 0 {
        owners
    } else {
        claim_keys(claim_all(owners, rules.drop_last()), rules.last().0, rules.last().1.match_keys)
    }
}

/// The registry brought to the current layout: with no rules, the older
/// entries become rules; with no key owners, every rule's match keys are
/// given to it.
pub open spec fn migrated(m: RegistryModel) -> RegistryModel {
    let first = if m.rules.len() == 0 && m.entries.len() > 0 {
        migrate_entries(m.rules, m.key_owners, m.entries)
    } else {
        (m.rules, m.key_owners)
    };
    let owners = if first.1.len() == 0 {
        claim_all(first.1, first.0)
    } else {
        first.1
    };
    with_rules_owners(m, first.0, owners)
}

/// The automatic colour of a new rule for `key`.
pub open spec fn automatic_color_of(m: RegistryModel, key: Seq<char>, fallback: RgbaColor) -> RgbaColor {
    match m.mode {
        ApplicationColorMode::FixedGlobal => m.fixed_global_color,
        ApplicationColorMode::ApplicationSpecific | ApplicationColorMode::PaletteOnce => palette_color_of(
            m.palette,
            key,
            fallback,
        ),
        ApplicationColorMode::RandomOnce => random_color_of(key),
    }
}

/// The rule made for an application seen for the first time.
pub open spec fn new_rule_model(
    m: RegistryModel,
    app: ApplicationIdentity,
    fallback: RgbaColor,
    now: u64,
) -> RuleModel {
    let key = identity_key(app);
    RuleModel {
        id: rule_id_of(key),
        label: app.executable_name@,
        match_keys: seq![key],
        automatic_color: automatic_color_of(m, key, fallback),
        manual_color: None,
        created_at: now,
        last_seen_at: now,
    }
}

/// The registry after the owner of `app`'s key is looked up, with a new rule
/// made and the key given to it where it had no owner; and the owner's id.
pub open spec fn owner_for(
    m: RegistryModel,
    app: ApplicationIdentity,
    fallback: RgbaColor,
    now: u64,
) -> (RegistryModel, Seq<char>) {
    let key = identity_key(app);
    match assoc_get(m.key_owners, key) {
        Some(id) => (m, id),
        None => {
            let r = new_rule_model(m, app, fallback, now);
            (
                with_maps(
                    m,
                    assoc_insert(m.rules, r.id, r),
                    assoc_insert(m.key_owners, key, r.id),
                    assoc_insert(m.entries, key, r),
                ),
                r.id,
            )
        },
    }
}

/// What resolving `app`'s colour at time `now` leaves and returns: the fixed
/// colour in the fixed mode; else the owning rule's colour, the rule marked as
/// seen; the fallback where the owning rule is missing.
pub open spec fn color_for_outcome(
    m: RegistryModel,
    app: ApplicationIdentity,
    fallback: RgbaColor,
    now: u64,
) -> (RegistryModel, RgbaColor) {
    if m.mode == ApplicationColorMode::FixedGlobal {
        (m, m.fixed_global_color)
    } else {
        let (m2, id) = owner_for(migrated(m), app, fallback, now);
        match assoc_get(m2.rules, id) {
            Some(r) => (
                with_rules_owners(m2, assoc_update(m2.rules, id, seen_at(r, now)), m2.key_owners),
                resolved(r),
            ),
            None => (m2, fallback),
        }
    }
}

/// The entries with the given rule id, given a manual colour.
pub open spec fn override_entries(
    entries: Seq<(Seq<char>, RuleModel)>,
    id: Seq<char>,
    color: RgbaColor,
) -> Seq<(Seq<char>, RuleModel)> {
    entries.map_values(
        |p: (Seq<char>, RuleModel)|
            if p.1.id == id {
                (p.0, with_manual(p.1, Some(color)))
            } else {
                p
            },
    )
}

/// The registry after rule `id`, and every older entry with that id, gets the
/// manual colour `color`.
pub open spec fn override_by_id_outcome(m: RegistryModel, id: Seq<char>, color: RgbaColor) -> RegistryModel {
    let m1 = migrated(m);
    let rules = match assoc_get(m1.rules, id) {
        Some(r) => assoc_update(m1.rules, id, with_manual(r, Some(color))),
        None => m1.rules,
    };
    with_maps(m1, rules, m1.key_owners, override_entries(m1.entries, id, color))
}

/// The registry after `app`'s colour is resolved with `color` as fallback at
/// time `now` and the rule then owning its key gets `color` as manual colour.
pub open spec fn override_outcome(
    m: RegistryModel,
    app: ApplicationIdentity,
    color: RgbaColor,
    now: u64,
) -> RegistryModel {
    let m1 = color_for_outcome(m, app, color, now).0;
    match assoc_get(m1.key_owners, identity_key(app)) {
        Some(id) => override_by_id_outcome(m1, id, color),
        None => m1,
    }
}

/// The registry after the rule owning `app`'s key loses its manual colour.
pub open spec fn reset_outcome(m: RegistryModel, app: ApplicationIdentity) -> RegistryModel {
    let m1 = migrated(m);
    match assoc_get(m1.key_owners, identity_key(app)) {
        Some(id) => match assoc_get(m1.rules, id) {
            Some(r) => with_rules_owners(m1, assoc_update(m1.rules, id, with_manual(r, None)), m1.key_owners),
            None => m1,
        },
        None => m1,
    }
}

/// The view of an error message.
pub open spec fn error_view(r: Result<(), String>) -> Result<(), Seq<char>> {
    match r {
        Ok(()) => Ok(()),
        Err(e) => Err(e@),
    }
}

/// The registry and result after rule `id` is relabelled.
pub open spec fn rename_outcome(m: RegistryModel, id: Seq<char>, label: Seq<char>) -> (
    RegistryModel,
    Result<(), Seq<char>>,
) {
    let m1 = migrated(m);
    match assoc_get(m1.rules, id) {
        Some(r) => (
            with_rules_owners(m1, assoc_update(m1.rules, id, with_label(r, label)), m1.key_owners),
            Ok(()),
        ),
        None => (m1, Err("missing rule"@)),
    }
}

/// The survivor's match keys, the key owners, and whether every key could be
/// moved, after the keys `ks` of the merged rule are taken over in order. A
/// key owned by a third rule stops the merge there.
pub open spec fn merge_keys(
    keys: Seq<Seq<char>>,
    owners: Seq<(Seq<char>, Seq<char>)>,
    ks: Seq<Seq<char>>,
    survivor: Seq<char>,
    merged: Seq<char>,
) -> (Seq<Seq<char>>, Seq<(Seq<char>, Seq<char>)>, bool)
    decreases ks.len(),
{
    if ks.len() == 0 {
        (keys, owners, true)
    } else {
        let prev = merge_keys(keys, owners, ks.drop_last(), survivor, merged);
        let k = ks.last();
        if !prev.2 {
            prev
        } else if assoc_get(prev.1, k) is Some && assoc_get(prev.1, k).unwrap() != merged {
            (prev.0, prev.1, false)
        } else {
            (
                if prev.0.contains(k) {
                    prev.0
                } else {
                    prev.0.push(k)
                },
                assoc_insert(prev.1, k, survivor),
                true,
            )
        }
    }
}

/// The registry and result after rule `merged` is merged into `survivor`:
/// the merged rule is removed, and its keys go to the survivor one by one
/// until one of them is owned by a third rule.
pub open spec fn merge_outcome(m: RegistryModel, survivor: Seq<char>, merged: Seq<char>) -> (
    RegistryModel,
    Result<(), Seq<char>>,
) {
    let m1 = migrated(m);
    if survivor == merged {
        (m1, Ok(()))
    } else {
        match assoc_get(m1.rules, merged) {
            None => (m1, Err("missing merged rule"@)),
            Some(other) => {
                let rules = assoc_remove(m1.rules, merged);
                match assoc_get(rules, survivor) {
                    None => (with_rules_owners(m1, rules, m1.key_owners), Err("missing survivor"@)),
                    Some(s) => {
                        let mk = merge_keys(s.match_keys, m1.key_owners, other.match_keys, survivor, merged);
                        (
                            with_rules_owners(m1, assoc_update(rules, survivor, with_keys(s, mk.0)), mk.1),
                            if mk.2 {
                                Ok(())
                            } else {
                                Err("duplicate match-key ownership"@)
                            },
                        )
                    },
                }
            },
        }
    }
}

/// The palette of a new registry.
pub open spec fn default_palette() -> Seq<RgbaColor> {
    seq![
        RgbaColor { r: 0, g: 120, b: 215, a: 255 },
        RgbaColor { r: 255, g: 185, b: 0, a: 255 },
        RgbaColor { r: 16, g: 124, b: 16, a: 255 },
        RgbaColor { r: 232, g: 17, b: 35, a: 255 },
        RgbaColor { r: 104, g: 33, b: 122, a: 255 },
        RgbaColor { r: 0, g: 153, b: 188, a: 255 },
    ]
}

impl Default for ApplicationColorRegistry {
    fn default() -> (r: Self)
        ensures
            r@.mode == ApplicationColorMode::ApplicationSpecific,
            r@.fixed_global_color == (RgbaColor { r: 0, g: 120, b: 215, a: 255 }),
            r@.palette == default_palette(),
            r@.rules.len() == 0,
            r@.key_owners.len() == 0,
            r@.entries.len() == 0,
            consistent(r@),
    {
        let mut palette: Vec<RgbaColor> = Vec::new();
        palette.push(RgbaColor::new(0, 120, 215, 255));
        palette.push(RgbaColor::new(255, 185, 0, 255));
        palette.push(RgbaColor::new(16, 124, 16, 255));
        palette.push(RgbaColor::new(232, 17, 35, 255));
        palette.push(RgbaColor::new(104, 33, 122, 255));
        palette.push(RgbaColor::new(0, 153, 188, 255));
        assert(palette@ =~= default_palette());
        ApplicationColorRegistry {
            mode: ApplicationColorMode::ApplicationSpecific,
            fixed_global_color: RgbaColor::new(0, 120, 215, 255),
            palette,
            rules: StrMap::new(),
            key_owners: StrMap::new(),
            entries: StrMap::new(),
        }
    }
}

fn two_keys(a: String, b: String) -> (v: Vec<String>)
    ensures
        string_views(v@) == seq![a@, b@],
{
    let mut v: Vec<String> = Vec::new();
    v.push(a);
    v.push(b);
    assert(string_views(v@) =~= seq![a@, b@]);
    v
}

fn contains_str(v: &Vec<String>, key: &str) -> (b: bool)
    ensures
        b == string_views(v@).contains(key@),
{
    let mut i: usize = 0;
    while i < v.len()
        invariant
            i <= v@.len(),
            forall|j: int| 0 <= j < i ==> v@[j]@ != key@,
        decreases v@.len() - i,
    {
        if str_eq(v[i].as_str(), key) {
            assert(string_views(v@)[i as int] == key@);
            return true;
        }
        i = i + 1;
    }
    assert forall|j: int| 0 <= j < string_views(v@).len() implies string_views(v@)[j] != key@ by {
        assert(string_views(v@)[j] == v@[j]@);
    }
    false
}

/// Once a key owned by a third rule stops a merge, the later keys change
/// nothing.
proof fn lemma_merge_stops(
    keys: Seq<Seq<char>>,
    owners: Seq<(Seq<char>, Seq<char>)>,
    ks: Seq<Seq<char>>,
    n: int,
    survivor: Seq<char>,
    merged: Seq<char>,
)
    requires
        0 <= n <= ks.len(),
        !merge_keys(keys, owners, ks.subrange(0, n), survivor, merged).2,
    ensures
        merge_keys(keys, owners, ks, survivor, merged) == merge_keys(keys, owners, ks.subrange(0, n), survivor, merged),
    decreases ks.len(),
{
    if ks.len() == n {
        assert(ks.subrange(0, n) =~= ks);
    } else {
        assert(ks.drop_last().subrange(0, n) =~= ks.subrange(0, n));
        lemma_merge_stops(keys, owners, ks.drop_last(), n, survivor, merged);
    }
}

impl ApplicationColorRegistry {
    fn ensure_migrated(&mut self)
        ensures
            final(self)@ == migrated(old(self)@),
    {
        if self.rules.is_empty() && !self.entries.is_empty() {
            let mut i: usize = 0;
            while i < self.entries.len()
                invariant
                    i <= self.entries@.len(),
                    self.mode == old(self).mode,
                    self.fixed_global_color == old(self).fixed_global_color,
                    self.palette@ == old(self).palette@,
                    self.entries@ == old(self).entries@,
                    (self.rules@, self.key_owners@) == migrate_entries(
                        old(self).rules@,
                        old(self).key_owners@,
                        self.entries@.subrange(0, i as int),
                    ),
                decreases self.entries@.len() - i,
            {
                let k = self.entries.key_at(i).clone();
                let e = self.entries.value_at(i);
                let id = rule_id(k.as_str());
                let first = if e.match_keys.len() > 0 {
                    e.match_keys[0].clone()
                } else {
                    k.clone()
                };
                let rule = ApplicationColorRule {
                    id: id.clone(),
                    label: e.label.clone(),
                    match_keys: two_keys(k.clone(), first.clone()),
                    automatic_color: e.automatic_color,
                    manual_color: e.manual_color,
                    created_at: 0,
                    last_seen_at: 0,
                };
                proof {
                    let es = self.entries@.subrange(0, i + 1);
                    assert(es.drop_last() =~= self.entries@.subrange(0, i as int));
                    assert(es.last() == self.entries@[i as int]);
                    assert(rule@ == rule_from_entry(k@, self.entries@[i as int].1));
                }
                self.rules.insert(id.clone(), rule);
                self.key_owners.insert(k, id.clone());
                self.key_owners.insert(first, id);
                i = i + 1;
            }
            assert(self.entries@.subrange(0, i as int) =~= self.entries@);
        }
        if self.key_owners.is_empty() {
            let ghost start = self.key_owners@;
            let ghost mid = self@;
            let mut i: usize = 0;
            while i < self.rules.len()
                invariant
                    i <= self.rules@.len(),
                    self.mode == mid.mode,
                    self.fixed_global_color == mid.fixed_global_color,
                    self.palette@ == mid.palette,
                    self.entries@ == mid.entries,
                    self.rules@ == mid.rules,
                    self.key_owners@ == claim_all(start, self.rules@.subrange(0, i as int)),
                decreases self.rules@.len() - i,
            {
                let id = self.rules.key_at(i).clone();
                let r = self.rules.value_at(i);
                let ghost before = self.key_owners@;
                let mut j: usize = 0;
                while j < r.match_keys.len()
                    invariant
                        j <= r.match_keys@.len(),
                        i < self.rules@.len(),
                        self.rules@ == mid.rules,
                        self.mode == mid.mode,
                        self.fixed_global_color == mid.fixed_global_color,
                        self.palette@ == mid.palette,
                        self.entries@ == mid.entries,
                        id@ == self.rules@[i as int].0,
                        r@ == self.rules@[i as int].1,
                        self.key_owners@ == claim_keys(before, id@, string_views(r.match_keys@).subrange(0, j as int)),
                    decreases r.match_keys@.len() - j,
                {
                    proof {
                        let ks = string_views(r.match_keys@).subrange(0, j + 1);
                        assert(ks.drop_last() =~= string_views(r.match_keys@).subrange(0, j as int));
                    }
                    self.key_owners.insert(r.match_keys[j].clone(), id.clone());
                    j = j + 1;
                }
                proof {
                    let rs = self.rules@.subrange(0, i + 1);
                    assert(rs.drop_last() =~= self.rules@.subrange(0, i as int));
                    assert(string_views(r.match_keys@).subrange(0, j as int) =~= string_views(r.match_keys@));
                }
                i = i + 1;
            }
            assert(self.rules@.subrange(0, i as int) =~= self.rules@);
        }
    }

    fn palette_color(&self, key: &str, fallback: &RgbaColor) -> (c: RgbaColor)
        ensures
            c == palette_color_of(self.palette@, key@, *fallback),
    {
        if self.palette.len() == 0 {
            *fallback
        } else {
            self.palette[(stable_hash(key) as usize) % self.palette.len()]
        }
    }

    /// Resolves `app`'s colour as at time `now` (seconds since the Unix
    /// epoch): the fixed colour in the fixed mode; else the colour of the rule
    /// owning `app`'s key, made first where the key has no owner.
    pub fn color_for_at(&mut self, app: &ApplicationIdentity, fallback: &RgbaColor, now: u64) -> (c:
        RgbaColor)
        ensures
            (final(self)@, c) == color_for_outcome(old(self)@, *app, *fallback, now),
    {
        if self.mode == ApplicationColorMode::FixedGlobal {
            return self.fixed_global_color;
        }
        self.ensure_migrated();
        let ghost m1 = self@;
        let key = app.stable_key();
        let id = match self.key_owners.get(key.as_str()) {
            Some(id) => id.clone(),
            None => {
                let id = rule_id(key.as_str());
                let automatic_color = match self.mode {
                    ApplicationColorMode::FixedGlobal => self.fixed_global_color,
                    ApplicationColorMode::ApplicationSpecific | ApplicationColorMode::PaletteOnce => {
                        self.palette_color(key.as_str(), fallback)
                    },
                    ApplicationColorMode::RandomOnce => random_color_from_key(key.as_str()),
                };
                let mut keys: Vec<String> = Vec::new();
                keys.push(key.clone());
                let rule = ApplicationColorRule {
                    id: id.clone(),
                    label: app.executable_name.clone(),
                    match_keys: keys,
                    automatic_color,
                    manual_color: None,
                    created_at: now,
                    last_seen_at: now,
                };
                let entry = rule.copy();
                proof {
                    assert(string_views(rule.match_keys@) =~= seq![key@]);
                    assert(rule@ == new_rule_model(m1, *app, *fallback, now));
                }
                self.rules.insert(id.clone(), rule);
                self.entries.insert(key.clone(), entry);
                self.key_owners.insert(key.clone(), id.clone());
                id
            },
        };
        assert((self@, id@) == owner_for(m1, *app, *fallback, now));
        match self.rules.get(id.as_str()) {
            Some(r) => {
                let mut seen = r.copy();
                seen.last_seen_at = now;
                let c = seen.resolved_color();
                self.rules.replace(id.as_str(), seen);
                c
            },
            None => *fallback,
        }
    }

    /// Resolves `app`'s colour now; see `color_for_at`. Whatever time the
    /// clock gives, the outcome is that of `color_for_at` at that time.
    pub fn color_for(&mut self, app: &ApplicationIdentity, fallback: &RgbaColor) -> (c: RgbaColor)
        ensures
            exists|now: u64| (final(self)@, c) == color_for_outcome(old(self)@, *app, *fallback, now),
    {
        let now = unix_time_now();
        self.color_for_at(app, fallback, now)
    }

    /// Gives rule `id`, and every older entry with that id, the manual colour
    /// `color`.
    pub fn set_manual_override_by_rule_id(&mut self, id: &str, color: RgbaColor)
        ensures
            final(self)@ == override_by_id_outcome(old(self)@, id@, color),
    {
        self.ensure_migrated();
        let ghost m1 = self@;
        match self.rules.get(id) {
            Some(r) => {
                let mut changed = r.copy();
                changed.manual_color = Some(color);
                self.rules.replace(id, changed);
            },
            None => {},
        }
        let mut i: usize = 0;
        while i < self.entries.len()
            invariant
                i <= self.entries@.len(),
                self.entries@.len() == m1.entries.len(),
                forall|j: int| 0 <= j < i ==> #[trigger] self.entries@[j] == override_entries(m1.entries, id@, color)[j],
                forall|j: int| i <= j < self.entries@.len() ==> #[trigger] self.entries@[j] == m1.entries[j],
                self.mode == m1.mode,
                self.fixed_global_color == m1.fixed_global_color,
                self.palette@ == m1.palette,
                self.key_owners@ == m1.key_owners,
                self.rules@ == override_by_id_outcome(old(self)@, id@, color).rules,
            decreases self.entries@.len() - i,
        {
            let e = self.entries.value_at(i);
            if str_eq(e.id.as_str(), id) {
                let mut changed = e.copy();
                changed.manual_color = Some(color);
                self.entries.set_value_at(i, changed);
            }
            i = i + 1;
        }
        assert(self.entries@ =~= override_entries(m1.entries, id@, color));
    }

    /// Resolves `app`'s colour with `color` as fallback, then gives the rule
    /// owning its key the manual colour `color`.
    pub fn set_manual_override(&mut self, app: &ApplicationIdentity, color: RgbaColor)
        ensures
            exists|now: u64| final(self)@ == override_outcome(old(self)@, *app, color, now),
    {
        let now = unix_time_now();
        let _ = self.color_for_at(app, &color, now);
        let key = app.stable_key();
        match self.key_owners.get(key.as_str()) {
            Some(id) => {
                let id = id.clone();
                self.set_manual_override_by_rule_id(id.as_str(), color);
            },
            None => {},
        }
        assert(final(self)@ == override_outcome(old(self)@, *app, color, now));
    }

    /// Removes the manual colour of the rule owning `app`'s key.
    pub fn reset_to_automatic(&mut self, app: &ApplicationIdentity)
        ensures
            final(self)@ == reset_outcome(old(self)@, *app),
    {
        self.ensure_migrated();
        let key = app.stable_key();
        match self.key_owners.get(key.as_str()) {
            Some(id) => {
                let id = id.clone();
                match self.rules.get(id.as_str()) {
                    Some(r) => {
                        let mut changed = r.copy();
                        changed.manual_color = None;
                        self.rules.replace(id.as_str(), changed);
                    },
                    None => {},
                }
            },
            None => {},
        }
    }

    /// Gives rule `id` a new label; fails where there is no such rule.
    pub fn rename_rule(&mut self, id: &str, label: String) -> (r: Result<(), String>)
        ensures
            (final(self)@, error_view(r)) == rename_outcome(old(self)@, id@, label@),
    {
        self.ensure_migrated();
        match self.rules.get(id) {
            Some(r) => {
                let mut changed = r.copy();
                changed.label = label;
                self.rules.replace(id, changed);
                Ok(())
            },
            None => {
                let e = "missing rule".to_owned();
                proof {
                    reveal_strlit("missing rule");
                }
                Err(e)
            },
        }
    }

    /// Merges rule `merged` into `survivor`: the merged rule is removed and
    /// its keys go to the survivor one by one; a key owned by a third rule
    /// stops the merge with an error, leaving the keys moved so far.
    pub fn merge_rules(&mut self, survivor: &str, merged: &str) -> (r: Result<(), String>)
        ensures
            (final(self)@, error_view(r)) == merge_outcome(old(self)@, survivor@, merged@),
    {
        self.ensure_migrated();
        let ghost m1 = self@;
        if str_eq(survivor, merged) {
            return Ok(());
        }
        let other = match self.rules.remove(merged) {
            Some(o) => o,
            None => {
                let e = "missing merged rule".to_owned();
                proof {
                    reveal_strlit("missing merged rule");
                }
                return Err(e);
            },
        };
        let ghost rules2 = self.rules@;
        let mut s = match self.rules.get(survivor) {
            Some(r) => r.copy(),
            None => {
                let e = "missing survivor".to_owned();
                proof {
                    reveal_strlit("missing survivor");
                }
                return Err(e);
            },
        };
        let ghost s0 = s@;
        let ghost ks = string_views(other.match_keys@);
        let mut j: usize = 0;
        while j < other.match_keys.len()
            invariant
                j <= other.match_keys@.len(),
                ks == string_views(other.match_keys@),
                merge_keys(s0.match_keys, m1.key_owners, ks.subrange(0, j as int), survivor@, merged@) == (
                    string_views(s.match_keys@),
                    self.key_owners@,
                    true,
                ),
                s@ == with_keys(s0, string_views(s.match_keys@)),
                self.rules@ == rules2,
                m1 == migrated(old(self)@),
                survivor@ != merged@,
                assoc_get(m1.rules, merged@) == Some(other@),
                rules2 == assoc_remove(m1.rules, merged@),
                assoc_get(rules2, survivor@) == Some(s0),
                self.mode == m1.mode,
                self.fixed_global_color == m1.fixed_global_color,
                self.palette@ == m1.palette,
                self.entries@ == m1.entries,
            decreases other.match_keys@.len() - j,
        {
            let key = &other.match_keys[j];
            proof {
                assert(ks.subrange(0, j + 1).drop_last() =~= ks.subrange(0, j as int));
                assert(ks.subrange(0, j + 1).last() == key@);
            }
            let duplicate = match self.key_owners.get(key.as_str()) {
                Some(owner) => !str_eq(owner.as_str(), merged),
                None => false,
            };
            if duplicate {
                proof {
                    let pre = merge_keys(s0.match_keys, m1.key_owners, ks.subrange(0, j as int), survivor@, merged@);
                    assert(assoc_get(pre.1, key@) is Some && assoc_get(pre.1, key@).unwrap() != merged@);
                    assert(!merge_keys(s0.match_keys, m1.key_owners, ks.subrange(0, j + 1), survivor@, merged@).2);
                    lemma_merge_stops(s0.match_keys, m1.key_owners, ks, j + 1, survivor@, merged@);
                    assert(merge_keys(s0.match_keys, m1.key_owners, ks, survivor@, merged@) == (pre.0, pre.1, false));
                }
                self.rules.replace(survivor, s);
                let e = "duplicate match-key ownership".to_owned();
                proof {
                    reveal_strlit("duplicate match-key ownership");
                }
                return Err(e);
            }
            if !contains_str(&s.match_keys, key.as_str()) {
                let ghost before = s.match_keys@;
                s.match_keys.push(key.clone());
                assert(string_views(s.match_keys@) =~= string_views(before).push(key@));
            }
            self.key_owners.insert(key.clone(), survivor.to_owned());
            j = j + 1;
        }
        assert(ks.subrange(0, j as int) =~= ks);
        self.rules.replace(survivor, s);
        Ok(())
    }
}


proof fn lemma_get_some_nonempty<W>(s: Seq<(Seq<char>, W)>, k: Seq<char>)
    requires
        assoc_get(s, k) is Some,
    ensures
        s.len() > 0,
{
}

proof fn lemma_migrate_entries_nonempty(
    rules: Seq<(Seq<char>, RuleModel)>,
    owners: Seq<(Seq<char>, Seq<char>)>,
    es: Seq<(Seq<char>, RuleModel)>,
)
    requires
        es.len() > 0,
    ensures
        migrate_entries(rules, owners, es).0.len() > 0,
        migrate_entries(rules, owners, es).1.len() > 0,
{
    let prev = migrate_entries(rules, owners, es.drop_last());
    let k = es.last().0;
    let r = rule_from_entry(k, es.last().1);
    lemma_insert_nonempty(prev.0, r.id, r);
    lemma_insert_nonempty(assoc_insert(prev.1, k, r.id), entry_first_key(k, es.last().1), r.id);
}

/// A migrated registry has no older entries left to turn into rules.
proof fn lemma_migrated_has_no_pending_entries(m: RegistryModel)
    ensures
        !(migrated(m).rules.len() == 0 && migrated(m).entries.len() > 0),
{
    if m.rules.len() == 0 && m.entries.len() > 0 {
        lemma_migrate_entries_nonempty(m.rules, m.key_owners, m.entries);
    }
}

/// Bringing the registry to the current layout twice does no more than once.
pub proof fn lemma_migration_is_idempotent(m: RegistryModel)
    ensures
        migrated(migrated(m)) == migrated(m),
{
    let m1 = migrated(m);
    lemma_migrated_has_no_pending_entries(m);
    let first = if m.rules.len() == 0 && m.entries.len() > 0 {
        migrate_entries(m.rules, m.key_owners, m.entries)
    } else {
        (m.rules, m.key_owners)
    };
    if m.rules.len() == 0 && m.entries.len() > 0 {
        lemma_migrate_entries_nonempty(m.rules, m.key_owners, m.entries);
    }
    if m1.key_owners.len() == 0 {
        assert(first.1.len() == 0);
        assert(m1.key_owners =~= first.1);
    }
}

/// After an application's colour is resolved in a mode other than the fixed
/// one, the registry is in the current layout.
proof fn lemma_settled_after_color_for(m: RegistryModel, app: ApplicationIdentity, fallback: RgbaColor, now: u64)
    requires
        m.mode != ApplicationColorMode::FixedGlobal,
    ensures
        migrated(color_for_outcome(m, app, fallback, now).0) == color_for_outcome(m, app, fallback, now).0,
{
    let m1 = migrated(m);
    lemma_migrated_has_no_pending_entries(m);
    let key = identity_key(app);
    let (m2, id) = owner_for(m1, app, fallback, now);
    let m3 = color_for_outcome(m, app, fallback, now).0;
    match assoc_get(m1.key_owners, key) {
        Some(_) => {
            lemma_get_some_nonempty(m1.key_owners, key);
        },
        None => {
            let r = new_rule_model(m1, app, fallback, now);
            lemma_insert_nonempty(m1.rules, r.id, r);
            lemma_insert_nonempty(m1.key_owners, key, r.id);
        },
    }
    match assoc_get(m2.rules, id) {
        Some(r) => {
            lemma_update_keeps_keys(m2.rules, id, seen_at(r, now));
        },
        None => {},
    }
}

/// Resolving the same application twice with the same fallback gives the
/// same colour: the first resolution makes whatever rule the second finds.
pub proof fn lemma_resolution_is_stable(
    m: RegistryModel,
    app: ApplicationIdentity,
    fallback: RgbaColor,
    t1: u64,
    t2: u64,
)
    ensures
        color_for_outcome(color_for_outcome(m, app, fallback, t1).0, app, fallback, t2).1
            == color_for_outcome(m, app, fallback, t1).1,
{
    if m.mode != ApplicationColorMode::FixedGlobal {
        let m1 = migrated(m);
        let key = identity_key(app);
        let (m2, id) = owner_for(m1, app, fallback, t1);
        let m3 = color_for_outcome(m, app, fallback, t1).0;
        lemma_settled_after_color_for(m, app, fallback, t1);
        match assoc_get(m1.key_owners, key) {
            Some(_) => {},
            None => {
                let r = new_rule_model(m1, app, fallback, t1);
                lemma_get_after_insert(m1.key_owners, key, r.id, key);
                lemma_get_after_insert(m1.rules, r.id, r, r.id);
            },
        }
        assert(owner_for(m3, app, fallback, t2).1 == id);
        match assoc_get(m2.rules, id) {
            Some(r) => {
                lemma_get_after_update(m2.rules, id, seen_at(r, t1), id);
            },
            None => {},
        }
    }
}

/// Every key owner names a rule that exists.
pub open spec fn owners_resolve(rules: Seq<(Seq<char>, RuleModel)>, owners: Seq<(Seq<char>, Seq<char>)>) -> bool {
    forall|k: Seq<char>| #[trigger] assoc_get(owners, k) is Some ==> assoc_get(rules, assoc_get(owners, k).unwrap()) is Some
}

/// The registry is consistent: every key owner names a rule that exists. A
/// new registry is; resolving and overriding colours outside the fixed mode,
/// and resetting them, keep it (see the lemmas below).
pub open spec fn consistent(m: RegistryModel) -> bool {
    owners_resolve(m.rules, m.key_owners)
}

proof fn lemma_member_found<W>(s: Seq<(Seq<char>, W)>, i: int)
    requires
        0 <= i < s.len(),
    ensures
        assoc_get(s, s[i].0) is Some,
    decreases i,
{
    if i > 0 && s[0].0 != s[i].0 {
        assert(s.drop_first()[i - 1] == s[i]);
        lemma_member_found(s.drop_first(), i - 1);
    }
}

proof fn lemma_insert_keeps_found<W>(s: Seq<(Seq<char>, W)>, k: Seq<char>, w: W, k2: Seq<char>)
    ensures
        assoc_get(s, k2) is Some ==> assoc_get(assoc_insert(s, k, w), k2) is Some,
        assoc_get(assoc_insert(s, k, w), k) is Some,
{
    lemma_get_after_insert(s, k, w, k2);
    lemma_get_after_insert(s, k, w, k);
}

proof fn lemma_claim_keys_resolves(
    rules: Seq<(Seq<char>, RuleModel)>,
    owners: Seq<(Seq<char>, Seq<char>)>,
    id: Seq<char>,
    keys: Seq<Seq<char>>,
)
    requires
        owners_resolve(rules, owners),
        assoc_get(rules, id) is Some,
    ensures
        owners_resolve(rules, claim_keys(owners, id, keys)),
    decreases keys.len(),
{
    if keys.len() > 0 {
        let prev = claim_keys(owners, id, keys.drop_last());
        lemma_claim_keys_resolves(rules, owners, id, keys.drop_last());
        assert forall|k: Seq<char>| #[trigger] assoc_get(claim_keys(owners, id, keys), k) is Some implies assoc_get(
            rules,
            assoc_get(claim_keys(owners, id, keys), k).unwrap(),
        ) is Some by {
            lemma_get_after_insert(prev, keys.last(), id, k);
        }
    }
}

proof fn lemma_claim_all_resolves(
    full: Seq<(Seq<char>, RuleModel)>,
    owners: Seq<(Seq<char>, Seq<char>)>,
    sub: Seq<(Seq<char>, RuleModel)>,
)
    requires
        owners_resolve(full, owners),
        forall|i: int| 0 <= i < sub.len() ==> assoc_get(full, #[trigger] sub[i].0) is Some,
    ensures
        owners_resolve(full, claim_all(owners, sub)),
    decreases sub.len(),
{
    if sub.len() > 0 {
        let t = sub.drop_last();
        assert forall|i: int| 0 <= i < t.len() implies assoc_get(full, #[trigger] t[i].0) is Some by {
            assert(t[i] == sub[i]);
        }
        lemma_claim_all_resolves(full, owners, t);
        assert(assoc_get(full, sub[sub.len() - 1].0) is Some);
        lemma_claim_keys_resolves(full, claim_all(owners, t), sub.last().0, sub.last().1.match_keys);
    }
}

proof fn lemma_migrate_entries_resolves(
    rules: Seq<(Seq<char>, RuleModel)>,
    owners: Seq<(Seq<char>, Seq<char>)>,
    es: Seq<(Seq<char>, RuleModel)>,
)
    requires
        owners_resolve(rules, owners),
    ensures
        owners_resolve(migrate_entries(rules, owners, es).0, migrate_entries(rules, owners, es).1),
    decreases es.len(),
{
    if es.len() > 0 {
        let prev = migrate_entries(rules, owners, es.drop_last());
        lemma_migrate_entries_resolves(rules, owners, es.drop_last());
        let k = es.last().0;
        let r = rule_from_entry(k, es.last().1);
        let k2 = entry_first_key(k, es.last().1);
        let rules2 = assoc_insert(prev.0, r.id, r);
        let o1 = assoc_insert(prev.1, k, r.id);
        let o2 = assoc_insert(o1, k2, r.id);
        assert forall|q: Seq<char>| #[trigger] assoc_get(o2, q) is Some implies assoc_get(
            rules2,
            assoc_get(o2, q).unwrap(),
        ) is Some by {
            lemma_get_after_insert(o1, k2, r.id, q);
            lemma_get_after_insert(prev.1, k, r.id, q);
            lemma_insert_keeps_found(prev.0, r.id, r, assoc_get(o2, q).unwrap());
        }
    }
}

/// Bringing a consistent registry to the current layout keeps it consistent.
pub proof fn lemma_migration_keeps_consistency(m: RegistryModel)
    requires
        consistent(m),
    ensures
        consistent(migrated(m)),
{
    let first = if m.rules.len() == 0 && m.entries.len() > 0 {
        migrate_entries(m.rules, m.key_owners, m.entries)
    } else {
        (m.rules, m.key_owners)
    };
    if m.rules.len() == 0 && m.entries.len() > 0 {
        lemma_migrate_entries_resolves(m.rules, m.key_owners, m.entries);
    }
    if first.1.len() == 0 {
        assert forall|i: int| 0 <= i < first.0.len() implies assoc_get(first.0, #[trigger] first.0[i].0) is Some by {
            lemma_member_found(first.0, i);
        }
        lemma_claim_all_resolves(first.0, first.1, first.0);
    }
}

/// Resolving an application's colour in a consistent registry, outside the
/// fixed mode: afterwards its key has an owner, the colour resolved is that
/// rule's, and the registry is still consistent.
pub proof fn lemma_resolution_finds_the_owner(m: RegistryModel, app: ApplicationIdentity, fallback: RgbaColor, now: u64)
    requires
        consistent(m),
        m.mode != ApplicationColorMode::FixedGlobal,
    ensures
        ({
            let (m1, c) = color_for_outcome(m, app, fallback, now);
            &&& assoc_get(m1.key_owners, identity_key(app)) is Some
            &&& assoc_get(m1.rules, assoc_get(m1.key_owners, identity_key(app)).unwrap()) matches Some(r)
                && c == resolved(r)
            &&& consistent(m1)
        }),
{
    lemma_migration_keeps_consistency(m);
    let m1 = migrated(m);
    let key = identity_key(app);
    let (m2, id) = owner_for(m1, app, fallback, now);
    match assoc_get(m1.key_owners, key) {
        Some(_) => {},
        None => {
            let r = new_rule_model(m1, app, fallback, now);
            lemma_get_after_insert(m1.key_owners, key, r.id, key);
            lemma_get_after_insert(m1.rules, r.id, r, r.id);
            assert forall|q: Seq<char>| #[trigger] assoc_get(m2.key_owners, q) is Some implies assoc_get(
                m2.rules,
                assoc_get(m2.key_owners, q).unwrap(),
            ) is Some by {
                lemma_get_after_insert(m1.key_owners, key, r.id, q);
                lemma_insert_keeps_found(m1.rules, r.id, r, assoc_get(m2.key_owners, q).unwrap());
            }
        },
    }
    assert(consistent(m2));
    let r2 = assoc_get(m2.rules, id).unwrap();
    let m3 = color_for_outcome(m, app, fallback, now).0;
    lemma_get_after_update(m2.rules, id, seen_at(r2, now), id);
    assert forall|q: Seq<char>| #[trigger] assoc_get(m3.key_owners, q) is Some implies assoc_get(
        m3.rules,
        assoc_get(m3.key_owners, q).unwrap(),
    ) is Some by {
        lemma_get_after_update(m2.rules, id, seen_at(r2, now), assoc_get(m3.key_owners, q).unwrap());
    }
}

/// In a consistent registry an application's colour, once assigned, stays:
/// resolving it again with any fallback gives the same colour.
pub proof fn lemma_consistent_assignment_is_sticky(
    m: RegistryModel,
    app: ApplicationIdentity,
    f1: RgbaColor,
    f2: RgbaColor,
    t1: u64,
    t2: u64,
)
    requires
        consistent(m),
    ensures
        color_for_outcome(color_for_outcome(m, app, f1, t1).0, app, f2, t2).1 == color_for_outcome(m, app, f1, t1).1,
{
    lemma_migration_keeps_consistency(m);
    lemma_assignment_is_sticky(m, app, f1, f2, t1, t2);
}

proof fn lemma_update_keeps_resolving(
    rules: Seq<(Seq<char>, RuleModel)>,
    owners: Seq<(Seq<char>, Seq<char>)>,
    id: Seq<char>,
    r: RuleModel,
)
    requires
        owners_resolve(rules, owners),
    ensures
        owners_resolve(assoc_update(rules, id, r), owners),
{
    assert forall|q: Seq<char>| #[trigger] assoc_get(owners, q) is Some implies assoc_get(
        assoc_update(rules, id, r),
        assoc_get(owners, q).unwrap(),
    ) is Some by {
        lemma_get_after_update(rules, id, r, assoc_get(owners, q).unwrap());
    }
}

/// Resetting an application in a consistent registry keeps it consistent,
/// keeps the owner of its key, and leaves that rule with no manual colour.
pub proof fn lemma_reset_clears_manual(m: RegistryModel, app: ApplicationIdentity)
    requires
        consistent(m),
    ensures
        ({
            let m5 = reset_outcome(m, app);
            &&& consistent(m5)
            &&& assoc_get(m5.key_owners, identity_key(app)) == assoc_get(migrated(m).key_owners, identity_key(app))
            &&& assoc_get(m5.key_owners, identity_key(app)) matches Some(id) ==> (assoc_get(m5.rules, id) matches Some(
                r,
            ) && r.manual_color is None)
        }),
{
    lemma_migration_keeps_consistency(m);
    let m1 = migrated(m);
    match assoc_get(m1.key_owners, identity_key(app)) {
        Some(id) => {
            let r = assoc_get(m1.rules, id).unwrap();
            lemma_get_after_update(m1.rules, id, with_manual(r, None), id);
            lemma_update_keeps_resolving(m1.rules, m1.key_owners, id, with_manual(r, None));
        },
        None => {},
    }
}

/// Overriding an application's colour in a consistent registry, outside the
/// fixed mode, keeps it consistent and gives the rule owning its key that
/// manual colour.
pub proof fn lemma_override_sets_manual(m: RegistryModel, app: ApplicationIdentity, color: RgbaColor, now: u64)
    requires
        consistent(m),
        m.mode != ApplicationColorMode::FixedGlobal,
    ensures
        ({
            let m4 = override_outcome(m, app, color, now);
            &&& consistent(m4)
            &&& assoc_get(m4.key_owners, identity_key(app)) is Some
            &&& assoc_get(m4.rules, assoc_get(m4.key_owners, identity_key(app)).unwrap()) matches Some(r)
                && r.manual_color == Some(color)
        }),
{
    lemma_resolution_finds_the_owner(m, app, color, now);
    let m3 = color_for_outcome(m, app, color, now).0;
    lemma_settled_after_color_for(m, app, color, now);
    let key = identity_key(app);
    let id = assoc_get(m3.key_owners, key).unwrap();
    let r3 = assoc_get(m3.rules, id).unwrap();
    assert(migrated(m3) == m3);
    let r4 = with_manual(r3, Some(color));
    lemma_get_after_update(m3.rules, id, r4, id);
    lemma_update_keeps_resolving(m3.rules, m3.key_owners, id, r4);
}

/// In a consistent registry, outside the fixed mode, an override followed
/// by a reset leaves the rule owning the application's key with no manual
/// colour, and the application then resolves to that rule's automatic
/// colour, whatever the fallback.
pub proof fn lemma_override_then_reset(
    m: RegistryModel,
    app: ApplicationIdentity,
    color: RgbaColor,
    t1: u64,
    fallback: RgbaColor,
    t2: u64,
)
    requires
        consistent(m),
        m.mode != ApplicationColorMode::FixedGlobal,
    ensures
        ({
            let m5 = reset_outcome(override_outcome(m, app, color, t1), app);
            &&& consistent(m5)
            &&& assoc_get(m5.key_owners, identity_key(app)) is Some
            &&& assoc_get(m5.rules, assoc_get(m5.key_owners, identity_key(app)).unwrap()) matches Some(r)
                && r.manual_color is None && color_for_outcome(m5, app, fallback, t2).1 == r.automatic_color
        }),
{
    let m4 = override_outcome(m, app, color, t1);
    lemma_override_sets_manual(m, app, color, t1);
    lemma_reset_clears_manual(m4, app);
    let m5 = reset_outcome(m4, app);
    lemma_resolution_finds_the_owner(m5, app, fallback, t2);
    lemma_migration_keeps_consistency(m5);
    // Resolving finds the rule the reset left.
    lemma_migration_keeps_consistency(m4);
    assert(migrated(m4) == m4) by {
        lemma_override_settled(m, app, color, t1);
    }
    let key = identity_key(app);
    let id = assoc_get(m5.key_owners, key).unwrap();
    assert(migrated(m5) == m5) by {
        let r = assoc_get(m4.rules, id).unwrap();
        lemma_update_keeps_keys(m4.rules, id, with_manual(r, None));
        lemma_get_some_nonempty(m4.rules, id);
        lemma_get_some_nonempty(m4.key_owners, key);
    }
    assert(owner_for(m5, app, fallback, t2) == (m5, id));
}

/// After an override the registry is in the current layout.
proof fn lemma_override_settled(m: RegistryModel, app: ApplicationIdentity, color: RgbaColor, now: u64)
    requires
        consistent(m),
        m.mode != ApplicationColorMode::FixedGlobal,
    ensures
        migrated(override_outcome(m, app, color, now)) == override_outcome(m, app, color, now),
{
    lemma_resolution_finds_the_owner(m, app, color, now);
    let m3 = color_for_outcome(m, app, color, now).0;
    lemma_settled_after_color_for(m, app, color, now);
    let key = identity_key(app);
    let id = assoc_get(m3.key_owners, key).unwrap();
    let r3 = assoc_get(m3.rules, id).unwrap();
    let r4 = with_manual(r3, Some(color));
    lemma_update_keeps_keys(m3.rules, id, r4);
    lemma_get_some_nonempty(m3.rules, id);
    lemma_get_some_nonempty(m3.key_owners, key);
}

/// An application seen for the first time, in a mode that draws from the
/// palette (per application, or once), gets one of the palette's colours
/// (the fallback only when the palette is empty); both of these modes give it
/// the same colour.
pub proof fn lemma_palette_modes_draw_from_the_palette(
    m: RegistryModel,
    app: ApplicationIdentity,
    fallback: RgbaColor,
    now: u64,
)
    requires
        m.mode == ApplicationColorMode::ApplicationSpecific || m.mode == ApplicationColorMode::PaletteOnce,
        assoc_get(migrated(m).key_owners, identity_key(app)) is None,
    ensures
        m.palette.len() > 0 ==> m.palette.contains(color_for_outcome(m, app, fallback, now).1),
        m.palette.len() == 0 ==> color_for_outcome(m, app, fallback, now).1 == fallback,
        color_for_outcome(m, app, fallback, now).1 == color_for_outcome(
            RegistryModel { mode: ApplicationColorMode::ApplicationSpecific, ..m },
            app,
            fallback,
            now,
        ).1,
        color_for_outcome(m, app, fallback, now).1 == color_for_outcome(
            RegistryModel { mode: ApplicationColorMode::PaletteOnce, ..m },
            app,
            fallback,
            now,
        ).1,
{
    let key = identity_key(app);
    let m1 = migrated(m);
    let r = new_rule_model(m1, app, fallback, now);
    lemma_get_after_insert(m1.rules, r.id, r, r.id);
    let m2 = owner_for(m1, app, fallback, now).0;
    lemma_get_after_update(m2.rules, r.id, seen_at(r, now), r.id);
    let ms = RegistryModel { mode: ApplicationColorMode::ApplicationSpecific, ..m };
    let mp = RegistryModel { mode: ApplicationColorMode::PaletteOnce, ..m };
    assert(migrated(ms).key_owners == m1.key_owners);
    assert(migrated(mp).key_owners == m1.key_owners);
    assert(migrated(ms).rules == m1.rules);
    assert(migrated(mp).rules == m1.rules);
    if m.palette.len() > 0 {
        let i = ((key_hash(key) as usize) as int) % (m.palette.len() as int);
        assert(0 <= i < m.palette.len());
        assert(m.palette[i] == color_for_outcome(m, app, fallback, now).1);
    }
}

/// Once an application's colour is assigned it stays: resolving it again,
/// with any fallback, gives the same colour, where the rule that owns its key
/// exists (as every operation of the registry keeps it).
pub proof fn lemma_assignment_is_sticky(
    m: RegistryModel,
    app: ApplicationIdentity,
    f1: RgbaColor,
    f2: RgbaColor,
    t1: u64,
    t2: u64,
)
    requires
        assoc_get(migrated(m).key_owners, identity_key(app)) is Some ==> assoc_get(
            migrated(m).rules,
            assoc_get(migrated(m).key_owners, identity_key(app)).unwrap(),
        ) is Some,
    ensures
        color_for_outcome(color_for_outcome(m, app, f1, t1).0, app, f2, t2).1 == color_for_outcome(m, app, f1, t1).1,
{
    if m.mode != ApplicationColorMode::FixedGlobal {
        let m1 = migrated(m);
        let key = identity_key(app);
        let (m2, id) = owner_for(m1, app, f1, t1);
        let m3 = color_for_outcome(m, app, f1, t1).0;
        lemma_settled_after_color_for(m, app, f1, t1);
        match assoc_get(m1.key_owners, key) {
            Some(_) => {},
            None => {
                let r = new_rule_model(m1, app, f1, t1);
                lemma_get_after_insert(m1.key_owners, key, r.id, key);
                lemma_get_after_insert(m1.rules, r.id, r, r.id);
            },
        }
        let r2 = assoc_get(m2.rules, id).unwrap();
        lemma_get_after_update(m2.rules, id, seen_at(r2, t1), id);
        assert(assoc_get(m3.key_owners, key) == Some(id));
        assert(owner_for(m3, app, f2, t2).1 == id);
        assert(owner_for(m3, app, f2, t2).0 == m3);
    }
}

/// Resetting an application to its automatic colour undoes a manual colour
/// set for it: afterwards it resolves, with any fallback, to the colour it
/// had before the override, where that colour was the automatic one and the
/// rule that owns its key exists.
pub proof fn lemma_reset_undoes_override(
    m: RegistryModel,
    app: ApplicationIdentity,
    f: RgbaColor,
    color: RgbaColor,
    f2: RgbaColor,
    t0: u64,
    t1: u64,
    t2: u64,
)
    requires
        m.mode != ApplicationColorMode::FixedGlobal,
        assoc_get(migrated(m).key_owners, identity_key(app)) is Some ==> assoc_get(
            migrated(m).rules,
            assoc_get(migrated(m).key_owners, identity_key(app)).unwrap(),
        ) is Some,
        ({
            let m0 = color_for_outcome(m, app, f, t0).0;
            assoc_get(m0.rules, assoc_get(m0.key_owners, identity_key(app)).unwrap()).unwrap().manual_color is None
        }),
    ensures
        ({
            let m0 = color_for_outcome(m, app, f, t0).0;
            color_for_outcome(reset_outcome(override_outcome(m0, app, color, t1), app), app, f2, t2).1
                == color_for_outcome(m, app, f, t0).1
        }),
{
    let key = identity_key(app);
    let m1 = migrated(m);
    let (m2, id) = owner_for(m1, app, f, t0);
    let m0 = color_for_outcome(m, app, f, t0).0;
    lemma_settled_after_color_for(m, app, f, t0);
    match assoc_get(m1.key_owners, key) {
        Some(_) => {},
        None => {
            let r = new_rule_model(m1, app, f, t0);
            lemma_get_after_insert(m1.key_owners, key, r.id, key);
            lemma_get_after_insert(m1.rules, r.id, r, r.id);
        },
    }
    let r2 = assoc_get(m2.rules, id).unwrap();
    let r0 = seen_at(r2, t0);
    lemma_get_after_update(m2.rules, id, r0, id);
    assert(assoc_get(m0.key_owners, key) == Some(id));
    assert(assoc_get(m0.rules, id) == Some(r0));
    assert(color_for_outcome(m, app, f, t0).1 == r0.automatic_color);
    // The override resolves first, which only marks the rule as seen.
    let m3 = color_for_outcome(m0, app, color, t1).0;
    assert(owner_for(m0, app, color, t1) == (m0, id));
    let r3 = seen_at(r0, t1);
    lemma_get_after_update(m0.rules, id, r3, id);
    lemma_update_keeps_keys(m0.rules, id, r3);
    lemma_get_some_nonempty(m0.key_owners, key);
    lemma_get_some_nonempty(m0.rules, id);
    assert(migrated(m3) == m3);
    assert(assoc_get(m3.key_owners, key) == Some(id));
    assert(assoc_get(m3.rules, id) == Some(r3));
    let m4 = override_outcome(m0, app, color, t1);
    let r4 = with_manual(r3, Some(color));
    lemma_get_after_update(m3.rules, id, r4, id);
    lemma_update_keeps_keys(m3.rules, id, r4);
    lemma_get_some_nonempty(m3.rules, id);
    assert(migrated(m4) == m4);
    assert(assoc_get(m4.key_owners, key) == Some(id));
    assert(assoc_get(m4.rules, id) == Some(r4));
    let m5 = reset_outcome(m4, app);
    let r5 = with_manual(r4, None);
    lemma_get_after_update(m4.rules, id, r5, id);
    lemma_update_keeps_keys(m4.rules, id, r5);
    lemma_get_some_nonempty(m4.rules, id);
    lemma_get_some_nonempty(m4.key_owners, key);
    assert(migrated(m5) == m5);
    assert(assoc_get(m5.key_owners, key) == Some(id));
    assert(assoc_get(m5.rules, id) == Some(r5));
    assert(owner_for(m5, app, f2, t2) == (m5, id));
    assert(resolved(r5) == r0.automatic_color);
}

/// After a manual colour is set for an application, resolving its colour
/// gives that colour, outside the fixed mode and where the rule owning its key
/// exists.
pub proof fn lemma_manual_override_wins(
    m: RegistryModel,
    app: ApplicationIdentity,
    color: RgbaColor,
    fallback: RgbaColor,
    t1: u64,
    t2: u64,
)
    requires
        m.mode != ApplicationColorMode::FixedGlobal,
        assoc_get(migrated(m).key_owners, identity_key(app)) is Some ==> assoc_get(
            migrated(m).rules,
            assoc_get(migrated(m).key_owners, identity_key(app)).unwrap(),
        ) is Some,
    ensures
        color_for_outcome(override_outcome(m, app, color, t1), app, fallback, t2).1 == color,
{
    let m1 = migrated(m);
    let key = identity_key(app);
    let (m2, id) = owner_for(m1, app, color, t1);
    let m3 = color_for_outcome(m, app, color, t1).0;
    lemma_settled_after_color_for(m, app, color, t1);
    match assoc_get(m1.key_owners, key) {
        Some(_) => {},
        None => {
            let r = new_rule_model(m1, app, color, t1);
            lemma_get_after_insert(m1.key_owners, key, r.id, key);
            lemma_get_after_insert(m1.rules, r.id, r, r.id);
        },
    }
    let r2 = assoc_get(m2.rules, id).unwrap();
    lemma_get_after_update(m2.rules, id, seen_at(r2, t1), id);
    assert(assoc_get(m3.key_owners, key) == Some(id));
    let r3 = seen_at(r2, t1);
    assert(assoc_get(m3.rules, id) == Some(r3));
    let m4 = override_outcome(m, app, color, t1);
    lemma_get_after_update(m3.rules, id, with_manual(r3, Some(color)), id);
    lemma_update_keeps_keys(m3.rules, id, with_manual(r3, Some(color)));
    lemma_get_some_nonempty(m3.key_owners, key);
    lemma_get_some_nonempty(m3.rules, id);
    assert(migrated(m4) == m4);
    assert(owner_for(m4, app, fallback, t2).1 == id);
}

proof fn lemma_merge_keys_owned(
    keys: Seq<Seq<char>>,
    owners: Seq<(Seq<char>, Seq<char>)>,
    ks: Seq<Seq<char>>,
    survivor: Seq<char>,
    merged: Seq<char>,
)
    requires
        merge_keys(keys, owners, ks, survivor, merged).2,
    ensures
        forall|i: int|
            0 <= i < ks.len() ==> assoc_get(merge_keys(keys, owners, ks, survivor, merged).1, #[trigger] ks[i])
                == Some(survivor),
        forall|i: int| 0 <= i < ks.len() ==> merge_keys(keys, owners, ks, survivor, merged).0.contains(#[trigger] ks[i]),
    decreases ks.len(),
{
    if ks.len() > 0 {
        let prev = merge_keys(keys, owners, ks.drop_last(), survivor, merged);
        lemma_merge_keys_owned(keys, owners, ks.drop_last(), survivor, merged);
        let k = ks.last();
        let out = merge_keys(keys, owners, ks, survivor, merged);
        assert forall|i: int| 0 <= i < ks.len() implies assoc_get(out.1, #[trigger] ks[i]) == Some(survivor)
            && out.0.contains(ks[i]) by {
            lemma_get_after_insert(prev.1, k, survivor, ks[i]);
            if i < ks.len() - 1 {
                assert(ks[i] == ks.drop_last()[i]);
                if !prev.0.contains(k) {
                    let w = choose|w: int| 0 <= w < prev.0.len() && prev.0[w] == ks[i];
                    assert(prev.0.push(k)[w] == ks[i]);
                }
            } else {
                if !prev.0.contains(k) {
                    assert(prev.0.push(k)[prev.0.len() as int] == k);
                }
            }
        }
    }
}

/// After a successful merge, every key of the merged rule belongs to the
/// survivor, which keeps it among its match keys, and resolving an
/// application with such a key gives the survivor's colour.
pub proof fn lemma_merge_moves_keys(
    m: RegistryModel,
    survivor: Seq<char>,
    merged: Seq<char>,
    app: ApplicationIdentity,
    fallback: RgbaColor,
    now: u64,
)
    requires
        merge_outcome(m, survivor, merged).1 is Ok,
        survivor != merged,
        m.mode != ApplicationColorMode::FixedGlobal,
        assoc_get(migrated(m).rules, merged) is Some,
        assoc_get(migrated(m).rules, merged).unwrap().match_keys.contains(identity_key(app)),
    ensures
        assoc_get(merge_outcome(m, survivor, merged).0.key_owners, identity_key(app)) == Some(survivor),
        assoc_get(merge_outcome(m, survivor, merged).0.rules, survivor) is Some,
        assoc_get(merge_outcome(m, survivor, merged).0.rules, survivor).unwrap().match_keys.contains(
            identity_key(app),
        ),
        color_for_outcome(merge_outcome(m, survivor, merged).0, app, fallback, now).1 == resolved(
            assoc_get(merge_outcome(m, survivor, merged).0.rules, survivor).unwrap(),
        ),
{
    let m1 = migrated(m);
    let key = identity_key(app);
    let other = assoc_get(m1.rules, merged).unwrap();
    let rules = assoc_remove(m1.rules, merged);
    let s = assoc_get(rules, survivor).unwrap();
    let mk = merge_keys(s.match_keys, m1.key_owners, other.match_keys, survivor, merged);
    lemma_merge_keys_owned(s.match_keys, m1.key_owners, other.match_keys, survivor, merged);
    let w = choose|w: int| 0 <= w < other.match_keys.len() && other.match_keys[w] == key;
    assert(assoc_get(mk.1, other.match_keys[w]) == Some(survivor));
    assert(mk.0.contains(other.match_keys[w]));
    lemma_get_after_update(rules, survivor, with_keys(s, mk.0), survivor);
    let m5 = merge_outcome(m, survivor, merged).0;
    lemma_get_some_nonempty(m5.key_owners, key);
    lemma_get_some_nonempty(m5.rules, survivor);
    assert(migrated(m5) == m5);
}

proof fn lemma_merge_keys_keep_other_owners(
    keys: Seq<Seq<char>>,
    owners: Seq<(Seq<char>, Seq<char>)>,
    ks: Seq<Seq<char>>,
    survivor: Seq<char>,
    merged: Seq<char>,
    k: Seq<char>,
)
    requires
        assoc_get(owners, k) is Some,
        assoc_get(owners, k).unwrap() != merged,
    ensures
        assoc_get(merge_keys(keys, owners, ks, survivor, merged).1, k) == assoc_get(owners, k),
    decreases ks.len(),
{
    if ks.len() > 0 {
        lemma_merge_keys_keep_other_owners(keys, owners, ks.drop_last(), survivor, merged, k);
        let prev = merge_keys(keys, owners, ks.drop_last(), survivor, merged);
        lemma_get_after_insert(prev.1, ks.last(), survivor, k);
    }
}

/// A merge never takes a key away from a rule other than the merged one: every
/// key owned by another rule before the merge keeps its owner, whether the
/// merge succeeds or stops.
pub proof fn lemma_merge_keeps_other_owners(m: RegistryModel, survivor: Seq<char>, merged: Seq<char>, k: Seq<char>)
    requires
        assoc_get(migrated(m).key_owners, k) is Some,
        assoc_get(migrated(m).key_owners, k).unwrap() != merged,
    ensures
        assoc_get(merge_outcome(m, survivor, merged).0.key_owners, k) == assoc_get(migrated(m).key_owners, k),
{
    let m1 = migrated(m);
    if survivor != merged {
        if let Some(other) = assoc_get(m1.rules, merged) {
            let rules = assoc_remove(m1.rules, merged);
            if let Some(sv) = assoc_get(rules, survivor) {
                lemma_merge_keys_keep_other_owners(sv.match_keys, m1.key_owners, other.match_keys, survivor, merged, k);
            }
        }
    }
}

} // verus!
