use multi_mouse_canvas::app_colors::registry::{
    ApplicationColorMode, ApplicationColorRegistry, ApplicationColorRule,
};
use multi_mouse_canvas::capture::foreground::ApplicationIdentity;
use multi_mouse_canvas::settings::model::RgbaColor;

fn app() -> ApplicationIdentity {
    ApplicationIdentity::new(10, "demo.exe", Some("c:/demo.exe".into()), None, false)
}

fn fnv1a(s: &str) -> u64 {
    let mut h: u64 = 0xcbf29ce484222325;
    for b in s.bytes() {
        h = (h ^ b as u64).wrapping_mul(0x100000001b3);
    }
    h
}

#[test]
fn application_rule_color_override() {
    let mut r = ApplicationColorRegistry::default();
    r.color_for(&app(), &RgbaColor::new(1, 2, 3, 255));
    let id = r.key_owners.get(&app().stable_key()).unwrap().clone();
    let m = RgbaColor::new(8, 7, 6, 255);
    r.set_manual_override_by_rule_id(&id, m.clone());
    assert_eq!(r.color_for(&app(), &m), m);
}

#[test]
fn application_rule_label_rename() {
    let mut r = ApplicationColorRegistry::default();
    r.color_for(&app(), &RgbaColor::new(1, 2, 3, 255));
    let id = r.key_owners.get(&app().stable_key()).unwrap().clone();
    r.rename_rule(&id, "Demo".into()).unwrap();
    assert_eq!(r.rules.get(&id).unwrap().label, "Demo");
}

#[test]
fn merge_prevents_duplicate_match_key_ownership() {
    let mut r = ApplicationColorRegistry::default();
    let a = ApplicationIdentity::new(1, "a.exe", None, None, false);
    let b = ApplicationIdentity::new(2, "b.exe", None, None, false);
    r.color_for(&a, &RgbaColor::new(1, 1, 1, 255));
    r.color_for(&b, &RgbaColor::new(2, 2, 2, 255));
    let ia = r.key_owners.get(&a.stable_key()).unwrap().clone();
    let ib = r.key_owners.get(&b.stable_key()).unwrap().clone();
    assert!(r.merge_rules(&ia, &ib).is_ok());
    assert_eq!(r.key_owners.get(&b.stable_key()).unwrap(), &ia);
}

#[test]
fn merged_application_rule_affects_future_resolution() {
    let mut r = ApplicationColorRegistry::default();
    let a = ApplicationIdentity::new(1, "a.exe", None, None, false);
    let b = ApplicationIdentity::new(2, "b.exe", None, None, false);
    let ca = r.color_for(&a, &RgbaColor::new(1, 1, 1, 255));
    r.color_for(&b, &RgbaColor::new(2, 2, 2, 255));
    let ia = r.key_owners.get(&a.stable_key()).unwrap().clone();
    let ib = r.key_owners.get(&b.stable_key()).unwrap().clone();
    r.merge_rules(&ia, &ib).unwrap();
    assert_eq!(r.color_for(&b, &RgbaColor::new(9, 9, 9, 255)), ca);
}

#[test]
fn new_rule_id_is_app_and_sixteen_hex_digits_of_the_key_hash() {
    let mut r = ApplicationColorRegistry::default();
    r.color_for(&app(), &RgbaColor::new(1, 2, 3, 255));
    let id = r.key_owners.get("c:/demo.exe").unwrap().clone();
    assert_eq!(id, format!("app-{:016x}", fnv1a("c:/demo.exe")));
    let rule = r.rules.get(&id).unwrap();
    assert_eq!(rule.id, id);
    assert_eq!(rule.label, "demo.exe");
    assert_eq!(rule.match_keys, vec!["c:/demo.exe".to_string()]);
    assert!(!rule.is_manual());
    assert_eq!(r.entries.get("c:/demo.exe").unwrap().id, id);
}

#[test]
fn application_specific_colour_comes_from_the_palette_by_hash() {
    let mut r = ApplicationColorRegistry::default();
    let c = r.color_for(&app(), &RgbaColor::new(1, 2, 3, 255));
    let index = (fnv1a("c:/demo.exe") as usize) % r.palette.len();
    assert_eq!(c, r.palette[index]);
}

#[test]
fn empty_palette_gives_the_fallback() {
    let mut r = ApplicationColorRegistry::default();
    r.palette.clear();
    let f = RgbaColor::new(5, 6, 7, 255);
    assert_eq!(r.color_for(&app(), &f), f);
}

#[test]
fn random_once_channels_come_from_the_hash() {
    let mut r = ApplicationColorRegistry::default();
    r.mode = ApplicationColorMode::RandomOnce;
    let c = r.color_for(&app(), &RgbaColor::new(1, 2, 3, 255));
    let h = fnv1a("c:/demo.exe");
    assert_eq!(
        c,
        RgbaColor::new(
            64 + (h & 0x7f) as u8,
            64 + ((h >> 8) & 0x7f) as u8,
            64 + ((h >> 16) & 0x7f) as u8,
            255
        )
    );
}

#[test]
fn fixed_global_mode_creates_no_rule() {
    let mut r = ApplicationColorRegistry::default();
    r.mode = ApplicationColorMode::FixedGlobal;
    let c = r.color_for(&app(), &RgbaColor::new(1, 2, 3, 255));
    assert_eq!(c, RgbaColor::new(0, 120, 215, 255));
    assert!(r.rules.is_empty());
    assert!(r.key_owners.is_empty());
}

#[test]
fn resolving_twice_gives_the_same_colour() {
    let mut r = ApplicationColorRegistry::default();
    let f = RgbaColor::new(4, 4, 4, 255);
    let first = r.color_for(&app(), &f);
    assert_eq!(r.color_for(&app(), &f), first);
    assert_eq!(r.rules.len(), 1);
}

#[test]
fn manual_override_wins_and_reset_restores_the_automatic_colour() {
    let mut r = ApplicationColorRegistry::default();
    let automatic = r.color_for(&app(), &RgbaColor::new(1, 2, 3, 255));
    let m = RgbaColor::new(200, 100, 50, 255);
    r.set_manual_override(&app(), m);
    assert_eq!(r.color_for(&app(), &RgbaColor::new(9, 9, 9, 255)), m);
    r.reset_to_automatic(&app());
    assert_eq!(r.color_for(&app(), &RgbaColor::new(9, 9, 9, 255)), automatic);
}

#[test]
fn manual_override_of_an_unseen_application_makes_its_rule() {
    let mut r = ApplicationColorRegistry::default();
    let m = RgbaColor::new(11, 22, 33, 255);
    r.set_manual_override(&app(), m);
    let id = r.key_owners.get("c:/demo.exe").unwrap().clone();
    assert_eq!(r.rules.get(&id).unwrap().manual_color, Some(m));
    assert_eq!(r.rules.get(&id).unwrap().resolved_color(), m);
    assert_eq!(r.entries.get("c:/demo.exe").unwrap().manual_color, Some(m));
}

#[test]
fn renaming_a_missing_rule_fails() {
    let mut r = ApplicationColorRegistry::default();
    assert_eq!(r.rename_rule("app-nothing", "X".into()), Err("missing rule".to_string()));
}

#[test]
fn merge_errors_name_what_is_missing() {
    let mut r = ApplicationColorRegistry::default();
    let a = ApplicationIdentity::new(1, "a.exe", None, None, false);
    let b = ApplicationIdentity::new(2, "b.exe", None, None, false);
    r.color_for(&a, &RgbaColor::new(1, 1, 1, 255));
    r.color_for(&b, &RgbaColor::new(2, 2, 2, 255));
    let ia = r.key_owners.get("a.exe").unwrap().clone();
    let ib = r.key_owners.get("b.exe").unwrap().clone();
    assert_eq!(r.merge_rules(&ia, &ia), Ok(()));
    assert_eq!(r.merge_rules(&ia, "app-none"), Err("missing merged rule".to_string()));
    assert_eq!(r.merge_rules("app-none", &ib), Err("missing survivor".to_string()));
    // A merge that fails for want of a survivor has already removed the
    // merged rule.
    assert!(r.rules.get(&ib).is_none());
}

#[test]
fn duplicate_ownership_stops_a_merge_part_way() {
    let mut r = ApplicationColorRegistry::default();
    let a = ApplicationIdentity::new(1, "a.exe", None, None, false);
    let b = ApplicationIdentity::new(2, "b.exe", None, None, false);
    let c = ApplicationIdentity::new(3, "c.exe", None, None, false);
    r.color_for(&a, &RgbaColor::new(1, 1, 1, 255));
    r.color_for(&b, &RgbaColor::new(2, 2, 2, 255));
    r.color_for(&c, &RgbaColor::new(3, 3, 3, 255));
    let ia = r.key_owners.get("a.exe").unwrap().clone();
    let ib = r.key_owners.get("b.exe").unwrap().clone();
    // Rule b also lists c.exe, which rule c owns.
    let mut rule_b = r.rules.get(&ib).unwrap().clone();
    rule_b.match_keys.push("c.exe".to_string());
    r.rules.insert(ib.clone(), rule_b);
    assert_eq!(
        r.merge_rules(&ia, &ib),
        Err("duplicate match-key ownership".to_string())
    );
    // b.exe moved before the conflict; c.exe stayed with its owner.
    assert_eq!(r.key_owners.get("b.exe").unwrap(), &ia);
    assert_ne!(r.key_owners.get("c.exe").unwrap(), &ia);
    assert!(r.rules.get(&ia).unwrap().match_keys.contains(&"b.exe".to_string()));
    assert!(r.rules.get(&ib).is_none());
}

#[test]
fn older_entries_become_rules_on_first_use() {
    let mut r = ApplicationColorRegistry::default();
    let entry = ApplicationColorRule {
        id: "old".into(),
        label: "Old".into(),
        match_keys: vec!["legacy-key".into()],
        automatic_color: RgbaColor::new(10, 20, 30, 255),
        manual_color: None,
        created_at: 5,
        last_seen_at: 6,
    };
    r.entries.insert("k.exe".into(), entry);
    let seen = ApplicationIdentity::new(1, "k.exe", None, None, false);
    let c = r.color_for(&seen, &RgbaColor::new(0, 0, 0, 255));
    assert_eq!(c, RgbaColor::new(10, 20, 30, 255));
    let id = format!("app-{:016x}", fnv1a("k.exe"));
    let rule = r.rules.get(&id).unwrap();
    assert_eq!(rule.label, "Old");
    assert_eq!(rule.match_keys, vec!["k.exe".to_string(), "legacy-key".to_string()]);
    assert_eq!(rule.created_at, 0);
    assert_eq!(r.key_owners.get("legacy-key").unwrap(), &id);
}

#[test]
fn rules_are_kept_in_key_order() {
    let mut r = ApplicationColorRegistry::default();
    for name in ["zeta.exe", "alpha.exe", "Mid.exe", "beta.exe"] {
        r.color_for(&ApplicationIdentity::new(1, name, None, None, false), &RgbaColor::new(0, 0, 0, 255));
    }
    let keys: Vec<String> = (0..r.entries.len()).map(|i| r.entries.key_at(i).clone()).collect();
    let mut sorted = keys.clone();
    sorted.sort();
    assert_eq!(keys, sorted);
    assert_eq!(keys.len(), 4);
}

#[test]
fn an_assigned_colour_ignores_later_fallbacks() {
    let mut r = ApplicationColorRegistry::default();
    let first = r.color_for(&app(), &RgbaColor::new(1, 2, 3, 255));
    assert_eq!(r.color_for(&app(), &RgbaColor::new(200, 100, 50, 255)), first);
    assert_eq!(r.color_for(&app(), &RgbaColor::new(0, 0, 0, 0)), first);
}

#[test]
fn reset_undoes_a_manual_colour() {
    let mut r = ApplicationColorRegistry::default();
    let before = r.color_for(&app(), &RgbaColor::new(1, 2, 3, 255));
    let manual = RgbaColor::new(9, 8, 7, 255);
    r.set_manual_override(&app(), manual.clone());
    assert_eq!(r.color_for(&app(), &RgbaColor::new(0, 0, 0, 255)), manual);
    r.reset_to_automatic(&app());
    assert_eq!(r.color_for(&app(), &RgbaColor::new(0, 0, 0, 255)), before);
}

#[test]
fn an_override_then_a_reset_leaves_no_manual_colour() {
    let mut r = ApplicationColorRegistry::default();
    r.set_manual_override(&app(), RgbaColor::new(9, 9, 9, 255));
    let id = r.key_owners.get(&app().stable_key()).unwrap().clone();
    assert!(r.rules.get(&id).unwrap().is_manual());
    r.reset_to_automatic(&app());
    assert!(!r.rules.get(&id).unwrap().is_manual());
    let automatic = r.rules.get(&id).unwrap().automatic_color.clone();
    assert_eq!(r.color_for(&app(), &RgbaColor::new(1, 1, 1, 255)), automatic);
}
