use multi_mouse_canvas::canvas::topology::DisplayLayoutFingerprint;
use multi_mouse_canvas::display_profiles::model::{DetectedLayout, SavedDisplayProfile, DISPLAY_PROFILE_SCHEMA_VERSION};
use multi_mouse_canvas::display_profiles::store::DisplayProfileStore;
use multi_mouse_canvas::platform::display_identity::DisplayIdentity;

fn layout() -> DetectedLayout {
    DetectedLayout {
        fingerprint: DisplayLayoutFingerprint("fnv1a64:4b1f".into()),
        stable_keys: vec![
            DisplayIdentity::gdi_fallback("a").stable_key,
            DisplayIdentity::gdi_fallback("b").stable_key,
        ],
    }
}

fn profile(id: &str, l: &DetectedLayout, keys: Vec<String>) -> SavedDisplayProfile {
    SavedDisplayProfile {
        id: id.into(),
        schema_version: DISPLAY_PROFILE_SCHEMA_VERSION,
        name: "2 displays — 3840 × 1080".into(),
        renamed: false,
        fingerprint: l.fingerprint.clone(),
        detected_monitors: vec![],
        included_stable_keys: keys,
        preferred: false,
    }
}

#[test]
fn exact_preferred_and_crud() {
    let t = layout();
    let keys = t.stable_keys.clone();
    let a = profile("a", &t, keys);
    let mut b = a.clone();
    b.id = "b".into();
    b.preferred = true;
    let mut s = DisplayProfileStore { profiles: vec![a.clone(), b] };
    assert_eq!(s.exact_match(&t).unwrap().id, "b");
    assert!(s.rename("a", "Work".into()));
    assert!(s.set_preferred("a"));
    assert_eq!(s.exact_match(&t).unwrap().id, "a");
    assert!(s.delete("a"));
    assert_eq!(s.forget_layout(&t.fingerprint), 1);
}

#[test]
fn a_profile_fits_only_its_layout_with_its_monitors_present() {
    let t = layout();
    let both = profile("both", &t, t.stable_keys.clone());
    assert!(both.validates(&t));
    let one = profile("one", &t, vec![t.stable_keys[1].clone()]);
    assert!(one.validates(&t));
    let none = profile("none", &t, vec![]);
    assert!(!none.validates(&t));
    let missing = profile("missing", &t, vec!["gdi:c".into()]);
    assert!(!missing.validates(&t));
    let mut other = profile("other", &t, t.stable_keys.clone());
    other.fingerprint = DisplayLayoutFingerprint("fnv1a64:0000".into());
    assert!(!other.validates(&t));
}

#[test]
fn without_a_preferred_fit_the_first_fit_is_chosen() {
    let t = layout();
    let mut wrong = profile("wrong", &t, t.stable_keys.clone());
    wrong.fingerprint = DisplayLayoutFingerprint("elsewhere".into());
    wrong.preferred = true;
    let s = DisplayProfileStore {
        profiles: vec![wrong, profile("empty", &t, vec![]), profile("x", &t, t.stable_keys.clone()), profile("y", &t, t.stable_keys.clone())],
    };
    assert_eq!(s.exact_match(&t).unwrap().id, "x");
    let none = DisplayProfileStore { profiles: vec![profile("empty", &t, vec![])] };
    assert!(none.exact_match(&t).is_none());
}

#[test]
fn upsert_replaces_by_id_and_appends_new_ones() {
    let t = layout();
    let mut s = DisplayProfileStore::default();
    s.upsert(profile("a", &t, t.stable_keys.clone()));
    s.upsert(profile("b", &t, t.stable_keys.clone()));
    let mut a2 = profile("a", &t, vec![t.stable_keys[0].clone()]);
    a2.name = "Left only".into();
    s.upsert(a2.clone());
    assert_eq!(s.profiles.len(), 2);
    assert_eq!(s.profiles[0], a2);
    assert_eq!(s.profiles[1].id, "b");
}

#[test]
fn inclusion_edits_need_keys_and_a_known_profile() {
    let t = layout();
    let mut s = DisplayProfileStore { profiles: vec![profile("a", &t, t.stable_keys.clone())] };
    assert!(!s.edit_inclusion("a", vec![]));
    assert!(!s.edit_inclusion("zzz", vec!["gdi:a".into()]));
    assert!(s.edit_inclusion("a", vec!["gdi:a".into()]));
    assert_eq!(s.profiles[0].included_stable_keys, vec!["gdi:a".to_string()]);
    assert!(!s.rename("zzz", "x".into()));
    assert!(!s.set_preferred("zzz"));
    assert!(!s.delete("zzz"));
    assert_eq!(s.profiles.len(), 1);
}

#[test]
fn preference_is_exclusive_within_a_layout_only() {
    let t = layout();
    let mut elsewhere = profile("c", &t, t.stable_keys.clone());
    elsewhere.fingerprint = DisplayLayoutFingerprint("elsewhere".into());
    elsewhere.preferred = true;
    let mut s = DisplayProfileStore { profiles: vec![profile("a", &t, t.stable_keys.clone()), profile("b", &t, t.stable_keys.clone()), elsewhere] };
    assert!(s.set_preferred("a"));
    assert!(s.set_preferred("b"));
    assert!(!s.profiles[0].preferred);
    assert!(s.profiles[1].preferred);
    assert!(s.profiles[2].preferred);
    assert_eq!(s.forget_layout(&t.fingerprint), 2);
    assert_eq!(s.profiles.len(), 1);
    assert_eq!(s.profiles[0].id, "c");
}
