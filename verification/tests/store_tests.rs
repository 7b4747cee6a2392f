use buckyboi::flags::{env_flag_alias, flag_value};
use buckyboi::gaze_calib::look_hint;
use buckyboi::hands::{GestureAction, GestureClass};
use buckyboi::persist::{GestureSample, Person, ProfileStore, FACE_KEEP, VOICE_KEEP};
use buckyboi::scrfd::det_model_names;
use buckyboi::worker::{stamp_if_due, vis_sleep_ms, VISION_INFER_MS};

type Store = ProfileStore<Vec<f32>, Vec<f32>>;

#[test]
fn vis_sleep_zero_when_voice_deferred() {
    assert_eq!(vis_sleep_ms(50, true), 0);
    assert_eq!(vis_sleep_ms(50, false), VISION_INFER_MS - 50);
    assert_eq!(vis_sleep_ms(90, false), 0);
    assert_eq!(vis_sleep_ms(0, true), 0);
}

#[test]
fn stamp_if_due_stamps_before_miss() {
    let mut last = 0u64;
    assert!(stamp_if_due(&mut last, VISION_INFER_MS, VISION_INFER_MS));
    assert_eq!(last, VISION_INFER_MS);
    assert!(!stamp_if_due(&mut last, VISION_INFER_MS + 16, VISION_INFER_MS));
    assert_eq!(last, VISION_INFER_MS);
    assert!(stamp_if_due(&mut last, VISION_INFER_MS * 2, VISION_INFER_MS));
    assert_eq!(last, VISION_INFER_MS * 2);
}

#[test]
fn clock_going_back_is_not_due() {
    let mut last = 500u64;
    assert!(!stamp_if_due(&mut last, 100, 80));
    assert_eq!(last, 500);
    assert!(stamp_if_due(&mut last, 100, 0));
    assert_eq!(last, 100);
}

#[test]
fn upsert_reuses_name() {
    let mut store: Store = ProfileStore::empty();
    let a = store.upsert_named("Ada", 1);
    let b = store.upsert_named("ada", 2);
    assert_eq!(a, b);
    assert_eq!(store.enrolled_count(), 1);
}

#[test]
fn ids_come_from_name_and_time() {
    let mut store: Store = ProfileStore::empty();
    let a = store.upsert_named("Ada Lovelace!", 255);
    assert_eq!(a, "adalovelace-ff");
    let b = store.upsert_named("???", 4096);
    assert_eq!(b, "person-1000");
    let c = store.upsert_named("ABCDEFGHIJKLMNOP", 0);
    assert_eq!(c, "abcdefghijkl-0");
    assert_eq!(store.enrolled_count(), 3);
    assert_eq!(store.next_default_name(), "P4");
}

#[test]
fn delete_removes_only_that_id() {
    let mut store: Store = ProfileStore::empty();
    let a = store.upsert_named("Ada", 1);
    let b = store.upsert_named("Bo", 2);
    assert!(store.delete(&a));
    assert_eq!(store.enrolled_count(), 1);
    assert!(store.get(&a).is_none());
    assert_eq!(store.get(&b).unwrap().name, "Bo");
    assert!(!store.delete(&a));
}

#[test]
fn face_history_keeps_newest() {
    let mut store: Store = ProfileStore::empty();
    let a = store.upsert_named("Ada", 1);
    store.add_face(&a, (0..10).map(|i| vec![i as f32]).collect());
    store.add_face(&a, (10..20).map(|i| vec![i as f32]).collect());
    let p = store.get(&a).unwrap();
    assert_eq!(p.face.len(), FACE_KEEP);
    assert_eq!(p.face[0], vec![4.0]);
    assert_eq!(p.face[FACE_KEEP - 1], vec![19.0]);
    assert!(p.has_face());
    assert!(!p.has_voice());
    store.add_voice(&a, (0..13).map(|i| vec![i as f32]).collect());
    assert_eq!(store.get(&a).unwrap().voice.len(), VOICE_KEEP);
    store.replace_face(&a, vec![]);
    assert!(!store.get(&a).unwrap().has_face());
    store.add_face("nobody", vec![vec![1.0]]);
    assert_eq!(store.enrolled_count(), 1);
}

#[test]
fn gesture_samples_replace_their_class() {
    let mut store: Store = ProfileStore::empty();
    let a = store.upsert_named("Ada", 1);
    store.add_gesture_samples(&a, GestureClass::Fist, vec![vec![1.0], vec![2.0]]);
    store.add_gesture_samples(&a, GestureClass::Palm, vec![vec![3.0]]);
    store.add_gesture_samples(&a, GestureClass::Fist, vec![vec![4.0]]);
    let p = store.get(&a).unwrap();
    let classes: Vec<GestureClass> = p.gesture_samples.iter().map(|s: &GestureSample<Vec<f32>>| s.class).collect();
    assert_eq!(classes, vec![GestureClass::Palm, GestureClass::Fist]);
    assert_eq!(p.gesture_samples[1].landmarks, vec![4.0]);
}

#[test]
fn personal_map_overrides_defaults() {
    let mut p: Person<Vec<f32>, Vec<f32>> = Person::new("Ada", 7);
    assert_eq!(p.id, "ada-7");
    let m = p.map();
    assert_eq!(m[0], (GestureClass::Fist, GestureAction::Dismiss));
    p.gesture_map = Some(vec![
        (GestureClass::Fist, GestureAction::Mute),
        (GestureClass::Fist, GestureAction::Info),
        (GestureClass::Unknown, GestureAction::Listen),
    ]);
    let m = p.map();
    assert_eq!(m[0], (GestureClass::Fist, GestureAction::Info));
    assert_eq!(m[1], (GestureClass::Palm, GestureAction::Listen));
    assert!(m.iter().all(|(c, _)| *c != GestureClass::Unknown));
}

#[test]
fn flag_values() {
    assert!(flag_value("1"));
    assert!(flag_value(" yes "));
    assert!(!flag_value(""));
    assert!(!flag_value("  0 "));
    assert!(!flag_value("FALSE"));
    assert!(env_flag_alias(None, Some("true")));
    assert!(!env_flag_alias(Some("0"), None));
    assert!(!env_flag_alias(None, None));
}

#[test]
fn calib_prompts() {
    assert_eq!(look_hint(0, 5), "LOOK CENTER");
    assert_eq!(look_hint(4, 5), "LOOK BL");
    assert_eq!(look_hint(5, 5), "LOOK");
    assert_eq!(look_hint(8, 9), "LOOK 9");
    assert_eq!(look_hint(9, 9), "LOOK");
}

#[test]
fn detector_names_prefer_10g() {
    let names = det_model_names();
    assert_eq!(names.len(), 5);
    assert_eq!(names[0], "det_10g.onnx");
    assert_eq!(names[4], "scrfd.onnx");
}
