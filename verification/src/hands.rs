//! Gesture classes, their buddy actions, and the hand-model file names.

use vstd::prelude::*;
use crate::text::{norm, normalized, eq_str};

verus! {

pub const GESTURE_ENROLL_NEED: usize = 6;
pub const LANDMARKS: usize = 21;

#[derive(Clone, Copy, Debug, PartialEq, Eq, Hash, Structural)]
pub enum GestureClass {
    Fist,
    Palm,
    ThumbsUp,
    Point,
    Peace,
    Unknown,
}

pub open spec fn class_label(c: GestureClass) -> Seq<char> {
    match c {
        GestureClass::Fist => "FIST"@,
        GestureClass::Palm => "PALM"@,
        GestureClass::ThumbsUp => "THUMB"@,
        GestureClass::Point => "POINT"@,
        GestureClass::Peace => "PEACE"@,
        GestureClass::Unknown => "NONE"@,
    }
}

pub open spec fn class_of_word(w: Seq<char>) -> GestureClass {
    if w == "fist"@ {
        GestureClass::Fist
    } else if w == "palm"@ || w == "open"@ {
        GestureClass::Palm
    } else if w == "thumbs_up"@ || w == "thumb"@ || w == "thumbs-up"@ {
        GestureClass::ThumbsUp
    } else if w == "point"@ || w == "index"@ {
        GestureClass::Point
    } else if w == "peace"@ || w == "v"@ {
        GestureClass::Peace
    } else {
        GestureClass::Unknown
    }
}

/// Training order: fist → palm → thumb → point → peace.
pub open spec fn class_next_train(c: GestureClass) -> Option<GestureClass> {
    match c {
        GestureClass::Fist => Some(GestureClass::Palm),
        GestureClass::Palm => Some(GestureClass::ThumbsUp),
        GestureClass::ThumbsUp => Some(GestureClass::Point),
        GestureClass::Point => Some(GestureClass::Peace),
        GestureClass::Peace | GestureClass::Unknown => None,
    }
}

impl GestureClass {
    /// The five trainable classes, in training order.
    pub fn all() -> (a: [GestureClass; 5])
        ensures
            a@ == seq![
                GestureClass::Fist,
                GestureClass::Palm,
                GestureClass::ThumbsUp,
                GestureClass::Point,
                GestureClass::Peace,
            ],
    {
        [
            GestureClass::Fist,
            GestureClass::Palm,
            GestureClass::ThumbsUp,
            GestureClass::Point,
            GestureClass::Peace,
        ]
    }

    pub fn label(self) -> (s: &'static str)
        ensures
            s@ == class_label(self),
    {
        match self {
            GestureClass::Fist => "FIST",
            GestureClass::Palm => "PALM",
            GestureClass::ThumbsUp => "THUMB",
            GestureClass::Point => "POINT",
            GestureClass::Peace => "PEACE",
            GestureClass::Unknown => "NONE",
        }
    }

    pub fn parse(s: &str) -> (c: GestureClass)
        ensures
            c == class_of_word(norm(s@)),
    {
        let w = normalized(s);
        if eq_str(&w, "fist") {
            GestureClass::Fist
        } else if eq_str(&w, "palm") || eq_str(&w, "open") {
            GestureClass::Palm
        } else if eq_str(&w, "thumbs_up") || eq_str(&w, "thumb") || eq_str(&w, "thumbs-up") {
            GestureClass::ThumbsUp
        } else if eq_str(&w, "point") || eq_str(&w, "index") {
            GestureClass::Point
        } else if eq_str(&w, "peace") || eq_str(&w, "v") {
            GestureClass::Peace
        } else {
            GestureClass::Unknown
        }
    }

    pub fn next_train(self) -> (n: Option<GestureClass>)
        ensures
            n == class_next_train(self),
    {
        match self {
            GestureClass::Fist => Some(GestureClass::Palm),
            GestureClass::Palm => Some(GestureClass::ThumbsUp),
            GestureClass::ThumbsUp => Some(GestureClass::Point),
            GestureClass::Point => Some(GestureClass::Peace),
            GestureClass::Peace | GestureClass::Unknown => None,
        }
    }
}

#[derive(Clone, Copy, Debug, PartialEq, Eq, Structural)]
pub enum GestureAction {
    Nothing,
    Listen,
    Dismiss,
    Confirm,
    Info,
    Settings,
    Mute,
}

pub open spec fn action_of_word(w: Seq<char>) -> GestureAction {
    if w == "listen"@ {
        GestureAction::Listen
    } else if w == "dismiss"@ || w == "hide"@ {
        GestureAction::Dismiss
    } else if w == "confirm"@ {
        GestureAction::Confirm
    } else if w == "info"@ {
        GestureAction::Info
    } else if w == "settings"@ {
        GestureAction::Settings
    } else if w == "mute"@ {
        GestureAction::Mute
    } else {
        GestureAction::Nothing
    }
}

pub open spec fn action_str(a: GestureAction) -> Seq<char> {
    match a {
        GestureAction::Nothing => "none"@,
        GestureAction::Listen => "listen"@,
        GestureAction::Dismiss => "dismiss"@,
        GestureAction::Confirm => "confirm"@,
        GestureAction::Info => "info"@,
        GestureAction::Settings => "settings"@,
        GestureAction::Mute => "mute"@,
    }
}

impl GestureAction {
    pub fn parse(s: &str) -> (a: GestureAction)
        ensures
            a == action_of_word(norm(s@)),
    {
        let w = normalized(s);
        if eq_str(&w, "listen") {
            GestureAction::Listen
        } else if eq_str(&w, "dismiss") || eq_str(&w, "hide") {
            GestureAction::Dismiss
        } else if eq_str(&w, "confirm") {
            GestureAction::Confirm
        } else if eq_str(&w, "info") {
            GestureAction::Info
        } else if eq_str(&w, "settings") {
            GestureAction::Settings
        } else if eq_str(&w, "mute") {
            GestureAction::Mute
        } else {
            GestureAction::Nothing
        }
    }

    pub fn as_str(self) -> (s: &'static str)
        ensures
            s@ == action_str(self),
    {
        match self {
            GestureAction::Nothing => "none",
            GestureAction::Listen => "listen",
            GestureAction::Dismiss => "dismiss",
            GestureAction::Confirm => "confirm",
            GestureAction::Info => "info",
            GestureAction::Settings => "settings",
            GestureAction::Mute => "mute",
        }
    }
}

/// Five (class, action) pairs; the first pair naming a class decides its action.
pub type GestureMap = [(GestureClass, GestureAction); 5];

pub open spec fn default_map_spec() -> Seq<(GestureClass, GestureAction)> {
    seq![
        (GestureClass::Fist, GestureAction::Dismiss),
        (GestureClass::Palm, GestureAction::Listen),
        (GestureClass::ThumbsUp, GestureAction::Confirm),
        (GestureClass::Point, GestureAction::Info),
        (GestureClass::Peace, GestureAction::Settings),
    ]
}

/// Fist hides, palm listens, thumbs-up confirms, point logs info, peace toggles settings.
pub fn default_gesture_map() -> (m: GestureMap)
    ensures
        m@ == default_map_spec(),
{
    [
        (GestureClass::Fist, GestureAction::Dismiss),
        (GestureClass::Palm, GestureAction::Listen),
        (GestureClass::ThumbsUp, GestureAction::Confirm),
        (GestureClass::Point, GestureAction::Info),
        (GestureClass::Peace, GestureAction::Settings),
    ]
}

/// Action of the first entry whose class is `c` (none: `Nothing`).
pub open spec fn map_lookup(m: Seq<(GestureClass, GestureAction)>, c: GestureClass) -> GestureAction
    decreases m.len(),
{
    if m.len() == 0 {
        GestureAction::Nothing
    } else if m[0].0 == c {
        m[0].1
    } else {
        map_lookup(m.drop_first(), c)
    }
}

proof fn lemma_lookup_skip(m: Seq<(GestureClass, GestureAction)>, i: int, c: GestureClass)
    requires
        0 <= i <= m.len(),
        forall|k: int| 0 <= k < i ==> (#[trigger] m[k]).0 != c,
    ensures
        map_lookup(m, c) == map_lookup(m.subrange(i, m.len() as int), c),
    decreases i,
{
    if i > 0 {
        lemma_lookup_skip(m.drop_first(), i - 1, c);
        assert(m.drop_first().subrange(i - 1, m.drop_first().len() as int) =~= m.subrange(
            i,
            m.len() as int,
        ));
    } else {
        assert(m.subrange(0, m.len() as int) =~= m);
    }
}

pub fn action_for(class: GestureClass, map: &GestureMap) -> (a: GestureAction)
    ensures
        a == map_lookup(map@, class),
{
    let mut i: usize = 0;
    while i < 5
        invariant
            i <= 5,
            map@.len() == 5,
            forall|k: int| 0 <= k < i ==> (#[trigger] map@[k]).0 != class,
        decreases 5 - i,
    {
        if map[i].0 == class {
            proof {
                lemma_lookup_skip(map@, i as int, class);
            }
            return map[i].1;
        }
        i = i + 1;
    }
    proof {
        lemma_lookup_skip(map@, 5, class);
    }
    GestureAction::Nothing
}

/// The default map sends each trainable class to its documented action.
pub proof fn law_default_map_actions()
    ensures
        map_lookup(default_map_spec(), GestureClass::Fist) == GestureAction::Dismiss,
        map_lookup(default_map_spec(), GestureClass::Palm) == GestureAction::Listen,
        map_lookup(default_map_spec(), GestureClass::ThumbsUp) == GestureAction::Confirm,
        map_lookup(default_map_spec(), GestureClass::Point) == GestureAction::Info,
        map_lookup(default_map_spec(), GestureClass::Peace) == GestureAction::Settings,
        map_lookup(default_map_spec(), GestureClass::Unknown) == GestureAction::Nothing,
{
    reveal_with_fuel(map_lookup, 6);
}

/// Training walks every trainable class once, fist first, and stops after peace.
pub proof fn law_training_order()
    ensures
        class_next_train(GestureClass::Fist) == Some(GestureClass::Palm),
        class_next_train(GestureClass::Palm) == Some(GestureClass::ThumbsUp),
        class_next_train(GestureClass::ThumbsUp) == Some(GestureClass::Point),
        class_next_train(GestureClass::Point) == Some(GestureClass::Peace),
        class_next_train(GestureClass::Peace) is None,
{
}

/// Every label parses back to its class.
pub proof fn law_label_parses_back(c: GestureClass)
    requires
        c != GestureClass::Unknown,
    ensures
        class_of_word(crate::text::lower(class_label(c))) == c,
{
    reveal_strlit("FIST");
    reveal_strlit("fist");
    reveal_strlit("PALM");
    reveal_strlit("palm");
    reveal_strlit("THUMB");
    reveal_strlit("thumb");
    reveal_strlit("POINT");
    reveal_strlit("point");
    reveal_strlit("PEACE");
    reveal_strlit("peace");
    reveal_strlit("open");
    reveal_strlit("thumbs_up");
    reveal_strlit("thumbs-up");
    reveal_strlit("index");
    reveal_strlit("v");
    assert("fist"@[0] != "palm"@[0]);
    assert("fist"@ != "palm"@);
    assert("thumb"@.len() != "fist"@.len());
    assert("point"@.len() != "fist"@.len());
    assert("peace"@.len() != "fist"@.len());
    assert("point"@[0] != "thumb"@[0]);
    assert("peace"@[0] != "thumb"@[0]);
    assert("peace"@[0] != "index"@[0]);
    assert("thumb"@ != "fist"@ && "thumb"@ != "palm"@ && "thumb"@ != "open"@);
    assert("point"@[1] != "peace"@[1]);
    assert("point"@ != "fist"@ && "point"@ != "palm"@ && "point"@ != "open"@ && "point"@ != "thumb"@);
    assert("peace"@ != "fist"@ && "peace"@ != "palm"@ && "peace"@ != "open"@ && "peace"@ != "thumb"@ && "peace"@ != "point"@ && "peace"@ != "index"@);
    let l = crate::text::lower(class_label(c));
    assert(l =~= match c {
        GestureClass::Fist => "fist"@,
        GestureClass::Palm => "palm"@,
        GestureClass::ThumbsUp => "thumb"@,
        GestureClass::Point => "point"@,
        _ => "peace"@,
    });
}


pub open spec fn palm_model_list() -> Seq<Seq<char>> {
    seq!["palm_detection.onnx"@, "palm_detection_mediapipe_2023feb.onnx"@, "palm_detection_full.onnx"@, "palm.onnx"@]
}

/// Palm-detector file names, in preference order.
pub fn palm_model_names() -> (v: Vec<&'static str>)
    ensures
        v@.map_values(|s: &str| s@) == palm_model_list(),
{
    let v = vec!["palm_detection.onnx", "palm_detection_mediapipe_2023feb.onnx", "palm_detection_full.onnx", "palm.onnx"];
    assert(v@.map_values(|s: &str| s@) =~= palm_model_list());
    v
}

pub open spec fn landmark_model_list() -> Seq<Seq<char>> {
    seq!["hand_landmark.onnx"@, "handpose_estimation_mediapipe_2023feb.onnx"@, "hand_landmark_full.onnx"@, "hand_landmark_lite.onnx"@]
}

/// Hand-landmark file names, in preference order.
pub fn landmark_model_names() -> (v: Vec<&'static str>)
    ensures
        v@.map_values(|s: &str| s@) == landmark_model_list(),
{
    let v = vec!["hand_landmark.onnx", "handpose_estimation_mediapipe_2023feb.onnx", "hand_landmark_full.onnx", "hand_landmark_lite.onnx"];
    assert(v@.map_values(|s: &str| s@) =~= landmark_model_list());
    v
}

/// The hand's 21 points, each `(x, y, z)`.
pub struct HandLandmarks<T> {
    pub pts: Vec<(T, T, T)>,
}

/// Point `i` of a flat landmark list: `x y z` triples when it holds all
/// 63 values, else `x y` pairs with `z` = `zero`.
pub open spec fn flat_point<T>(v: Seq<T>, zero: T, i: int) -> (T, T, T) {
    if v.len() >= 63 {
        (v[3 * i], v[3 * i + 1], v[3 * i + 2])
    } else {
        (v[2 * i], v[2 * i + 1], zero)
    }
}

impl<T: Copy> HandLandmarks<T> {
    /// Read a flat list of at least 42 values (`zero` fills a missing `z`).
    pub fn from_flat(v: &[T], zero: T) -> (r: Option<HandLandmarks<T>>)
        ensures
            v@.len() < 42 ==> r is None,
            v@.len() >= 42 ==> (r matches Some(h) && h.pts@.len() == 21
                && forall|i: int| 0 <= i < 21 ==> #[trigger] h.pts@[i] == flat_point(v@, zero, i)),
    {
        if v.len() < LANDMARKS * 2 {
            return None;
        }
        let three = v.len() >= LANDMARKS * 3;
        let mut pts: Vec<(T, T, T)> = Vec::new();
        let mut i: usize = 0;
        while i < LANDMARKS
            invariant
                i <= 21,
                three == (v@.len() >= 63),
                v@.len() >= 42,
                pts@.len() == i,
                forall|k: int| 0 <= k < i ==> #[trigger] pts@[k] == flat_point(v@, zero, k),
            decreases 21 - i,
        {
            if three {
                pts.push((v[i * 3], v[i * 3 + 1], v[i * 3 + 2]));
            } else {
                pts.push((v[i * 2], v[i * 2 + 1], zero));
            }
            i = i + 1;
        }
        Some(HandLandmarks { pts })
    }

    /// The points as one flat `x y z` list.
    pub fn to_flat(&self) -> (o: Vec<T>)
        ensures
            o@.len() == 3 * self.pts@.len(),
            forall|i: int| 0 <= i < self.pts@.len() ==> {
                &&& #[trigger] o@[3 * i] == self.pts@[i].0
                &&& o@[3 * i + 1] == self.pts@[i].1
                &&& o@[3 * i + 2] == self.pts@[i].2
            },
    {
        let mut o: Vec<T> = Vec::new();
        let mut i: usize = 0;
        while i < self.pts.len()
            invariant
                i <= self.pts@.len(),
                o@.len() == 3 * i,
                forall|k: int| 0 <= k < i ==> {
                    &&& #[trigger] o@[3 * k] == self.pts@[k].0
                    &&& o@[3 * k + 1] == self.pts@[k].1
                    &&& o@[3 * k + 2] == self.pts@[k].2
                },
            decreases self.pts@.len() - i,
        {
            let p = self.pts[i];
            let ghost before = o@;
            o.push(p.0);
            o.push(p.1);
            o.push(p.2);
            assert(o@ == before.push(p.0).push(p.1).push(p.2));
            assert forall|k: int| 0 <= k < i + 1 implies {
                &&& #[trigger] o@[3 * k] == self.pts@[k].0
                &&& o@[3 * k + 1] == self.pts@[k].1
                &&& o@[3 * k + 2] == self.pts@[k].2
            } by {
                if k < i {
                    assert(o@[3 * k] == before[3 * k]);
                    assert(o@[3 * k + 1] == before[3 * k + 1]);
                    assert(o@[3 * k + 2] == before[3 * k + 2]);
                }
            }
            i = i + 1;
        }
        o
    }
}

/// Reading back the flat list of a hand gives the same points.
pub proof fn law_flat_roundtrip<T>(pts: Seq<(T, T, T)>, flat: Seq<T>, zero: T)
    requires
        pts.len() == 21,
        flat.len() == 63,
        forall|i: int| 0 <= i < 21 ==> {
            &&& #[trigger] flat[3 * i] == pts[i].0
            &&& flat[3 * i + 1] == pts[i].1
            &&& flat[3 * i + 2] == pts[i].2
        },
    ensures
        forall|i: int| 0 <= i < 21 ==> #[trigger] flat_point(flat, zero, i) == pts[i],
{
    assert forall|i: int| 0 <= i < 21 implies #[trigger] flat_point(flat, zero, i) == pts[i] by {
        assert(flat[3 * i] == pts[i].0);
    }
}

} // verus!
