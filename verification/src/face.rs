//! Face enrollment rejects, recognition-model names and embedding kinds.

use vstd::prelude::*;
use crate::text::{lower, lower_chars, lower_slice, contains_seq, contains_str, trim, trim_chars, chars_of, eq_str, string_of};

verus! {

pub const FACE_ENROLL_NEED: usize = 8;
pub const FACE_KIND_ARCFACE: &'static str = "arcface";
pub const FACE_KIND_ARCFACE_R50: &'static str = "arcface-r50";
pub const FACE_KIND_ARCFACE_MBF: &'static str = "arcface-mbf";
pub const FACE_KIND_PROBE: &'static str = "face-probe";

/// Why a face frame was refused during enrollment.
#[derive(Clone, Copy, Debug, PartialEq, Eq, Structural)]
pub enum FaceReject {
    NoReject,
    NoFace,
    TooDark,
    TooBright,
    TooBlurry,
    TooSmall,
    TooClose,
    NoEmbed,
}

pub open spec fn face_hint(r: FaceReject) -> Seq<char> {
    match r {
        FaceReject::NoReject => ""@,
        FaceReject::NoFace => "NO FACE"@,
        FaceReject::TooDark => "TOO DARK"@,
        FaceReject::TooBright => "TOO BRIGHT"@,
        FaceReject::TooBlurry => "TOO BLURRY"@,
        FaceReject::TooSmall => "TOO SMALL"@,
        FaceReject::TooClose => "TOO CLOSE"@,
        FaceReject::NoEmbed => "NO MODEL"@,
    }
}

impl FaceReject {
    /// HUD text (at most 16 characters; empty when nothing was refused).
    pub fn hint(self) -> (s: &'static str)
        ensures
            s@ == face_hint(self),
            s@.len() <= 16,
            s@.len() == 0 <==> self == FaceReject::NoReject,
    {
        proof {
            reveal_strlit("");
            reveal_strlit("NO FACE");
            reveal_strlit("TOO DARK");
            reveal_strlit("TOO BRIGHT");
            reveal_strlit("TOO BLURRY");
            reveal_strlit("TOO SMALL");
            reveal_strlit("TOO CLOSE");
            reveal_strlit("NO MODEL");
        }
        match self {
            FaceReject::NoReject => "",
            FaceReject::NoFace => "NO FACE",
            FaceReject::TooDark => "TOO DARK",
            FaceReject::TooBright => "TOO BRIGHT",
            FaceReject::TooBlurry => "TOO BLURRY",
            FaceReject::TooSmall => "TOO SMALL",
            FaceReject::TooClose => "TOO CLOSE",
            FaceReject::NoEmbed => "NO MODEL",
        }
    }
}

pub open spec fn rec_model_list() -> Seq<Seq<char>> {
    seq!["w600k_mbf.onnx"@, "buffalo_sc_w600k_mbf.onnx"@, "w600k_r50.onnx"@, "arcface.onnx"@]
}

/// Recognition-net file names, in preference order (MobileFaceNet first).
pub fn rec_model_names() -> (v: Vec<&'static str>)
    ensures
        v@.map_values(|s: &str| s@) == rec_model_list(),
{
    let v = vec!["w600k_mbf.onnx", "buffalo_sc_w600k_mbf.onnx", "w600k_r50.onnx", "arcface.onnx"];
    assert(v@.map_values(|s: &str| s@) =~= rec_model_list());
    v
}

/// Kinds whose vectors come from the R50 net (`arcface` keeps old galleries matching).
pub open spec fn r50_kind(k: Seq<char>) -> bool {
    k == FACE_KIND_ARCFACE@ || k == FACE_KIND_ARCFACE_R50@
}

pub fn is_r50_kind(k: &str) -> (b: bool)
    ensures
        b == r50_kind(k@),
{
    let v = crate::text::chars_of(k);
    crate::text::eq_str(&v, FACE_KIND_ARCFACE) || crate::text::eq_str(&v, FACE_KIND_ARCFACE_R50)
}

/// Whether any stored face vector came from the R50 net.
pub fn gallery_has_r50(gallery_kinds: &[String]) -> (b: bool)
    ensures
        b == exists|i: int| 0 <= i < gallery_kinds@.len() && r50_kind(#[trigger] gallery_kinds@[i]@),
{
    let mut i: usize = 0;
    while i < gallery_kinds.len()
        invariant
            i <= gallery_kinds@.len(),
            forall|j: int| 0 <= j < i ==> !r50_kind(#[trigger] gallery_kinds@[j]@),
        decreases gallery_kinds@.len() - i,
    {
        if is_r50_kind(gallery_kinds[i].as_str()) {
            return true;
        }
        i = i + 1;
    }
    false
}

/// MobileFaceNet-family file names.
pub open spec fn mbf_name(lowered: Seq<char>) -> bool {
    contains_seq(lowered, "mbf"@) || contains_seq(lowered, "mobilefacenet"@) || contains_seq(
        lowered,
        "buffalo_sc"@,
    )
}

pub open spec fn embed_kind_of(model_name: Seq<char>) -> Seq<char> {
    if mbf_name(lower(model_name)) {
        FACE_KIND_ARCFACE_MBF@
    } else {
        FACE_KIND_ARCFACE@
    }
}

/// Production r50 keeps `kind=arcface` so existing galleries still match.
pub fn rec_embed_kind(model_name: &str) -> (k: &'static str)
    ensures
        k@ == embed_kind_of(model_name@),
{
    let n = lower_chars(model_name);
    if contains_str(&n, "mbf") || contains_str(&n, "mobilefacenet") || contains_str(&n, "buffalo_sc") {
        FACE_KIND_ARCFACE_MBF
    } else {
        FACE_KIND_ARCFACE
    }
}

/// Two stored face kinds can be compared only when they are the same kind.
pub fn face_kinds_compatible(a: &str, b: &str) -> (r: bool)
    ensures
        r == (a@ == b@),
{
    let va = crate::text::chars_of(a);
    crate::text::eq_str(&va, b)
}

/// Where a recognition-net file is looked for.
#[derive(Clone, Debug, PartialEq, Eq)]
pub enum ModelPath {
    /// A file name inside the models directory.
    InModels(String),
    /// A path exactly as the user gave it.
    AsGiven(String),
}

/// `(inside the models directory, name)`.
pub open spec fn path_view(p: ModelPath) -> (bool, Seq<char>) {
    match p {
        ModelPath::InModels(s) => (true, s@),
        ModelPath::AsGiven(s) => (false, s@),
    }
}

pub open spec fn paths_view(s: Seq<ModelPath>) -> Seq<(bool, Seq<char>)> {
    s.map_values(|p: ModelPath| path_view(p))
}

pub open spec fn opt_view(o: Option<&str>) -> Option<Seq<char>> {
    match o {
        Some(s) => Some(s@),
        None => None,
    }
}

/// What a `BUCKYBOI_FACE_REC` value names: `r50` and `mbf` (any case) pick the
/// stock nets, anything else is tried as given and then inside the models
/// directory; blank means no override.
pub open spec fn override_paths(spec: Option<Seq<char>>) -> Seq<(bool, Seq<char>)> {
    match spec {
        None => Seq::empty(),
        Some(s) => {
            let t = trim(s);
            if t.len() == 0 {
                Seq::empty()
            } else if lower(t) == "r50"@ {
                seq![(true, "w600k_r50.onnx"@)]
            } else if lower(t) == "mbf"@ {
                seq![(true, "w600k_mbf.onnx"@)]
            } else {
                seq![(false, t), (true, t)]
            }
        },
    }
}

/// Recognition-net files in the order they are tried: the override, then the
/// R50 net when the gallery already holds R50 vectors, then the stock list.
pub open spec fn rec_candidates_spec(spec: Option<Seq<char>>, has_r50: bool) -> Seq<(bool, Seq<char>)> {
    override_paths(spec) + (if has_r50 {
        seq![(true, "w600k_r50.onnx"@), (true, "arcface.onnx"@)]
    } else {
        Seq::empty()
    }) + rec_model_list().map_values(|n: Seq<char>| (true, n))
}

fn push_in_models(v: &mut Vec<ModelPath>, name: &str)
    ensures
        paths_view(final(v)@) == paths_view(old(v)@).push((true, name@)),
{
    let cs = chars_of(name);
    v.push(ModelPath::InModels(string_of(&cs)));
    assert(paths_view(final(v)@) =~= paths_view(old(v)@).push((true, name@)));
}

/// The recognition-net files to try, first match wins; `spec` is the
/// `BUCKYBOI_FACE_REC` override when set.
pub fn rec_model_candidates(spec: Option<&str>, gallery_kinds: &[String]) -> (v: Vec<ModelPath>)
    ensures
        paths_view(v@) == rec_candidates_spec(
            opt_view(spec),
            exists|i: int| 0 <= i < gallery_kinds@.len() && r50_kind(#[trigger] gallery_kinds@[i]@),
        ),
{
    let mut v: Vec<ModelPath> = Vec::new();
    if let Some(s) = spec {
        let raw = chars_of(s);
        let t = trim_chars(&raw);
        if t.len() > 0 {
            let lt = lower_slice(&t);
            if eq_str(&lt, "r50") {
                push_in_models(&mut v, "w600k_r50.onnx");
            } else if eq_str(&lt, "mbf") {
                push_in_models(&mut v, "w600k_mbf.onnx");
            } else {
                v.push(ModelPath::AsGiven(string_of(&t)));
                v.push(ModelPath::InModels(string_of(&t)));
            }
        }
    }
    assert(paths_view(v@) =~= override_paths(opt_view(spec)));
    let ghost head = paths_view(v@);
    let r50 = gallery_has_r50(gallery_kinds);
    if r50 {
        push_in_models(&mut v, "w600k_r50.onnx");
        push_in_models(&mut v, "arcface.onnx");
    }
    let ghost mid = paths_view(v@);
    assert(mid =~= head + (if r50 {
        seq![(true, "w600k_r50.onnx"@), (true, "arcface.onnx"@)]
    } else {
        Seq::empty()
    }));
    let names = rec_model_names();
    let mut i: usize = 0;
    while i < names.len()
        invariant
            i <= names@.len(),
            names@.map_values(|s: &str| s@) == rec_model_list(),
            paths_view(v@) == mid + rec_model_list().take(i as int).map_values(
                |n: Seq<char>| (true, n),
            ),
        decreases names@.len() - i,
    {
        let ghost before = paths_view(v@);
        assert(names@.map_values(|s: &str| s@)[i as int] == names@[i as int]@);
        push_in_models(&mut v, names[i]);
        assert(rec_model_list().take(i as int + 1) =~= rec_model_list().take(i as int).push(
            names@[i as int]@,
        ));
        assert(rec_model_list().take(i as int + 1).map_values(|n: Seq<char>| (true, n))
            =~= rec_model_list().take(i as int).map_values(|n: Seq<char>| (true, n)).push(
            (true, names@[i as int]@),
        ));
        assert(paths_view(v@) =~= before.push((true, names@[i as int]@)));
        assert(paths_view(v@) =~= mid + rec_model_list().take(i as int + 1).map_values(
            |n: Seq<char>| (true, n),
        ));
        i = i + 1;
    }
    assert(rec_model_list().take(names@.len() as int) =~= rec_model_list());
    v
}

} // verus!
