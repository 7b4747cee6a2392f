//! Face-detector model file names.

use vstd::prelude::*;

verus! {

pub open spec fn det_model_list() -> Seq<Seq<char>> {
    seq!["det_10g.onnx"@, "scrfd_10g.onnx"@, "buffalo_l_det_10g.onnx"@, "det_500m.onnx"@, "scrfd.onnx"@]
}

/// Detector file names, in preference order (the 10G net first).
pub fn det_model_names() -> (v: Vec<&'static str>)
    ensures
        v@.map_values(|s: &str| s@) == det_model_list(),
{
    let v = vec!["det_10g.onnx", "scrfd_10g.onnx", "buffalo_l_det_10g.onnx", "det_500m.onnx", "scrfd.onnx"];
    assert(v@.map_values(|s: &str| s@) =~= det_model_list());
    v
}

} // verus!
