use buckyboi::face::{rec_model_candidates, ModelPath};

fn stock() -> Vec<ModelPath> {
    ["w600k_mbf.onnx", "buffalo_sc_w600k_mbf.onnx", "w600k_r50.onnx", "arcface.onnx"]
        .iter()
        .map(|n| ModelPath::InModels(n.to_string()))
        .collect()
}

#[test]
fn no_override_tries_stock_list_mbf_first() {
    assert_eq!(rec_model_candidates(None, &[]), stock());
    assert_eq!(rec_model_candidates(Some("   "), &["arcface-mbf".to_string()]), stock());
}

#[test]
fn r50_gallery_prefers_r50_net() {
    let mut want = vec![
        ModelPath::InModels("w600k_r50.onnx".into()),
        ModelPath::InModels("arcface.onnx".into()),
    ];
    want.extend(stock());
    assert_eq!(rec_model_candidates(None, &["arcface".to_string()]), want);
    assert_eq!(rec_model_candidates(None, &["face-probe".into(), "arcface-r50".into()]), want);
}

#[test]
fn override_names_pick_stock_nets() {
    let got = rec_model_candidates(Some(" R50 "), &[]);
    assert_eq!(got[0], ModelPath::InModels("w600k_r50.onnx".into()));
    assert_eq!(got.len(), 5);
    let got = rec_model_candidates(Some("mbf"), &[]);
    assert_eq!(got[0], ModelPath::InModels("w600k_mbf.onnx".into()));
}

#[test]
fn override_path_is_tried_as_given_then_in_models() {
    let got = rec_model_candidates(Some(" my_rec.onnx\n"), &[]);
    assert_eq!(got[0], ModelPath::AsGiven("my_rec.onnx".into()));
    assert_eq!(got[1], ModelPath::InModels("my_rec.onnx".into()));
    assert_eq!(got[2..].to_vec(), stock());
}
