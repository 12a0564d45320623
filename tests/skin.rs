use skelanim::skin::{extract_skin_influences, reduce_influences, SkinError, VertexBoneInfluence};

fn keys(ws: &[f32]) -> Vec<u32> {
    ws.iter().map(|w| w.to_bits()).collect()
}

fn renormalized(v: &VertexBoneInfluence) -> [f32; 3] {
    let w = v.weights.map(f32::from_bits);
    let sum: f32 = w.iter().sum();
    if sum == 0.0 { w } else { w.map(|x| x / sum) }
}

#[test]
fn top_three_of_five() {
    let r = reduce_influences(&vec![10, 11, 12, 13, 14], &keys(&[0.1, 0.5, 0.05, 0.3, 0.05]));
    assert_eq!(r.bone_ids, [11, 13, 10]);
    assert_eq!(r.weights, [0.5f32.to_bits(), 0.3f32.to_bits(), 0.1f32.to_bits()]);
    let w = renormalized(&r);
    assert!((w.iter().sum::<f32>() - 1.0).abs() < 1e-5);
    assert!((w[0] - 0.5 / 0.9).abs() < 1e-5);
}

#[test]
fn ties_keep_first_seen() {
    let r = reduce_influences(&vec![1, 2, 3, 4], &keys(&[0.25, 0.25, 0.25, 0.25]));
    assert_eq!(r.bone_ids, [1, 2, 3]);
}

#[test]
fn few_influences_are_copied() {
    let r = reduce_influences(&vec![7, 3], &keys(&[0.75, 0.25]));
    assert_eq!(r.bone_ids, [7, 3, 0]);
    assert_eq!(r.weights, [0.75f32.to_bits(), 0.25f32.to_bits(), 0]);
}

#[test]
fn no_influences_give_zero_slots() {
    let r = reduce_influences(&vec![], &vec![]);
    assert_eq!(r, VertexBoneInfluence { bone_ids: [0, 0, 0], weights: [0, 0, 0] });
}

#[test]
fn all_zero_weights_stay_zero() {
    let r = reduce_influences(&vec![5, 6, 7, 8], &keys(&[0.0, 0.0, 0.0, 0.0]));
    assert_eq!(r.weights, [0, 0, 0]);
    assert_eq!(r.bone_ids, [5, 5, 5]);
}

#[test]
fn weight_sums_are_one_after_renormalizing() {
    let weights = keys(&[0.2, 0.4, 0.1, 0.3, 0.6, 0.4, 1.0]);
    let vcount = vec![4, 2, 1, 0];
    let prim = vec![0, 0, 1, 1, 2, 2, 3, 3, 4, 4, 5, 5, 6, 6];
    let out = extract_skin_influences(&vcount, &prim, &weights).unwrap();
    assert_eq!(out.len(), 4);
    assert_eq!(out[0].bone_ids, [1, 3, 0]);
    assert_eq!(out[1].bone_ids, [4, 5, 0]);
    assert_eq!(out[2].bone_ids, [6, 0, 0]);
    for v in &out[..3] {
        let sum: f32 = renormalized(v).iter().sum();
        assert!((sum - 1.0).abs() < 1e-5);
    }
    assert_eq!(out[3], VertexBoneInfluence { bone_ids: [0, 0, 0], weights: [0, 0, 0] });
}

#[test]
fn truncated_lists_are_rejected() {
    let r = extract_skin_influences(&vec![1, 2], &vec![0, 0, 1, 0], &keys(&[1.0]));
    assert_eq!(r, Err(SkinError::Truncated(1)));
}

#[test]
fn missing_weights_are_rejected() {
    let r = extract_skin_influences(&vec![1, 1], &vec![0, 0, 1, 3], &keys(&[1.0, 1.0]));
    assert_eq!(r, Err(SkinError::WeightIndexOutOfRange(1)));
    let r = extract_skin_influences(&vec![1], &vec![0, -1], &keys(&[1.0]));
    assert_eq!(r, Err(SkinError::WeightIndexOutOfRange(0)));
}
