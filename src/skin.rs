//! Reducing each vertex's bone influences to at most three.
//!
//! Weights are handled as order keys: the IEEE-754 bit pattern of a
//! non-negative `f32` orders exactly as the number does, so the selection
//! below is the selection the weights themselves would give. Turning the
//! chosen keys back into numbers and renormalizing them is left to the caller.
use vstd::prelude::*;

verus! {

/// Up to three (bone, weight key) pairs of one vertex; an unused slot holds
/// bone 0 and key 0 (the key of weight 0).
#[derive(Clone, Copy, Debug, PartialEq, Eq)]
pub struct VertexBoneInfluence {
    pub bone_ids: [i32; 3],
    pub weights: [u32; 3],
}

/// Why a skin's influence lists could not be read.
#[derive(Clone, Copy, Debug, PartialEq, Eq, Structural)]
pub enum SkinError {
    /// The index list ends inside the influences of this vertex.
    Truncated(usize),
    /// An influence of this vertex refers to a weight that does not exist.
    WeightIndexOutOfRange(usize),
}

/// The place and key of the heaviest of `ws[0..n]`, the first one on a tie;
/// `(0, 0)` where all of them weigh 0.
pub open spec fn heaviest(ws: Seq<u32>, n: int) -> (int, u32)
    decreases n,
{
    if n <= 0 {
        (0, 0)
    } else {
        let (i, m) = heaviest(ws, n - 1);
        if ws[n - 1] > m {
            (n - 1, ws[n - 1])
        } else {
            (i, m)
        }
    }
}

/// The influences of one vertex reduced to three slots: fewer than four are
/// copied in order and padded; otherwise the heaviest is taken three times
/// over, each taken weight being zeroed before the next pick.
pub open spec fn reduced(ids: Seq<i32>, ws: Seq<u32>) -> VertexBoneInfluence {
    if ids.len() < 4 {
        VertexBoneInfluence {
            bone_ids: [
                if ids.len() > 0 { ids[0] } else { 0 },
                if ids.len() > 1 { ids[1] } else { 0 },
                if ids.len() > 2 { ids[2] } else { 0 },
            ],
            weights: [
                if ids.len() > 0 { ws[0] } else { 0 },
                if ids.len() > 1 { ws[1] } else { 0 },
                if ids.len() > 2 { ws[2] } else { 0 },
            ],
        }
    } else {
        let n = ws.len() as int;
        let (i0, w0) = heaviest(ws, n);
        let ws1 = ws.update(i0, 0);
        let (i1, w1) = heaviest(ws1, n);
        let ws2 = ws1.update(i1, 0);
        let (i2, w2) = heaviest(ws2, n);
        VertexBoneInfluence { bone_ids: [ids[i0], ids[i1], ids[i2]], weights: [w0, w1, w2] }
    }
}

/// The heaviest pick outweighs or equals every candidate, and is the first
/// place holding its key unless every candidate weighs 0.
pub proof fn lemma_heaviest_is_first_maximum(ws: Seq<u32>, n: int)
    requires
        0 <= n <= ws.len(),
    ensures
        0 <= heaviest(ws, n).0 < if n == 0 { 1 } else { n },
        forall|k: int| 0 <= k < n ==> ws[k] <= heaviest(ws, n).1,
        heaviest(ws, n).1 > 0 ==> {
            &&& ws[heaviest(ws, n).0] == heaviest(ws, n).1
            &&& forall|k: int| 0 <= k < heaviest(ws, n).0 ==> ws[k] < heaviest(ws, n).1
        },
    decreases n,
{
    if n > 0 {
        lemma_heaviest_is_first_maximum(ws, n - 1);
    }
}

/// The place and key of the heaviest of `ws`, the first one on a tie.
fn pick_heaviest(ws: &Vec<u32>) -> (r: (usize, u32))
    ensures
        r.0 as int == heaviest(ws@, ws@.len() as int).0,
        r.1 == heaviest(ws@, ws@.len() as int).1,
{
    let mut best: usize = 0;
    let mut best_key: u32 = 0;
    let mut j: usize = 0;
    while j < ws.len()
        invariant
            j <= ws.len(),
            (best as int, best_key) == heaviest(ws@, j as int),
        decreases ws.len() - j,
    {
        if ws[j] > best_key {
            best = j;
            best_key = ws[j];
        }
        j = j + 1;
    }
    (best, best_key)
}

/// Reduces the influences of one vertex, given as parallel lists of bone
/// indices and weight keys, to three slots.
pub fn reduce_influences(bone_ids: &Vec<i32>, weights: &Vec<u32>) -> (r: VertexBoneInfluence)
    requires
        bone_ids@.len() == weights@.len(),
    ensures
        r == reduced(bone_ids@, weights@),
{
    let n = bone_ids.len();
    if n < 4 {
        let mut ids: [i32; 3] = [0, 0, 0];
        let mut ws: [u32; 3] = [0, 0, 0];
        let mut j: usize = 0;
        while j < n
            invariant
                n < 4,
                n == bone_ids@.len(),
                n == weights@.len(),
                j <= n,
                forall|k: int| 0 <= k < j ==> ids@[k] == bone_ids@[k] && ws@[k] == weights@[k],
                forall|k: int| j <= k < 3 ==> ids@[k] == 0 && ws@[k] == 0,
            decreases n - j,
        {
            ids[j] = bone_ids[j];
            ws[j] = weights[j];
            j = j + 1;
        }
        let r = VertexBoneInfluence { bone_ids: ids, weights: ws };
        assert(r.bone_ids =~= reduced(bone_ids@, weights@).bone_ids);
        assert(r.weights =~= reduced(bone_ids@, weights@).weights);
        r
    } else {
        let mut remaining = weights.clone();
        let (i0, w0) = pick_heaviest(&remaining);
        proof {
            lemma_heaviest_is_first_maximum(remaining@, n as int);
        }
        remaining.set(i0, 0);
        let (i1, w1) = pick_heaviest(&remaining);
        proof {
            lemma_heaviest_is_first_maximum(remaining@, n as int);
        }
        remaining.set(i1, 0);
        let (i2, w2) = pick_heaviest(&remaining);
        proof {
            lemma_heaviest_is_first_maximum(remaining@, n as int);
        }
        let r = VertexBoneInfluence {
            bone_ids: [bone_ids[i0], bone_ids[i1], bone_ids[i2]],
            weights: [w0, w1, w2],
        };
        assert(r.bone_ids =~= reduced(bone_ids@, weights@).bone_ids);
        assert(r.weights =~= reduced(bone_ids@, weights@).weights);
        r
    }
}

/// Twice the number of influences of the vertices before `v`: where the
/// (bone, weight index) pairs of vertex `v` start in the index list.
pub open spec fn influence_start(vcount: Seq<u32>, v: int) -> int
    decreases v,
{
    if v <= 0 {
        0
    } else {
        influence_start(vcount, v - 1) + 2 * vcount[v - 1]
    }
}

/// The bone indices of vertex `v`.
pub open spec fn vertex_bones(vcount: Seq<u32>, prim: Seq<i32>, v: int) -> Seq<i32> {
    Seq::new(vcount[v] as nat, |j: int| prim[influence_start(vcount, v) + 2 * j])
}

/// The weight indices of vertex `v`.
pub open spec fn vertex_weight_refs(vcount: Seq<u32>, prim: Seq<i32>, v: int) -> Seq<i32> {
    Seq::new(vcount[v] as nat, |j: int| prim[influence_start(vcount, v) + 2 * j + 1])
}

/// The weight keys of vertex `v`.
pub open spec fn vertex_weights(vcount: Seq<u32>, prim: Seq<i32>, keys: Seq<u32>, v: int) -> Seq<
    u32,
> {
    Seq::new(vcount[v] as nat, |j: int| keys[vertex_weight_refs(vcount, prim, v)[j] as int])
}

/// The index list holds all pairs of vertex `v`.
pub open spec fn vertex_complete(vcount: Seq<u32>, prim: Seq<i32>, v: int) -> bool {
    influence_start(vcount, v) + 2 * vcount[v] <= prim.len()
}

/// Every weight index of vertex `v` names an existing weight.
pub open spec fn vertex_refs_valid(vcount: Seq<u32>, prim: Seq<i32>, nkeys: int, v: int) -> bool {
    forall|j: int|
        0 <= j < vcount[v] ==> 0 <= #[trigger] vertex_weight_refs(vcount, prim, v)[j] < nkeys
}

pub open spec fn vertex_ok(vcount: Seq<u32>, prim: Seq<i32>, nkeys: int, v: int) -> bool {
    vertex_complete(vcount, prim, v) && vertex_refs_valid(vcount, prim, nkeys, v)
}

/// Reads every vertex's influences out of a skin's lists and reduces them:
/// vertex `v` has `vcount[v]` (bone index, weight index) pairs, stored one
/// after another in `prim`, and a weight index refers into `weight_keys`.
/// Fails at the first vertex whose pairs run past the end of `prim` or refer
/// to a missing weight.
pub fn extract_skin_influences(vcount: &Vec<u32>, prim: &Vec<i32>, weight_keys: &Vec<u32>) -> (r:
    Result<Vec<VertexBoneInfluence>, SkinError>)
    ensures
        r is Ok <==> forall|v: int|
            0 <= v < vcount@.len() ==> #[trigger] vertex_ok(
                vcount@,
                prim@,
                weight_keys@.len() as int,
                v,
            ),
        r matches Ok(out) ==> out@.len() == vcount@.len() && forall|v: int|
            0 <= v < vcount@.len() ==> #[trigger] out@[v] == reduced(
                vertex_bones(vcount@, prim@, v),
                vertex_weights(vcount@, prim@, weight_keys@, v),
            ),
        r matches Err(SkinError::Truncated(v)) ==> {
            &&& v < vcount@.len()
            &&& !vertex_complete(vcount@, prim@, v as int)
            &&& forall|u: int| 0 <= u < v ==> #[trigger] vertex_ok(vcount@, prim@, weight_keys@.len() as int, u)
        },
        r matches Err(SkinError::WeightIndexOutOfRange(v)) ==> {
            &&& v < vcount@.len()
            &&& vertex_complete(vcount@, prim@, v as int)
            &&& !vertex_refs_valid(vcount@, prim@, weight_keys@.len() as int, v as int)
            &&& forall|u: int| 0 <= u < v ==> #[trigger] vertex_ok(vcount@, prim@, weight_keys@.len() as int, u)
        },
{
    let nkeys = weight_keys.len();
    let mut out: Vec<VertexBoneInfluence> = Vec::new();
    let mut start: usize = 0;
    let mut v: usize = 0;
    while v < vcount.len()
        invariant
            v <= vcount@.len(),
            nkeys == weight_keys@.len(),
            start as int == influence_start(vcount@, v as int),
            start <= prim@.len(),
            out@.len() == v,
            forall|u: int| 0 <= u < v ==> #[trigger] vertex_ok(vcount@, prim@, nkeys as int, u),
            forall|u: int|
                0 <= u < v ==> #[trigger] out@[u] == reduced(
                    vertex_bones(vcount@, prim@, u),
                    vertex_weights(vcount@, prim@, weight_keys@, u),
                ),
        decreases vcount@.len() - v,
    {
        let count = vcount[v] as usize;
        if count > (prim.len() - start) / 2 {
            assert(!vertex_complete(vcount@, prim@, v as int));
            assert(!vertex_ok(vcount@, prim@, nkeys as int, v as int));
            return Err(SkinError::Truncated(v));
        }
        assert(start + 2 * count <= prim@.len());
        let mut ids: Vec<i32> = Vec::new();
        let mut ws: Vec<u32> = Vec::new();
        let mut j: usize = 0;
        while j < count
            invariant
                v < vcount@.len(),
                count == vcount@[v as int],
                forall|u: int| 0 <= u < v ==> #[trigger] vertex_ok(vcount@, prim@, nkeys as int, u),
                start as int == influence_start(vcount@, v as int),
                start + 2 * count <= prim@.len(),
                nkeys == weight_keys@.len(),
                j <= count,
                ids@ == vertex_bones(vcount@, prim@, v as int).subrange(0, j as int),
                ws@ == vertex_weights(vcount@, prim@, weight_keys@, v as int).subrange(0, j as int),
                forall|k: int|
                    0 <= k < j ==> 0 <= #[trigger] vertex_weight_refs(vcount@, prim@, v as int)[k]
                        < nkeys,
            decreases count - j,
        {
            let plen = prim.len();
            assert(start + 2 * j + 1 < plen);
            let at = start + 2 * j;
            let bone = prim[at];
            let wref = prim[at + 1];
            assert(wref == vertex_weight_refs(vcount@, prim@, v as int)[j as int]);
            if wref < 0 || wref as usize >= nkeys {
                assert(!(0 <= vertex_weight_refs(vcount@, prim@, v as int)[j as int] < nkeys));
                assert(!vertex_ok(vcount@, prim@, nkeys as int, v as int));
                return Err(SkinError::WeightIndexOutOfRange(v));
            }
            ids.push(bone);
            ws.push(weight_keys[wref as usize]);
            j = j + 1;
            assert(ids@ =~= vertex_bones(vcount@, prim@, v as int).subrange(0, j as int));
            assert(ws@ =~= vertex_weights(vcount@, prim@, weight_keys@, v as int).subrange(0, j as int));
        }
        assert(ids@ =~= vertex_bones(vcount@, prim@, v as int));
        assert(ws@ =~= vertex_weights(vcount@, prim@, weight_keys@, v as int));
        out.push(reduce_influences(&ids, &ws));
        start = start + 2 * count;
        v = v + 1;
    }
    Ok(out)
}

} // verus!
