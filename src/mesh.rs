//! The index side of reading a mesh out of a scene document: where each
//! attribute's index sits in an interleaved primitive list, the split into
//! per-attribute index streams, and the attribute slot each corner uses.
use vstd::prelude::*;

verus! {

/// What an input of a primitive list feeds.
#[derive(Clone, Copy, Debug, PartialEq, Eq, Structural)]
pub enum Semantic {
    Normal,
    TexCoord,
    Color,
    Other,
}

/// One input of a primitive list: its meaning and its offset within each
/// corner's group of indices.
#[derive(Clone, Copy, Debug, PartialEq, Eq, Structural)]
pub struct PrimitiveInput {
    pub semantic: Semantic,
    pub offset: u32,
}

/// How the indices of one corner are laid out: `stride` indices per corner,
/// the position index first, and the offsets of the attributes that are
/// present.
#[derive(Clone, Copy, Debug, PartialEq, Eq, Structural)]
pub struct IndexLayout {
    pub stride: usize,
    pub normal: Option<usize>,
    pub texcoord: Option<usize>,
    pub color: Option<usize>,
}

/// The offset of the last input with semantic `s`.
pub open spec fn last_offset(inputs: Seq<PrimitiveInput>, s: Semantic) -> Option<usize>
    decreases inputs.len(),
{
    if inputs.len() == 0 {
        None
    } else if inputs.last().semantic == s {
        Some(inputs.last().offset as usize)
    } else {
        last_offset(inputs.drop_last(), s)
    }
}

/// The largest offset, and at least 2.
pub open spec fn widest_offset(inputs: Seq<PrimitiveInput>) -> int
    decreases inputs.len(),
{
    if inputs.len() == 0 {
        2
    } else {
        let w = widest_offset(inputs.drop_last());
        if inputs.last().offset > w {
            inputs.last().offset as int
        } else {
            w
        }
    }
}

/// The layout of a primitive list's indices: one more than the widest offset
/// per corner (at least three), and the offset of the last input of each
/// attribute.
pub fn index_layout(inputs: &Vec<PrimitiveInput>) -> (l: IndexLayout)
    requires
        forall|i: int| 0 <= i < inputs@.len() ==> (#[trigger] inputs@[i]).offset < u32::MAX,
    ensures
        l.stride == widest_offset(inputs@) + 1,
        l.normal == last_offset(inputs@, Semantic::Normal),
        l.texcoord == last_offset(inputs@, Semantic::TexCoord),
        l.color == last_offset(inputs@, Semantic::Color),
{
    let mut widest: u32 = 2;
    let mut normal: Option<usize> = None;
    let mut texcoord: Option<usize> = None;
    let mut color: Option<usize> = None;
    let mut i: usize = 0;
    while i < inputs.len()
        invariant
            forall|i: int| 0 <= i < inputs@.len() ==> (#[trigger] inputs@[i]).offset < u32::MAX,
            widest < u32::MAX,
            i <= inputs@.len(),
            widest as int == widest_offset(inputs@.subrange(0, i as int)),
            normal == last_offset(inputs@.subrange(0, i as int), Semantic::Normal),
            texcoord == last_offset(inputs@.subrange(0, i as int), Semantic::TexCoord),
            color == last_offset(inputs@.subrange(0, i as int), Semantic::Color),
        decreases inputs@.len() - i,
    {
        let input = inputs[i];
        proof {
            let next = inputs@.subrange(0, i as int + 1);
            assert(next.drop_last() =~= inputs@.subrange(0, i as int));
            assert(next.last() == input);
        }
        match input.semantic {
            Semantic::Normal => {
                normal = Some(input.offset as usize);
            },
            Semantic::TexCoord => {
                texcoord = Some(input.offset as usize);
            },
            Semantic::Color => {
                color = Some(input.offset as usize);
            },
            Semantic::Other => {},
        }
        if input.offset > widest {
            widest = input.offset;
        }
        i = i + 1;
    }
    assert(inputs@.subrange(0, i as int) =~= inputs@);
    IndexLayout { stride: (widest + 1) as usize, normal, texcoord, color }
}

/// Per-attribute index streams, one entry per corner.
pub struct IndexStreams {
    pub positions: Vec<u32>,
    pub normals: Vec<u32>,
    pub texcoords: Vec<u32>,
    pub colors: Vec<u32>,
}

/// Why the indices of a mesh could not be read.
#[derive(Clone, Copy, Debug, PartialEq, Eq, Structural)]
pub enum MeshError {
    /// The primitive list ends inside the index group of a corner.
    TruncatedPrimitive,
    /// Corner `i` has no index for an attribute that other corners have.
    MissingAttributeIndex(usize),
    /// Corner `i` refers to a position that does not exist.
    PositionOutOfRange(usize),
}

/// The number of corners in `len` indices with `stride` indices per corner.
pub open spec fn corner_count(len: int, stride: int) -> int {
    (len + stride - 1) / stride
}

/// The indices at offset `off` of each corner.
pub open spec fn column(prim: Seq<u32>, stride: int, off: int) -> Seq<u32> {
    Seq::new(corner_count(prim.len() as int, stride) as nat, |k: int| prim[k * stride + off])
}

/// The stream after the indices of one more primitive list are added: the
/// column at `off` where the attribute is present, nothing where it is not.
pub open spec fn extended(stream: Seq<u32>, prim: Seq<u32>, stride: int, off: Option<usize>) -> Seq<
    u32,
> {
    match off {
        Some(o) => stream + column(prim, stride, o as int),
        None => stream,
    }
}

pub open spec fn offset_or_zero(o: Option<usize>) -> int {
    match o {
        Some(v) => v as int,
        None => 0,
    }
}

/// The widest offset among the attributes present (0 where none is).
pub open spec fn widest_attribute(l: IndexLayout) -> int {
    let n = offset_or_zero(l.normal);
    let t = offset_or_zero(l.texcoord);
    let c = offset_or_zero(l.color);
    let nt = if t > n { t } else { n };
    if c > nt { c } else { nt }
}

/// Every corner's index group, up to the attributes present, lies within
/// the list.
pub open spec fn groups_complete(len: int, l: IndexLayout) -> bool {
    len == 0 || (corner_count(len, l.stride as int) - 1) * l.stride + widest_attribute(l) < len
}

proof fn lemma_corner_bounds(len: int, stride: int, k: int)
    requires
        stride >= 1,
        len >= 0,
        0 <= k < corner_count(len, stride),
    ensures
        k * stride < len,
        k * stride <= (corner_count(len, stride) - 1) * stride,
        (k + 1) * stride >= len ==> k == corner_count(len, stride) - 1,
        corner_count(len, stride) >= 0,
{
    assert(k * stride < len) by (nonlinear_arith)
        requires
            stride >= 1,
            0 <= k,
            k < (len + stride - 1) / stride,
    ;
    assert(k * stride <= (corner_count(len, stride) - 1) * stride) by (nonlinear_arith)
        requires
            stride >= 1,
            k <= corner_count(len, stride) - 1,
    ;
    assert((k + 1) * stride >= len ==> k + 1 >= (len + stride - 1) / stride) by (nonlinear_arith)
        requires
            stride >= 1,
            len >= 0,
            k >= 0,
    ;
}

/// Adds one primitive list's indices to the streams: the position index and
/// the index of each attribute present, for every corner.
pub fn split_indices(prim: &Vec<u32>, layout: &IndexLayout, streams: &mut IndexStreams) -> (r: Result<
    (),
    MeshError,
>)
    requires
        layout.stride >= 1,
    ensures
        r is Ok <==> groups_complete(prim@.len() as int, *layout),
        r is Ok ==> {
            &&& final(streams).positions@ == old(streams).positions@ + column(
                prim@,
                layout.stride as int,
                0,
            )
            &&& final(streams).normals@ == extended(
                old(streams).normals@,
                prim@,
                layout.stride as int,
                layout.normal,
            )
            &&& final(streams).texcoords@ == extended(
                old(streams).texcoords@,
                prim@,
                layout.stride as int,
                layout.texcoord,
            )
            &&& final(streams).colors@ == extended(
                old(streams).colors@,
                prim@,
                layout.stride as int,
                layout.color,
            )
        },
        r is Err ==> r == Err::<(), MeshError>(MeshError::TruncatedPrimitive),
{
    let len = prim.len();
    let stride = layout.stride;
    if len == 0 {
        proof {
            let st = stride as int;
            assert((0 + st - 1) / st == 0) by (nonlinear_arith)
                requires
                    st >= 1,
            ;
            assert(column(prim@, stride as int, 0) =~= Seq::<u32>::empty());
            assert forall|o: usize| #[trigger] column(prim@, stride as int, o as int) =~= Seq::<u32>::empty() by {}
            assert(old(streams).positions@ + Seq::<u32>::empty() =~= old(streams).positions@);
            assert(old(streams).normals@ + Seq::<u32>::empty() =~= old(streams).normals@);
            assert(old(streams).texcoords@ + Seq::<u32>::empty() =~= old(streams).texcoords@);
            assert(old(streams).colors@ + Seq::<u32>::empty() =~= old(streams).colors@);
        }
        return Ok(());
    }
    let corners = (len - 1) / stride + 1;
    proof {
        let (l, st, c) = (len as int, stride as int, corners as int);
        assert(c == corner_count(l, st)) by (nonlinear_arith)
            requires
                c == (l - 1) / st + 1,
                st >= 1,
                l >= 1,
        ;
    }
    proof {
        lemma_corner_bounds(len as int, stride as int, corners as int - 1);
    }
    let last = (corners - 1) * stride;
    let need = match layout.normal {
        Some(o) => o,
        None => 0,
    };
    let need = match layout.texcoord {
        Some(o) => if o > need {
            o
        } else {
            need
        },
        None => need,
    };
    let need = match layout.color {
        Some(o) => if o > need {
            o
        } else {
            need
        },
        None => need,
    };
    if need >= len - last {
        return Err(MeshError::TruncatedPrimitive);
    }
    let ghost p0 = old(streams).positions@;
    let ghost n0 = old(streams).normals@;
    let ghost t0 = old(streams).texcoords@;
    let ghost c0 = old(streams).colors@;
    let mut k: usize = 0;
    while k < corners
        invariant
            corners == corner_count(len as int, stride as int),
            len == prim@.len(),
            stride == layout.stride,
            stride >= 1,
            last == (corners - 1) * stride,
            last + need < len,
            layout.normal matches Some(o) ==> o <= need,
            layout.texcoord matches Some(o) ==> o <= need,
            layout.color matches Some(o) ==> o <= need,
            k <= corners,
            streams.positions@ == p0 + column(prim@, stride as int, 0).subrange(0, k as int),
            streams.normals@ == (match layout.normal {
                Some(o) => n0 + column(prim@, stride as int, o as int).subrange(0, k as int),
                None => n0,
            }),
            streams.texcoords@ == (match layout.texcoord {
                Some(o) => t0 + column(prim@, stride as int, o as int).subrange(0, k as int),
                None => t0,
            }),
            streams.colors@ == (match layout.color {
                Some(o) => c0 + column(prim@, stride as int, o as int).subrange(0, k as int),
                None => c0,
            }),
        decreases corners - k,
    {
        proof {
            lemma_corner_bounds(len as int, stride as int, k as int);
        }
        let base = k * stride;
        streams.positions.push(prim[base]);
        match layout.normal {
            Some(o) => {
                streams.normals.push(prim[base + o]);
            },
            None => {},
        }
        match layout.texcoord {
            Some(o) => {
                streams.texcoords.push(prim[base + o]);
            },
            None => {},
        }
        match layout.color {
            Some(o) => {
                streams.colors.push(prim[base + o]);
            },
            None => {},
        }
        k = k + 1;
        proof {
            assert(streams.positions@ =~= p0 + column(prim@, stride as int, 0).subrange(0, k as int));
            if let Some(o) = layout.normal {
                assert(streams.normals@ =~= n0 + column(prim@, stride as int, o as int).subrange(0, k as int));
            }
            if let Some(o) = layout.texcoord {
                assert(streams.texcoords@ =~= t0 + column(prim@, stride as int, o as int).subrange(0, k as int));
            }
            if let Some(o) = layout.color {
                assert(streams.colors@ =~= c0 + column(prim@, stride as int, o as int).subrange(0, k as int));
            }
        }
    }
    proof {
        assert(column(prim@, stride as int, 0).subrange(0, k as int) =~= column(prim@, stride as int, 0));
        if let Some(o) = layout.normal {
            assert(column(prim@, stride as int, o as int).subrange(0, k as int) =~= column(prim@, stride as int, o as int));
        }
        if let Some(o) = layout.texcoord {
            assert(column(prim@, stride as int, o as int).subrange(0, k as int) =~= column(prim@, stride as int, o as int));
        }
        if let Some(o) = layout.color {
            assert(column(prim@, stride as int, o as int).subrange(0, k as int) =~= column(prim@, stride as int, o as int));
        }
    }
    Ok(())
}

/// The slots one corner reads its attributes from; `None` where the
/// attribute is missing and its default applies.
#[derive(Clone, Copy, Debug, PartialEq, Eq, Structural)]
pub struct CornerAttributes {
    pub position: usize,
    pub normal: Option<usize>,
    pub texcoord: Option<usize>,
    pub color: Option<usize>,
}

/// The slot of an attribute for corner `i`: its index from the stream (0
/// where the stream is empty) if that names one of `available` values.
pub open spec fn attribute_slot(stream: Seq<u32>, i: int, available: int) -> Option<usize> {
    let idx = if stream.len() > 0 {
        stream[i] as int
    } else {
        0
    };
    if available > 0 && idx < available {
        Some(idx as usize)
    } else {
        None
    }
}

/// A non-empty stream has an index for corner `i`.
pub open spec fn covers(stream: Seq<u32>, i: int) -> bool {
    stream.len() == 0 || i < stream.len()
}

pub open spec fn corner_ok(s: IndexStreams, i: int, n_positions: int) -> bool {
    &&& (s.positions@[i] as int) < n_positions
    &&& covers(s.normals@, i)
    &&& covers(s.texcoords@, i)
    &&& covers(s.colors@, i)
}

fn slot(stream: &Vec<u32>, i: usize, available: usize) -> (r: Option<usize>)
    requires
        covers(stream@, i as int),
    ensures
        r == attribute_slot(stream@, i as int, available as int),
{
    let idx: usize = if stream.len() > 0 {
        stream[i] as usize
    } else {
        0
    };
    if available > 0 && idx < available {
        Some(idx)
    } else {
        None
    }
}

/// For every corner, the position it uses and the slots of its normal,
/// texture coordinate and color among the given numbers of values. Fails at
/// the first corner whose position does not exist, or that a non-empty
/// attribute stream has no index for.
pub fn resolve_corners(
    streams: &IndexStreams,
    n_positions: usize,
    n_normals: usize,
    n_texcoords: usize,
    n_colors: usize,
) -> (r: Result<Vec<CornerAttributes>, MeshError>)
    ensures
        r is Ok <==> forall|i: int|
            0 <= i < streams.positions@.len() ==> #[trigger] corner_ok(*streams, i, n_positions as int),
        r matches Ok(cs) ==> cs@.len() == streams.positions@.len() && forall|i: int|
            0 <= i < cs@.len() ==> #[trigger] cs@[i] == (CornerAttributes {
                position: streams.positions@[i] as usize,
                normal: attribute_slot(streams.normals@, i, n_normals as int),
                texcoord: attribute_slot(streams.texcoords@, i, n_texcoords as int),
                color: attribute_slot(streams.colors@, i, n_colors as int),
            }),
        r matches Err(e) ==> exists|i: int|
            0 <= i < streams.positions@.len() && !corner_ok(*streams, i, n_positions as int) && (
            forall|j: int| 0 <= j < i ==> #[trigger] corner_ok(*streams, j, n_positions as int))
                && (e == MeshError::PositionOutOfRange(i as usize) || e
                == MeshError::MissingAttributeIndex(i as usize)),
{
    let mut cs: Vec<CornerAttributes> = Vec::new();
    let mut i: usize = 0;
    while i < streams.positions.len()
        invariant
            i <= streams.positions@.len(),
            cs@.len() == i,
            forall|j: int| 0 <= j < i ==> #[trigger] corner_ok(*streams, j, n_positions as int),
            forall|j: int|
                0 <= j < i ==> #[trigger] cs@[j] == (CornerAttributes {
                    position: streams.positions@[j] as usize,
                    normal: attribute_slot(streams.normals@, j, n_normals as int),
                    texcoord: attribute_slot(streams.texcoords@, j, n_texcoords as int),
                    color: attribute_slot(streams.colors@, j, n_colors as int),
                }),
        decreases streams.positions@.len() - i,
    {
        let position = streams.positions[i] as usize;
        if position >= n_positions {
            assert(!corner_ok(*streams, i as int, n_positions as int));
            return Err(MeshError::PositionOutOfRange(i));
        }
        if (streams.normals.len() > 0 && i >= streams.normals.len()) || (streams.texcoords.len() > 0
            && i >= streams.texcoords.len()) || (streams.colors.len() > 0 && i
            >= streams.colors.len()) {
            assert(!corner_ok(*streams, i as int, n_positions as int));
            return Err(MeshError::MissingAttributeIndex(i));
        }
        let c = CornerAttributes {
            position,
            normal: slot(&streams.normals, i, n_normals),
            texcoord: slot(&streams.texcoords, i, n_texcoords),
            color: slot(&streams.colors, i, n_colors),
        };
        cs.push(c);
        i = i + 1;
    }
    Ok(cs)
}

} // verus!
