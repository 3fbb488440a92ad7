use vstd::prelude::*;

verus! {

/// How a keyframe reaches its value: at once (`NERP`) or linearly from the
/// previous keyframe of its kind (`LERP`).
#[derive(Debug, Clone, Copy, PartialEq, Eq, Structural)]
pub enum InterpolationType {
    NERP,
    LERP,
}

/// Whether a transform is applied in world or in local coordinates.
#[derive(Debug, Clone, Copy, PartialEq, Eq, Structural)]
pub enum TransformSpace {
    World,
    Local,
}

/// The kind of a transform on an object's timeline. `Omni` marks the
/// initial transform of a track, which every kind of that track continues from.
#[derive(Debug, Clone, Copy, PartialEq, Eq, Structural)]
pub enum TransformType {
    ScaleX,
    ScaleY,
    ScaleZ,
    ScaleR,
    Rotate,
    TranslateX,
    TranslateY,
    TranslateZ,
    Omni,
}

/// Whether a keyframe of kind `wanted` takes its starting value from a
/// transform of kind `candidate`.
pub open spec fn continues_from(candidate: TransformType, wanted: TransformType) -> bool {
    candidate == wanted || candidate == TransformType::Omni
}

/// Whether transform `i` of a track is one that a keyframe of kind `wanted`
/// can continue from, given which transforms have begun before the keyframe.
pub open spec fn is_predecessor(kinds: Seq<TransformType>, begun: Seq<bool>, wanted: TransformType, i: int) -> bool {
    begun[i] && continues_from(kinds[i], wanted)
}

/// Whether transform `i` of a track is a later keyframe of kind `wanted`,
/// given which transforms lie after the keyframe.
pub open spec fn is_successor(kinds: Seq<TransformType>, after: Seq<bool>, wanted: TransformType, i: int) -> bool {
    after[i] && kinds[i] == wanted
}

/// The position, in a track sorted by start time, of the transform that a
/// new keyframe of kind `ttype` continues from: the last one that has begun
/// before the keyframe (`begun`) and is of kind `ttype` or the track's
/// initial transform.
pub fn most_recent_matching_transform(
    kinds: &Vec<TransformType>,
    begun: &Vec<bool>,
    ttype: TransformType,
) -> (r: Option<usize>)
    requires
        kinds.len() == begun.len(),
        ttype != TransformType::Omni,
    ensures
        r matches Some(i) ==> {
            &&& i < kinds.len()
            &&& is_predecessor(kinds@, begun@, ttype, i as int)
            &&& forall|j: int| i < j < kinds.len() ==> !#[trigger] is_predecessor(kinds@, begun@, ttype, j)
        },
        r is None ==> forall|j: int| 0 <= j < kinds.len() ==> !#[trigger] is_predecessor(kinds@, begun@, ttype, j),
{
    let mut k: usize = kinds.len();
    while k > 0
        invariant
            k <= kinds.len(),
            kinds.len() == begun.len(),
            forall|j: int| k <= j < kinds.len() ==> !#[trigger] is_predecessor(kinds@, begun@, ttype, j),
        decreases k,
    {
        let i = k - 1;
        if begun[i] && (kinds[i] == ttype || kinds[i] == TransformType::Omni) {
            return Some(i);
        }
        k = i;
    }
    None
}

/// The position, in a track sorted by start time, of the first transform of
/// kind `ttype` that lies after a new keyframe (`after`): the one whose
/// starting value the keyframe sets.
pub fn next_matching_transform(
    kinds: &Vec<TransformType>,
    after: &Vec<bool>,
    ttype: TransformType,
) -> (r: Option<usize>)
    requires
        kinds.len() == after.len(),
        ttype != TransformType::Omni,
    ensures
        r matches Some(i) ==> {
            &&& i < kinds.len()
            &&& is_successor(kinds@, after@, ttype, i as int)
            &&& forall|j: int| 0 <= j < i ==> !#[trigger] is_successor(kinds@, after@, ttype, j)
        },
        r is None ==> forall|j: int| 0 <= j < kinds.len() ==> !#[trigger] is_successor(kinds@, after@, ttype, j),
{
    let mut i: usize = 0;
    while i < kinds.len()
        invariant
            i <= kinds.len(),
            kinds.len() == after.len(),
            forall|j: int| 0 <= j < i ==> !#[trigger] is_successor(kinds@, after@, ttype, j),
        decreases kinds.len() - i,
    {
        if after[i] && kinds[i] == ttype {
            return Some(i);
        }
        i = i + 1;
    }
    None
}

} // verus!
