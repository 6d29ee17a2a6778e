//! Turning what the model gives back into a mask of one byte for each pixel.
//!
//! Segmentation models hand out either one value for each pixel, or two (the
//! scores for background and person), and the two can stand side by side for
//! each pixel or as two planes, one after the other. The person's values are
//! picked out of any of these. If any of them lies outside the range of a
//! probability, all of them are taken for raw scores and put through the
//! logistic function. Then they are blended with the mask of the frame before,
//! to calm flicker, and scaled to bytes.
//!
//! The order of these steps, and what each step reads and writes, stands here.
//! The arithmetic on single values does not: the caller hands it in as four
//! functions. So this module works for any kind of value, and says of each
//! result which function it came out of, and with which arguments.

use vstd::prelude::*;

verus! {

/// How a flat run of values is read as a mask.
#[derive(Clone, Copy, Debug, PartialEq, Eq, Structural)]
pub enum PlaneLayout {
    /// One value for each pixel: the values are the mask.
    Single,
    /// Two values for each pixel, side by side: the second of each pair.
    Interleaved,
    /// Two planes: the second one.
    Planar,
    /// More values than pixels, in no known arrangement: the first ones.
    Prefix,
}

/// How `len` values of shape `shape` are read as a mask of `expected`
/// pixels; `None` where there are too few of them.
///
/// Twice `expected` values are two classes. If the last axis of the shape
/// is 2, they stand side by side; if not, and the second axis is 2, they are
/// two planes; with any other shape they are taken to stand side by side.
pub open spec fn plane_layout(expected: int, shape: Seq<i64>, len: int) -> Option<PlaneLayout> {
    if len == expected {
        Some(PlaneLayout::Single)
    } else if len == 2 * expected {
        if shape.len() >= 1 && shape.last() == 2 {
            Some(PlaneLayout::Interleaved)
        } else if shape.len() >= 2 && shape[1] == 2 {
            Some(PlaneLayout::Planar)
        } else {
            Some(PlaneLayout::Interleaved)
        }
    } else if len >= expected {
        Some(PlaneLayout::Prefix)
    } else {
        None
    }
}

/// The mask of `expected` pixels that `data` holds when read as `layout`.
pub open spec fn plane_of<T>(layout: PlaneLayout, expected: int, data: Seq<T>) -> Seq<T> {
    match layout {
        PlaneLayout::Single => data,
        PlaneLayout::Interleaved => Seq::new(expected as nat, |i: int| data[2 * i + 1]),
        PlaneLayout::Planar => data.subrange(expected, 2 * expected),
        PlaneLayout::Prefix => data.subrange(0, expected),
    }
}

/// The mask of `expected` pixels in the output `data` of shape `shape`, if it
/// holds one.
pub open spec fn extracted_plane<T>(expected: int, shape: Seq<i64>, data: Seq<T>) -> Option<Seq<T>> {
    match plane_layout(expected, shape, data.len() as int) {
        Some(layout) => Some(plane_of(layout, expected, data)),
        None => None,
    }
}

/// See [`plane_layout`].
pub fn detect_plane_layout(expected: usize, out_shape: &[i64], len: usize) -> (layout: Option<
    PlaneLayout,
>)
    ensures
        layout == plane_layout(expected as int, out_shape@, len as int),
{
    if len == expected {
        return Some(PlaneLayout::Single);
    }
    if len < expected {
        return None;
    }
    if len - expected == expected {
        let axes: usize = out_shape.len();
        let last_is_two: bool = axes >= 1 && out_shape[axes - 1] == 2;
        let second_is_two: bool = axes >= 2 && out_shape[1] == 2;
        if second_is_two && !last_is_two {
            return Some(PlaneLayout::Planar);
        }
        return Some(PlaneLayout::Interleaved);
    }
    Some(PlaneLayout::Prefix)
}

/// Picks the mask of `expected` pixels out of the model's output `out_data`
/// of shape `out_shape`. See [`extracted_plane`] for what is picked, and
/// [`plane_layout`] for when there is nothing to pick.
pub fn extract_mask_values<T: Copy>(expected: usize, out_shape: &[i64], out_data: &[T]) -> (plane:
    Option<Vec<T>>)
    ensures
        match plane {
            Some(values) => extracted_plane(expected as int, out_shape@, out_data@) == Some(
                values@,
            ),
            None => extracted_plane(expected as int, out_shape@, out_data@) is None,
        },
        plane is Some <==> out_data@.len() >= expected,
        plane matches Some(values) ==> values@.len() == expected,
{
    let layout = match detect_plane_layout(expected, out_shape, out_data.len()) {
        Some(layout) => layout,
        None => {
            return None;
        },
    };
    let (start, step): (usize, usize) = match layout {
        PlaneLayout::Single => (0, 1),
        PlaneLayout::Interleaved => (1, 2),
        PlaneLayout::Planar => (expected, 1),
        PlaneLayout::Prefix => (0, 1),
    };
    let mut values: Vec<T> = Vec::new();
    let mut i: usize = 0;
    while i < expected
        invariant
            i <= expected,
            step == 1 || step == 2,
            start + step * (expected - 1) < out_data@.len() || expected == 0,
            out_data@.len() <= usize::MAX,
            values@.len() == i,
            forall|k: int| 0 <= k < i ==> #[trigger] values@[k] == out_data@[start + step * k],
        decreases expected - i,
    {
        values.push(out_data[start + step * i]);
        i = i + 1;
    }
    proof {
        assert(values@ =~= plane_of(layout, expected as int, out_data@));
    }
    Some(values)
}

/// What is picked is never longer or shorter than the mask that was asked
/// for.
pub proof fn lemma_extracted_plane_len<T>(expected: int, shape: Seq<i64>, data: Seq<T>)
    requires
        0 <= expected,
    ensures
        extracted_plane(expected, shape, data) matches Some(plane) ==> plane.len() == expected,
        extracted_plane(expected, shape, data) is Some <==> data.len() >= expected,
{
}

/// `output` is `input` with `f` applied to each element: it is as long, and
/// each of its elements is what `f` gave for the element in the same place.
pub open spec fn is_image_of<T, U, F: Fn(T) -> U>(input: Seq<T>, f: F, output: Seq<U>) -> bool {
    &&& output.len() == input.len()
    &&& forall|i: int|
        0 <= i < input.len() ==> call_ensures(f, (input[i],), #[trigger] output[i])
}

/// `test` holds of at least one of `values`.
pub open spec fn any_flagged<T, L: Fn(T) -> bool>(values: Seq<T>, test: L) -> bool {
    exists|i: int| 0 <= i < values.len() && call_ensures(test, (#[trigger] values[i],), true)
}

/// `test` holds of none of `values`.
pub open spec fn none_flagged<T, L: Fn(T) -> bool>(values: Seq<T>, test: L) -> bool {
    forall|i: int| 0 <= i < values.len() ==> call_ensures(test, (#[trigger] values[i],), false)
}

/// `activated` is what becomes of `plane` in the second step: if `is_logit`
/// holds of any value, every value is put through `sigmoid`; if it holds of
/// none, the values stay as they are.
pub open spec fn is_activation_of<T, L: Fn(T) -> bool, S: Fn(T) -> T>(
    plane: Seq<T>,
    is_logit: L,
    sigmoid: S,
    activated: Seq<T>,
) -> bool {
    ||| any_flagged(plane, is_logit) && is_image_of(plane, sigmoid, activated)
    ||| none_flagged(plane, is_logit) && activated == plane
}

/// `smoothed` is what becomes of the previous mask `prev` when `current`
/// comes in: a previous mask of another length (none yet, or one of another
/// size) is replaced by `current` as it is; one of the same length is blended
/// with it, element by element, by `blend(previous, current)`.
pub open spec fn is_smoothing_of<T, B: Fn(T, T) -> T>(
    prev: Seq<T>,
    current: Seq<T>,
    blend: B,
    smoothed: Seq<T>,
) -> bool {
    if prev.len() != current.len() {
        smoothed == current
    } else {
        &&& smoothed.len() == current.len()
        &&& forall|i: int|
            0 <= i < current.len() ==> call_ensures(
                blend,
                (prev[i], current[i]),
                #[trigger] smoothed[i],
            )
    }
}

/// Whether any of `values` lies outside the range of a probability, by the
/// caller's test `is_logit`. Values are tested in order, up to the first of
/// which the test holds.
pub fn looks_like_logits<T: Copy, L: Fn(T) -> bool>(values: &[T], is_logit: &L) -> (found: bool)
    requires
        forall|v: T| call_requires(*is_logit, (v,)),
    ensures
        found ==> any_flagged(values@, *is_logit),
        !found ==> none_flagged(values@, *is_logit),
{
    let mut i: usize = 0;
    while i < values.len()
        invariant
            i <= values@.len(),
            forall|v: T| call_requires(*is_logit, (v,)),
            forall|k: int| 0 <= k < i ==> call_ensures(*is_logit, (#[trigger] values@[k],), false),
        decreases values@.len() - i,
    {
        if is_logit(values[i]) {
            return true;
        }
        i = i + 1;
    }
    false
}

/// Puts each of `values` through the caller's logistic function `sigmoid`,
/// in place.
pub fn sigmoid_in_place<T: Copy, S: Fn(T) -> T>(values: &mut Vec<T>, sigmoid: &S)
    requires
        forall|v: T| call_requires(*sigmoid, (v,)),
    ensures
        is_image_of(old(values)@, *sigmoid, final(values)@),
{
    let ghost before = values@;
    let mut i: usize = 0;
    while i < values.len()
        invariant
            i <= values@.len(),
            values@.len() == before.len(),
            forall|v: T| call_requires(*sigmoid, (v,)),
            forall|k: int| 0 <= k < i ==> call_ensures(*sigmoid, (before[k],), #[trigger] values@[k]),
            forall|k: int| i <= k < before.len() ==> values@[k] == before[k],
        decreases values@.len() - i,
    {
        let activated = sigmoid(values[i]);
        values[i] = activated;
        i = i + 1;
    }
}

/// Takes `current` into the previous mask `prev_mask`, which is both what
/// this frame's bytes are made from and what the next frame is blended with.
/// See [`is_smoothing_of`]. The caller's `blend` holds the smoothing
/// coefficient.
pub fn update_temporal_smoothed<T: Copy, B: Fn(T, T) -> T>(
    prev_mask: &mut Vec<T>,
    current: &[T],
    blend: &B,
)
    requires
        forall|p: T, c: T| call_requires(*blend, (p, c)),
    ensures
        is_smoothing_of(old(prev_mask)@, current@, *blend, final(prev_mask)@),
{
    if prev_mask.len() != current.len() {
        let mut fresh: Vec<T> = Vec::new();
        let mut i: usize = 0;
        while i < current.len()
            invariant
                i <= current@.len(),
                fresh@ == current@.take(i as int),
            decreases current@.len() - i,
        {
            fresh.push(current[i]);
            i = i + 1;
        }
        proof {
            assert(current@.take(i as int) == current@);
        }
        *prev_mask = fresh;
        return ;
    }
    let ghost before = prev_mask@;
    let mut i: usize = 0;
    while i < current.len()
        invariant
            i <= current@.len(),
            prev_mask@.len() == current@.len(),
            before.len() == current@.len(),
            forall|p: T, c: T| call_requires(*blend, (p, c)),
            forall|k: int|
                0 <= k < i ==> call_ensures(
                    *blend,
                    (before[k], current@[k]),
                    #[trigger] prev_mask@[k],
                ),
            forall|k: int| i <= k < before.len() ==> prev_mask@[k] == before[k],
        decreases current@.len() - i,
    {
        let blended = blend(prev_mask[i], current[i]);
        prev_mask[i] = blended;
        i = i + 1;
    }
}

/// Scales each of `values` to a byte by the caller's `quantize`.
pub fn to_u8_mask<T: Copy, Q: Fn(T) -> u8>(values: &[T], quantize: &Q) -> (mask: Vec<u8>)
    requires
        forall|v: T| call_requires(*quantize, (v,)),
    ensures
        is_image_of(values@, *quantize, mask@),
{
    let mut mask: Vec<u8> = Vec::new();
    let mut i: usize = 0;
    while i < values.len()
        invariant
            i <= values@.len(),
            mask@.len() == i,
            forall|v: T| call_requires(*quantize, (v,)),
            forall|k: int| 0 <= k < i ==> call_ensures(*quantize, (values@[k],), #[trigger] mask@[k]),
        decreases values@.len() - i,
    {
        mask.push(quantize(values[i]));
        i = i + 1;
    }
    mask
}

/// Makes the mask of `expected` pixels out of the model's output `out_data`
/// of shape `out_shape`, and keeps it in `prev_mask` for the next frame.
///
/// The four steps, in order: the person's values are picked
/// ([`extracted_plane`]); they are put through `sigmoid` if `is_logit` holds
/// of any of them ([`is_activation_of`]); they are taken into `prev_mask`
/// ([`is_smoothing_of`]); and what `prev_mask` then holds is scaled to bytes by
/// `quantize`. Where there is nothing to pick, there is no mask, and
/// `prev_mask` stays as it is.
pub fn postprocess_mask_u8<T: Copy, L: Fn(T) -> bool, S: Fn(T) -> T, B: Fn(T, T) -> T, Q: Fn(T) -> u8>(
    expected: usize,
    out_shape: &[i64],
    out_data: &[T],
    prev_mask: &mut Vec<T>,
    is_logit: &L,
    sigmoid: &S,
    blend: &B,
    quantize: &Q,
) -> (mask: Option<Vec<u8>>)
    requires
        forall|v: T| call_requires(*is_logit, (v,)),
        forall|v: T| call_requires(*sigmoid, (v,)),
        forall|p: T, c: T| call_requires(*blend, (p, c)),
        forall|v: T| call_requires(*quantize, (v,)),
    ensures
        mask is Some <==> out_data@.len() >= expected,
        mask is None ==> final(prev_mask)@ == old(prev_mask)@,
        mask matches Some(bytes) ==> {
            &&& bytes@.len() == expected
            &&& final(prev_mask)@.len() == expected
            &&& is_image_of(final(prev_mask)@, *quantize, bytes@)
            &&& exists|activated: Seq<T>|
                #![trigger is_activation_of(
                    extracted_plane(expected as int, out_shape@, out_data@).unwrap(),
                    *is_logit,
                    *sigmoid,
                    activated,
                )]
                is_activation_of(
                    extracted_plane(expected as int, out_shape@, out_data@).unwrap(),
                    *is_logit,
                    *sigmoid,
                    activated,
                ) && is_smoothing_of(old(prev_mask)@, activated, *blend, final(prev_mask)@)
        },
{
    let mut current = match extract_mask_values(expected, out_shape, out_data) {
        Some(values) => values,
        None => {
            return None;
        },
    };
    let ghost plane = current@;
    if looks_like_logits(current.as_slice(), is_logit) {
        sigmoid_in_place(&mut current, sigmoid);
    }
    let ghost activated = current@;
    update_temporal_smoothed(prev_mask, current.as_slice(), blend);
    let mask = to_u8_mask(prev_mask.as_slice(), quantize);
    proof {
        assert(plane == extracted_plane(expected as int, out_shape@, out_data@).unwrap());
        assert(is_activation_of(plane, *is_logit, *sigmoid, activated));
    }
    Some(mask)
}

} // verus!
