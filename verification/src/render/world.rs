//! Which primitives of a mesh each render pass draws.
//!
//! The world is drawn in three passes, one per alpha mode: opaque, then
//! masked, then blended, with blending enabled only in the last. A primitive
//! whose material has an alpha mode is drawn in that mode's pass; a
//! primitive without a material uses the default material and is drawn in
//! every pass.
use vstd::prelude::*;

use crate::world::texture::AlphaMode;

verus! {

/// A run of indices of a mesh drawn with one material.
#[derive(Clone, Copy, Debug, PartialEq, Eq, Structural)]
pub struct Primitive {
    pub first_index: usize,
    pub number_of_indices: usize,
    pub material_index: Option<usize>,
}

/// The render passes, in order.
pub fn render_passes() -> (passes: [AlphaMode; 3])
    ensures
        passes@ == seq![AlphaMode::Opaque, AlphaMode::Mask, AlphaMode::Blend],
{
    [AlphaMode::Opaque, AlphaMode::Mask, AlphaMode::Blend]
}

/// Whether blending is enabled in a pass: only in the blend pass.
pub fn pass_uses_blending(pass: AlphaMode) -> (b: bool)
    ensures
        b == (pass == AlphaMode::Blend),
{
    match pass {
        AlphaMode::Opaque | AlphaMode::Mask => false,
        AlphaMode::Blend => true,
    }
}

/// Whether a primitive is drawn in `pass`, given the alpha mode of its
/// material, if it has one.
pub open spec fn drawn_in_pass(pass: AlphaMode, material_alpha: Option<AlphaMode>) -> bool {
    match material_alpha {
        Some(alpha) => alpha == pass,
        None => true,
    }
}

/// The alpha mode of a primitive's material, if it has one.
pub open spec fn primitive_alpha(primitive: Primitive, material_alpha_modes: Seq<AlphaMode>) -> Option<AlphaMode> {
    match primitive.material_index {
        Some(i) => Some(material_alpha_modes[i as int]),
        None => None,
    }
}

/// The positions of the primitives drawn in `pass` among the first `k`.
pub open spec fn pass_selection(pass: AlphaMode, primitives: Seq<Primitive>, material_alpha_modes: Seq<AlphaMode>, k: nat) -> Seq<usize>
    decreases k,
{
    if k == 0 {
        Seq::empty()
    } else {
        let rest = pass_selection(pass, primitives, material_alpha_modes, (k - 1) as nat);
        if drawn_in_pass(pass, primitive_alpha(primitives[k - 1], material_alpha_modes)) {
            rest.push((k - 1) as usize)
        } else {
            rest
        }
    }
}

/// Law: the primitives a pass draws, among the first `k`, are exactly those
/// without a material and those whose material's alpha mode is the pass,
/// listed in increasing position order.
pub proof fn law_pass_selection(pass: AlphaMode, primitives: Seq<Primitive>, material_alpha_modes: Seq<AlphaMode>, k: nat)
    requires
        k <= primitives.len(),
        k <= usize::MAX,
    ensures
        forall|a: int|
            0 <= a < pass_selection(pass, primitives, material_alpha_modes, k).len() ==> #[trigger] pass_selection(
                pass,
                primitives,
                material_alpha_modes,
                k,
            )[a] < k,
        forall|i: usize|
            i < k ==> (#[trigger] pass_selection(pass, primitives, material_alpha_modes, k).contains(i) <==> (
            primitives[i as int].material_index is None || material_alpha_modes[primitives[i as int].material_index.unwrap() as int]
                == pass)),
        forall|a: int, b: int|
            0 <= a < b < pass_selection(pass, primitives, material_alpha_modes, k).len() ==> #[trigger] pass_selection(
                pass,
                primitives,
                material_alpha_modes,
                k,
            )[a] < #[trigger] pass_selection(pass, primitives, material_alpha_modes, k)[b],
    decreases k,
{
    if k > 0 {
        let c = (k - 1) as nat;
        law_pass_selection(pass, primitives, material_alpha_modes, c);
        let prev = pass_selection(pass, primitives, material_alpha_modes, c);
        let r = pass_selection(pass, primitives, material_alpha_modes, k);
        let i = c as usize;
        if drawn_in_pass(pass, primitive_alpha(primitives[c as int], material_alpha_modes)) {
            assert(r == prev.push(i));
            assert forall|x: usize| x < k implies (r.contains(x) <==> (primitives[x as int].material_index is None
                || material_alpha_modes[primitives[x as int].material_index.unwrap() as int] == pass)) by {
                if x == i {
                    assert(r[prev.len() as int] == x);
                } else {
                    if r.contains(x) {
                        let j = choose|j: int| 0 <= j < r.len() && r[j] == x;
                        assert(j < prev.len());
                        assert(prev[j] == x);
                    }
                    if prev.contains(x) {
                        let j = choose|j: int| 0 <= j < prev.len() && prev[j] == x;
                        assert(r[j] == x);
                    }
                }
            }
        } else {
            assert(r == prev);
            assert forall|x: usize| x < k implies (r.contains(x) <==> (primitives[x as int].material_index is None
                || material_alpha_modes[primitives[x as int].material_index.unwrap() as int] == pass)) by {
                if x == i && r.contains(x) {
                    let j = choose|j: int| 0 <= j < r.len() && r[j] == x;
                    assert(prev[j] < c);
                }
            }
        }
    }
}

/// The positions, in order, of the primitives drawn in `pass`, where
/// `material_alpha_modes[i]` is the alpha mode of material `i`. Every
/// material a primitive names must exist.
pub fn primitives_in_pass(pass: AlphaMode, primitives: &Vec<Primitive>, material_alpha_modes: &Vec<AlphaMode>) -> (drawn: Vec<usize>)
    requires
        forall|j: int|
            0 <= j < primitives@.len() ==> (#[trigger] primitives@[j].material_index matches Some(i) ==> i
                < material_alpha_modes@.len()),
    ensures
        drawn@ == pass_selection(pass, primitives@, material_alpha_modes@, primitives@.len()),
        forall|i: usize|
            i < primitives@.len() ==> (#[trigger] drawn@.contains(i) <==> (primitives@[i as int].material_index is None
                || material_alpha_modes@[primitives@[i as int].material_index.unwrap() as int] == pass)),
        forall|a: int, b: int| 0 <= a < b < drawn@.len() ==> #[trigger] drawn@[a] < #[trigger] drawn@[b],
{
    let mut drawn: Vec<usize> = Vec::new();
    let mut k: usize = 0;
    while k < primitives.len()
        invariant
            k <= primitives@.len(),
            forall|j: int|
                0 <= j < primitives@.len() ==> (#[trigger] primitives@[j].material_index matches Some(i) ==> i
                    < material_alpha_modes@.len()),
            drawn@ == pass_selection(pass, primitives@, material_alpha_modes@, k as nat),
        decreases primitives@.len() - k,
    {
        let primitive = primitives[k];
        let draw = match primitive.material_index {
            Some(i) => material_alpha_modes[i] == pass,
            None => true,
        };
        if draw {
            drawn.push(k);
        }
        k = k + 1;
    }
    proof {
        law_pass_selection(pass, primitives@, material_alpha_modes@, primitives@.len());
    }
    drawn
}

/// Law: a primitive with a material is drawn in exactly one pass, and one
/// without a material in all of them.
pub proof fn law_one_pass_per_material(material_alpha: Option<AlphaMode>)
    ensures
        material_alpha is Some ==> (drawn_in_pass(AlphaMode::Opaque, material_alpha) as int
            + drawn_in_pass(AlphaMode::Mask, material_alpha) as int + drawn_in_pass(
            AlphaMode::Blend,
            material_alpha,
        ) as int) == 1,
        material_alpha is None ==> drawn_in_pass(AlphaMode::Opaque, material_alpha) && drawn_in_pass(
            AlphaMode::Mask,
            material_alpha,
        ) && drawn_in_pass(AlphaMode::Blend, material_alpha),
{
}

} // verus!
