//! The clipping stage.
use vstd::prelude::*;
use crate::vertex::ClipSpaceVertex;

verus! {

/// Turns one clip-space triangle into zero or more clip-space triangles.
pub trait Clipper {
    spec fn clip_spec(&self, triangle: [ClipSpaceVertex; 3]) -> Seq<[ClipSpaceVertex; 3]>;

    fn clip_triangle(&self, triangle: &[ClipSpaceVertex; 3]) -> (r: Vec<[ClipSpaceVertex; 3]>)
        ensures
            r@ == self.clip_spec(*triangle),
    ;
}

/// Discards a triangle lying wholly behind the camera and passes any other through.
pub struct SimpleClipper;

/// All three vertices have a negative clip-space `w`.
pub open spec fn behind_camera(t: [ClipSpaceVertex; 3]) -> bool {
    t[0].position.w < 0 && t[1].position.w < 0 && t[2].position.w < 0
}

impl Clipper for SimpleClipper {
    open spec fn clip_spec(&self, triangle: [ClipSpaceVertex; 3]) -> Seq<[ClipSpaceVertex; 3]> {
        if behind_camera(triangle) {
            seq![]
        } else {
            seq![triangle]
        }
    }

    fn clip_triangle(&self, triangle: &[ClipSpaceVertex; 3]) -> (r: Vec<[ClipSpaceVertex; 3]>) {
        if triangle[0].position.w < 0 && triangle[1].position.w < 0 && triangle[2].position.w < 0 {
            let r: Vec<[ClipSpaceVertex; 3]> = Vec::new();
            proof {
                assert(r@ =~= seq![]);
            }
            r
        } else {
            let mut r: Vec<[ClipSpaceVertex; 3]> = Vec::new();
            r.push(*triangle);
            proof {
                assert(r@ =~= seq![*triangle]);
            }
            r
        }
    }
}

/// A triangle with every vertex behind the camera yields no triangle; any other yields
/// itself unchanged.
pub proof fn lemma_simple_clip(c: SimpleClipper, t: [ClipSpaceVertex; 3])
    ensures
        behind_camera(t) ==> c.clip_spec(t).len() == 0,
        !behind_camera(t) ==> c.clip_spec(t) == seq![t],
{
}

} // verus!
