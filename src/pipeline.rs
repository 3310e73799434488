use vstd::prelude::*;

verus! {

/// Each corner of each triangle of `dst` is what `f` gives for the matching
/// corner of `src`.
pub open spec fn mapped_corners<A, B, F: Fn(&A) -> B>(
    f: F,
    src: Seq<[A; 3]>,
    dst: Seq<[B; 3]>,
) -> bool {
    &&& dst.len() == src.len()
    &&& forall|i: int, j: int|
        0 <= i < src.len() && 0 <= j < 3 ==> f.ensures((&src[i][j],), #[trigger] dst[i][j])
}

/// Maps every corner of every triangle through `f`, keeping the order.
pub fn map_corners<A, B, F: Fn(&A) -> B>(src: &Vec<[A; 3]>, f: &F) -> (r: Vec<[B; 3]>)
    requires
        forall|a: &A| f.requires((a,)),
    ensures
        mapped_corners(*f, src@, r@),
{
    let mut out: Vec<[B; 3]> = Vec::new();
    let mut i: usize = 0;
    while i < src.len()
        invariant
            i <= src@.len(),
            forall|a: &A| f.requires((a,)),
            mapped_corners(*f, src@.subrange(0, i as int), out@),
        decreases src@.len() - i,
    {
        let t = &src[i];
        let p0 = f(&t[0]);
        let p1 = f(&t[1]);
        let p2 = f(&t[2]);
        out.push([p0, p1, p2]);
        i = i + 1;
        proof {
            let s = src@.subrange(0, i as int);
            assert forall|a: int, b: int| 0 <= a < s.len() && 0 <= b < 3 implies f.ensures(
                (&s[a][b],),
                #[trigger] out@[a][b],
            ) by {
                if a < i - 1 {
                    assert(s[a] == src@.subrange(0, i - 1)[a]);
                }
            }
        }
    }
    proof {
        assert(src@.subrange(0, src@.len() as int) =~= src@);
    }
    out
}

/// A solid as a list of triangles, with the three arrays that a frame derives
/// from it: the corners seen from the camera (`view`), projected onto the
/// screen plane (`screen`), and placed in the pixel buffer (`display`).
/// `P` is the type of a point in space, `Q` that of a point in the plane.
pub struct Model<P, Q> {
    pub triangles: Vec<[P; 3]>,
    pub view: Vec<[P; 3]>,
    pub screen: Vec<[Q; 3]>,
    pub display: Vec<[Q; 3]>,
}

impl<P, Q> Model<P, Q> {
    /// A model of `triangles` with nothing derived yet.
    pub fn init(triangles: Vec<[P; 3]>) -> (r: Model<P, Q>)
        ensures
            r.triangles@ == triangles@,
            r.view@.len() == 0,
            r.screen@.len() == 0,
            r.display@.len() == 0,
    {
        Model { triangles, view: Vec::new(), screen: Vec::new(), display: Vec::new() }
    }

    /// Drops what the previous frame derived.
    pub fn clear_trans_pos(&mut self)
        ensures
            final(self).triangles@ == old(self).triangles@,
            final(self).view@.len() == 0,
            final(self).screen@.len() == 0,
            final(self).display@.len() == 0,
    {
        self.view = Vec::new();
        self.screen = Vec::new();
        self.display = Vec::new();
    }

    /// View stage: every corner of every triangle through the camera
    /// transform `to_view`.
    pub fn cal_view_pos<F: Fn(&P) -> P>(&mut self, to_view: &F)
        requires
            forall|a: &P| to_view.requires((a,)),
        ensures
            final(self).triangles@ == old(self).triangles@,
            mapped_corners(*to_view, old(self).triangles@, final(self).view@),
            final(self).screen@ == old(self).screen@,
            final(self).display@ == old(self).display@,
    {
        self.view = map_corners(&self.triangles, to_view);
    }

    /// Screen stage: every corner of the view stage through the projection
    /// `to_screen`.
    pub fn cal_screen_pos<F: Fn(&P) -> Q>(&mut self, to_screen: &F)
        requires
            forall|a: &P| to_screen.requires((a,)),
        ensures
            final(self).triangles@ == old(self).triangles@,
            final(self).view@ == old(self).view@,
            mapped_corners(*to_screen, old(self).view@, final(self).screen@),
            final(self).display@ == old(self).display@,
    {
        self.screen = map_corners(&self.view, to_screen);
    }

    /// Display stage: every corner of the screen stage placed in the pixel
    /// buffer by `to_display`.
    pub fn cal_display_pos<F: Fn(&Q) -> Q>(&mut self, to_display: &F)
        requires
            forall|a: &Q| to_display.requires((a,)),
        ensures
            final(self).triangles@ == old(self).triangles@,
            final(self).view@ == old(self).view@,
            final(self).screen@ == old(self).screen@,
            mapped_corners(*to_display, old(self).screen@, final(self).display@),
    {
        self.display = map_corners(&self.screen, to_display);
    }

    /// One frame: the derived arrays are dropped, then rebuilt stage by
    /// stage from the triangles. Afterwards each holds one entry per
    /// triangle, and each entry comes from the matching entry of the stage
    /// before it, so nothing of an earlier frame remains.
    pub fn run_frame<V: Fn(&P) -> P, S: Fn(&P) -> Q, D: Fn(&Q) -> Q>(
        &mut self,
        to_view: &V,
        to_screen: &S,
        to_display: &D,
    )
        requires
            forall|a: &P| to_view.requires((a,)),
            forall|a: &P| to_screen.requires((a,)),
            forall|a: &Q| to_display.requires((a,)),
        ensures
            final(self).triangles@ == old(self).triangles@,
            final(self).view@.len() == old(self).triangles@.len(),
            final(self).screen@.len() == old(self).triangles@.len(),
            final(self).display@.len() == old(self).triangles@.len(),
            mapped_corners(*to_view, old(self).triangles@, final(self).view@),
            mapped_corners(*to_screen, final(self).view@, final(self).screen@),
            mapped_corners(*to_display, final(self).screen@, final(self).display@),
    {
        self.clear_trans_pos();
        self.cal_view_pos(to_view);
        self.cal_screen_pos(to_screen);
        self.cal_display_pos(to_display);
    }
}

} // verus!
