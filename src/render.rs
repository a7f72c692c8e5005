//! Textured quads in exact arithmetic: pixel positions, and texture
//! coordinates as fractions of the texture's size.
use vstd::prelude::*;
use crate::data::Rect;

verus! {

/// The fraction `num / den`.
#[derive(Clone, Copy, Debug, PartialEq, Eq, Structural)]
pub struct Ratio {
    pub num: i64,
    pub den: u32,
}

/// One corner of a quad: its position in pixels, its texture coordinate `(u, v)`.
#[derive(Clone, Copy, Debug, PartialEq, Eq, Structural)]
pub struct Vertex {
    pub x: i64,
    pub y: i64,
    pub u: Ratio,
    pub v: Ratio,
}

/// A textured rectangle: where it lands, and which texture pixels it shows.
#[derive(Clone, Copy, Debug, PartialEq, Eq, Structural)]
pub struct Quad {
    pub rect: Rect,
    pub tex_coords: Rect,
}

/// A quad whose texture coordinates are taken relative to a texture of
/// `tex_width` by `tex_height` pixels, so that the texture spans `[0, 1]`.
#[derive(Clone, Copy, Debug, PartialEq, Eq, Structural)]
pub struct TexQuad {
    pub rect: Rect,
    pub tex_coords: Rect,
    pub tex_width: u32,
    pub tex_height: u32,
}

pub open spec fn left(r: Rect) -> int {
    r.x as int
}

pub open spec fn right(r: Rect) -> int {
    r.x + r.width
}

pub open spec fn top(r: Rect) -> int {
    r.y as int
}

pub open spec fn bottom(r: Rect) -> int {
    r.y + r.height
}

/// The corner of `q` at horizontal edge `h` and vertical edge `v` of both
/// rectangles (`false` for left / top, `true` for right / bottom).
pub open spec fn corner(q: TexQuad, h: bool, v: bool) -> Vertex {
    Vertex {
        x: (if h { right(q.rect) } else { left(q.rect) }) as i64,
        y: (if v { bottom(q.rect) } else { top(q.rect) }) as i64,
        u: Ratio { num: (if h { right(q.tex_coords) } else { left(q.tex_coords) }) as i64, den: q.tex_width },
        v: Ratio { num: (if v { bottom(q.tex_coords) } else { top(q.tex_coords) }) as i64, den: q.tex_height },
    }
}

fn corner_of(q: &TexQuad, h: bool, v: bool) -> (r: Vertex)
    ensures
        r == corner(*q, h, v),
{
    let x: i64 = if h { q.rect.x as i64 + q.rect.width as i64 } else { q.rect.x as i64 };
    let y: i64 = if v { q.rect.y as i64 + q.rect.height as i64 } else { q.rect.y as i64 };
    let u: i64 = if h { q.tex_coords.x as i64 + q.tex_coords.width as i64 } else { q.tex_coords.x as i64 };
    let w: i64 = if v { q.tex_coords.y as i64 + q.tex_coords.height as i64 } else { q.tex_coords.y as i64 };
    Vertex { x, y, u: Ratio { num: u, den: q.tex_width }, v: Ratio { num: w, den: q.tex_height } }
}

impl Quad {
    /// Takes the texture coordinates relative to a texture of `width` by `height` pixels.
    pub fn norm_tex_coords(self, width: u32, height: u32) -> (r: TexQuad)
        requires
            width > 0,
            height > 0,
        ensures
            r == (TexQuad { rect: self.rect, tex_coords: self.tex_coords, tex_width: width, tex_height: height }),
    {
        TexQuad { rect: self.rect, tex_coords: self.tex_coords, tex_width: width, tex_height: height }
    }
}

impl TexQuad {
    /// The four corners: top-left, top-right, bottom-right, bottom-left.
    pub fn into_individual_verts(self) -> (r: [Vertex; 4])
        ensures
            r@ == seq![corner(self, false, false), corner(self, true, false), corner(self, true, true), corner(self, false, true)],
    {
        let r = [
            corner_of(&self, false, false),
            corner_of(&self, true, false),
            corner_of(&self, true, true),
            corner_of(&self, false, true),
        ];
        assert(r@ =~= seq![corner(self, false, false), corner(self, true, false), corner(self, true, true), corner(self, false, true)]);
        r
    }

    /// The four corners, with the indices of two triangles over them:
    /// top-left / bottom-right / bottom-left and top-left / top-right / bottom-right.
    pub fn into_verts_indices(self) -> (r: ([Vertex; 4], [u32; 6]))
        ensures
            r.0@ == seq![corner(self, false, false), corner(self, true, false), corner(self, true, true), corner(self, false, true)],
            r.1@ == seq![0u32, 2, 3, 0, 1, 2],
    {
        let indices: [u32; 6] = [0, 2, 3, 0, 1, 2];
        assert(indices@ =~= seq![0u32, 2, 3, 0, 1, 2]);
        (self.into_individual_verts(), indices)
    }

    /// Two triangles, top-left / bottom-right / bottom-left and
    /// top-left / top-right / bottom-right.
    pub fn into_verts(self) -> (r: [Vertex; 6])
        ensures
            r@ == seq![
                corner(self, false, false), corner(self, true, true), corner(self, false, true),
                corner(self, false, false), corner(self, true, false), corner(self, true, true),
            ],
    {
        let v = self.into_individual_verts();
        let r = [v[0], v[2], v[3], v[0], v[1], v[2]];
        assert(r@ =~= seq![
            corner(self, false, false), corner(self, true, true), corner(self, false, true),
            corner(self, false, false), corner(self, true, false), corner(self, true, true),
        ]);
        r
    }
}

} // verus!
