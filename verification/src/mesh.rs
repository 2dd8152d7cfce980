//! The integer side of triangle meshes: index lists, their merging, their
//! grouping into triangles and their OBJ face lines, and the index list of
//! the unit cylinder.

use vstd::prelude::*;
use crate::decimal::{decimal, push_decimal};

verus! {

/// Points around each ring of the unit cylinder.
pub const UNIT_CYLINDER_RESOLUTION: u32 = 36;

/// Vertices of the unit cylinder: two rings of 37 points (the seam point is
/// repeated) followed by the 36 points of the top cap and of the bottom cap.
pub const UNIT_CYLINDER_VERTEX_COUNT: u32 = 146;

/// Indices of the unit cylinder: 72 barrel triangles and 34 triangles per cap.
pub const UNIT_CYLINDER_INDEX_COUNT: usize = 420;

/// The `k`-th index of the unit cylinder's triangle list.
///
/// The barrel joins ring 0 (vertices 0..37) to ring 1 (37..74) with two
/// triangles per step; the top cap fans from vertex 74 over 74..110 and the
/// bottom cap fans from vertex 110 over 110..146 with the opposite winding.
pub open spec fn unit_cylinder_index(k: int) -> int {
    if k < 216 {
        let j = k / 6;
        let p = k % 6;
        if p == 0 {
            j + 1
        } else if p == 1 {
            37 + j
        } else if p == 2 {
            j
        } else if p == 3 {
            j + 1
        } else if p == 4 {
            38 + j
        } else {
            37 + j
        }
    } else if k < 318 {
        let i = (k - 216) / 3 + 1;
        let p = (k - 216) % 3;
        if p == 0 {
            74
        } else if p == 1 {
            74 + i
        } else {
            75 + i
        }
    } else {
        let i = (k - 318) / 3 + 1;
        let p = (k - 318) % 3;
        if p == 0 {
            110
        } else if p == 1 {
            111 + i
        } else {
            110 + i
        }
    }
}

/// Every index of the unit cylinder names one of its vertices.
pub proof fn lemma_unit_cylinder_indices_in_range()
    ensures
        forall|k: int| 0 <= k < UNIT_CYLINDER_INDEX_COUNT ==> 0 <= #[trigger] unit_cylinder_index(k)
            < UNIT_CYLINDER_VERTEX_COUNT,
{
    assert forall|k: int| 0 <= k < UNIT_CYLINDER_INDEX_COUNT implies 0 <= #[trigger] unit_cylinder_index(
        k,
    ) < UNIT_CYLINDER_VERTEX_COUNT by {
        if k < 216 {
            assert(k / 6 < 36);
        } else if k < 318 {
            assert((k - 216) / 3 < 34);
        } else {
            assert((k - 318) / 3 < 34);
        }
    }
}

/// The triangle list of the unit cylinder (radius 0.5, height 1).
pub fn unit_cylinder_indices() -> (v: Vec<u32>)
    ensures
        v@.len() == UNIT_CYLINDER_INDEX_COUNT,
        forall|k: int| 0 <= k < v@.len() ==> v@[k] as int == unit_cylinder_index(k),
        forall|k: int| 0 <= k < v@.len() ==> v@[k] < UNIT_CYLINDER_VERTEX_COUNT,
{
    let mut v: Vec<u32> = Vec::with_capacity(UNIT_CYLINDER_INDEX_COUNT);
    let ring: u32 = 0;
    let next_ring: u32 = UNIT_CYLINDER_RESOLUTION + 1;
    let mut j: u32 = 0;
    while j < UNIT_CYLINDER_RESOLUTION
        invariant
            j <= UNIT_CYLINDER_RESOLUTION,
            ring == 0,
            next_ring == 37,
            v@.len() == 6 * j,
            forall|k: int| 0 <= k < v@.len() ==> v@[k] as int == unit_cylinder_index(k),
        decreases UNIT_CYLINDER_RESOLUTION - j,
    {
        v.push(ring + j + 1);
        v.push(next_ring + j);
        v.push(ring + j);
        v.push(ring + j + 1);
        v.push(next_ring + j + 1);
        v.push(next_ring + j);
        j = j + 1;
    }
    build_cap(&mut v, true);
    build_cap(&mut v, false);
    proof {
        lemma_unit_cylinder_indices_in_range();
        assert forall|k: int| 0 <= k < v@.len() implies v@[k] < UNIT_CYLINDER_VERTEX_COUNT by {
            assert(v@[k] as int == unit_cylinder_index(k));
        }
    }
    v
}

/// Appends the fan of one cap: the top cap starts at vertex 74 and runs
/// counter-clockwise seen from above, the bottom cap starts at vertex 110 and
/// runs the other way.
fn build_cap(v: &mut Vec<u32>, top: bool)
    requires
        top ==> old(v)@.len() == 216,
        !top ==> old(v)@.len() == 318,
        forall|k: int| 0 <= k < old(v)@.len() ==> old(v)@[k] as int == unit_cylinder_index(k),
    ensures
        final(v)@.len() == old(v)@.len() + 102,
        forall|k: int| 0 <= k < final(v)@.len() ==> final(v)@[k] as int == unit_cylinder_index(k),
{
    let offset: u32 = if top {
        74
    } else {
        110
    };
    let (first, second): (u32, u32) = if top {
        (1, 0)
    } else {
        (0, 1)
    };
    let start: usize = v.len();
    let mut i: u32 = 1;
    while i < UNIT_CYLINDER_RESOLUTION - 1
        invariant
            1 <= i <= UNIT_CYLINDER_RESOLUTION - 1,
            start == 216 || start == 318,
            top ==> start == 216 && offset == 74 && first == 1 && second == 0,
            !top ==> start == 318 && offset == 110 && first == 0 && second == 1,
            v@.len() == start + 3 * (i - 1),
            forall|k: int| 0 <= k < v@.len() ==> v@[k] as int == unit_cylinder_index(k),
        decreases UNIT_CYLINDER_RESOLUTION - 1 - i,
    {
        v.push(offset);
        v.push(offset + i + second);
        v.push(offset + i + first);
        i = i + 1;
    }
}

/// The indices of `other` shifted past `offset` existing vertices.
pub open spec fn shifted(other: Seq<u32>, offset: u32) -> Seq<u32> {
    Seq::new(other.len(), |k: int| (other[k] + offset) as u32)
}

/// Appends the indices of a second mesh whose vertices follow the
/// `vertex_count` vertices of the first (the count taken as `u32`).
pub fn merge_indices(indices: &mut Vec<u32>, vertex_count: usize, other: &Vec<u32>)
    requires
        forall|k: int| 0 <= k < other@.len() ==> other@[k] + (vertex_count as u32) <= u32::MAX,
    ensures
        final(indices)@ == old(indices)@ + shifted(other@, vertex_count as u32),
{
    let offset: u32 = vertex_count as u32;
    let n = other.len();
    let ghost start = indices@;
    let mut k: usize = 0;
    while k < n
        invariant
            n == other@.len(),
            k <= n,
            offset == vertex_count as u32,
            forall|j: int| 0 <= j < other@.len() ==> other@[j] + offset <= u32::MAX,
            indices@ == start + shifted(other@, offset).take(k as int),
        decreases n - k,
    {
        indices.push(other[k] + offset);
        k = k + 1;
        assert(indices@ =~= start + shifted(other@, offset).take(k as int));
    }
    assert(shifted(other@, offset).take(n as int) =~= shifted(other@, offset));
}

/// Merging keeps a mesh valid: when every index of each part names one of
/// its own vertices, every merged index names one of the merged vertices.
pub proof fn lemma_merge_keeps_indices_valid(
    own: Seq<u32>,
    own_vertices: nat,
    other: Seq<u32>,
    other_vertices: nat,
)
    requires
        own_vertices + other_vertices <= u32::MAX,
        forall|k: int| 0 <= k < own.len() ==> own[k] < own_vertices,
        forall|k: int| 0 <= k < other.len() ==> other[k] < other_vertices,
    ensures
        forall|k: int| 0 <= k < own.len() + other.len() ==> #[trigger] (own + shifted(
            other,
            own_vertices as u32,
        ))[k] < own_vertices + other_vertices,
{
    assert forall|k: int| 0 <= k < own.len() + other.len() implies #[trigger] (own + shifted(
        other,
        own_vertices as u32,
    ))[k] < own_vertices + other_vertices by {
        if k >= own.len() {
            assert(other[k - own.len()] + own_vertices < own_vertices + other_vertices);
        }
    }
}

/// The triangles of an index list: consecutive triples, in order.
pub open spec fn triangles_of(s: Seq<u32>) -> Seq<(u32, u32, u32)> {
    Seq::new(s.len() / 3, |t: int| (s[3 * t], s[3 * t + 1], s[3 * t + 2]))
}

/// Groups an index list into triangles; a list with fewer than three
/// indices has no triangle mesh.
pub fn triangles(indices: &Vec<u32>) -> (r: Option<Vec<(u32, u32, u32)>>)
    requires
        indices@.len() < 3 || indices@.len() % 3 == 0,
    ensures
        indices@.len() < 3 ==> r is None,
        indices@.len() >= 3 ==> (r matches Some(v) && v@ == triangles_of(indices@)),
{
    let n = indices.len();
    if n < 3 {
        return None;
    }
    let mut out: Vec<(u32, u32, u32)> = Vec::new();
    let mut t: usize = 0;
    while t < n / 3
        invariant
            n == indices@.len(),
            n % 3 == 0,
            t <= n / 3,
            out@ == triangles_of(indices@).take(t as int),
        decreases n / 3 - t,
    {
        out.push((indices[3 * t], indices[3 * t + 1], indices[3 * t + 2]));
        t = t + 1;
        assert(out@ =~= triangles_of(indices@).take(t as int));
    }
    assert(triangles_of(indices@).take((n / 3) as int) =~= triangles_of(indices@));
    Some(out)
}

/// One OBJ face line for a triangle; OBJ counts vertices from one.
pub open spec fn face_line(a: u32, b: u32, c: u32) -> Seq<char> {
    "f "@ + decimal(a as nat + 1) + " "@ + decimal(b as nat + 1) + " "@ + decimal(c as nat + 1) + "\n"@
}

/// The OBJ face lines of an index list, triangle by triangle; with `reverse`
/// every triangle is written in the opposite winding.
pub open spec fn obj_faces(s: Seq<u32>, reverse: bool) -> Seq<char>
    decreases s.len(),
{
    if s.len() < 3 {
        Seq::empty()
    } else {
        let n = s.len() as int;
        obj_faces(s.take(n - 3), reverse) + if reverse {
            face_line(s[n - 1], s[n - 2], s[n - 3])
        } else {
            face_line(s[n - 3], s[n - 2], s[n - 1])
        }
    }
}

/// The face lines of an OBJ export.
pub fn obj_face_lines(indices: &Vec<u32>, reverse: bool) -> (r: String)
    requires
        indices@.len() % 3 == 0,
        forall|k: int| 0 <= k < indices@.len() ==> indices@[k] < u32::MAX,
    ensures
        r@ == obj_faces(indices@, reverse),
{
    let n = indices.len();
    let mut out = String::new();
    let mut t: usize = 0;
    while t < n / 3
        invariant
            n == indices@.len(),
            n % 3 == 0,
            t <= n / 3,
            forall|k: int| 0 <= k < indices@.len() ==> indices@[k] < u32::MAX,
            out@ == obj_faces(indices@.take(3 * t), reverse),
        decreases n / 3 - t,
    {
        let a = indices[3 * t];
        let b = indices[3 * t + 1];
        let c = indices[3 * t + 2];
        let (x, y, z) = if reverse {
            (c, b, a)
        } else {
            (a, b, c)
        };
        out.append("f ");
        push_decimal(&mut out, (x + 1) as u64);
        out.append(" ");
        push_decimal(&mut out, (y + 1) as u64);
        out.append(" ");
        push_decimal(&mut out, (z + 1) as u64);
        out.append("\n");
        proof {
            let s = indices@.take(3 * t + 3);
            assert(s.take(3 * t) =~= indices@.take(3 * t));
            assert(s[3 * t] == a && s[3 * t + 1] == b && s[3 * t + 2] == c);
        }
        t = t + 1;
        assert(out@ =~= obj_faces(indices@.take(3 * t), reverse));
    }
    assert(indices@.take(n as int) =~= indices@);
    out
}

} // verus!
