//! The integer and text side of the 3D surface export: the triangulation of a
//! grid, the export formats, and the cleaning of axis unit labels.

use vstd::prelude::*;
use crate::error::PhysureError;
use crate::text::{
    chars_eq_str, chars_of, extend_str, replace_all, replace_spec, string_from_chars, to_lowercase,
    trim, trim_spec, unicode_lower,
};

verus! {

/// The index of grid node `(r, c)` in row-major order.
pub open spec fn node(cols: int, r: int, c: int) -> int {
    r * cols + c
}

/// The two triangles of grid cell `(r, c)`: `(r,c) (r+1,c) (r,c+1)` and
/// `(r+1,c) (r+1,c+1) (r,c+1)`.
pub open spec fn cell_faces(cols: int, r: int, c: int) -> (Seq<int>, Seq<int>) {
    (
        seq![node(cols, r, c), node(cols, r + 1, c), node(cols, r, c + 1)],
        seq![node(cols, r + 1, c), node(cols, r + 1, c + 1), node(cols, r, c + 1)],
    )
}

/// Faces `2k` and `2k + 1` of `f` are the triangles of cell `(r, c)`, where `k`
/// numbers the cells row by row.
pub open spec fn cell_ok(f: Seq<[usize; 3]>, cols: int, r: int, c: int) -> bool {
    let k = r * (cols - 1) + c;
    &&& f[2 * k]@.map_values(|x: usize| x as int) == cell_faces(cols, r, c).0
    &&& f[2 * k + 1]@.map_values(|x: usize| x as int) == cell_faces(cols, r, c).1
}

/// The face list of a `rows × cols` grid: two triangles per cell, cells in
/// row-major order; none when the grid has fewer than two rows or columns.
pub open spec fn faces_spec(rows: int, cols: int, f: Seq<[usize; 3]>) -> bool {
    if rows < 2 || cols < 2 {
        f.len() == 0
    } else {
        &&& f.len() == 2 * (rows - 1) * (cols - 1)
        &&& forall|r: int, c: int|
            0 <= r < rows - 1 && 0 <= c < cols - 1 ==> #[trigger] cell_ok(f, cols, r, c)
    }
}

proof fn lemma_node_bound(rows: int, cols: int, r: int, c: int)
    requires
        0 <= r < rows,
        0 <= c < cols,
    ensures
        0 <= node(cols, r, c) < rows * cols,
        node(cols, r, c) <= (rows - 1) * cols + (cols - 1),
{
    assert(r * cols <= (rows - 1) * cols) by (nonlinear_arith)
        requires
            0 <= r <= rows - 1,
            0 <= cols,
    ;
    assert((rows - 1) * cols + cols == rows * cols) by (nonlinear_arith);
    assert(0 <= r * cols) by (nonlinear_arith)
        requires
            0 <= r,
            0 <= cols,
    ;
}

/// Triangulates a `rows × cols` grid of nodes numbered row by row. Every index
/// in the result names a node of the grid.
pub fn grid_faces(rows: usize, cols: usize) -> (f: Vec<[usize; 3]>)
    requires
        rows * cols <= usize::MAX,
    ensures
        faces_spec(rows as int, cols as int, f@),
        forall|i: int, j: int| 0 <= i < f@.len() && 0 <= j < 3 ==> (#[trigger] f@[i]@[j]) < rows * cols,
{
    let mut faces: Vec<[usize; 3]> = Vec::new();
    if rows < 2 || cols < 2 {
        return faces;
    }
    let mut r: usize = 0;
    while r < rows - 1
        invariant
            2 <= rows,
            2 <= cols,
            rows * cols <= usize::MAX,
            r <= rows - 1,
            faces@.len() == 2 * (r * (cols - 1)),
            forall|rr: int, c: int|
                0 <= rr < r && 0 <= c < cols - 1 ==> #[trigger] cell_ok(faces@, cols as int, rr, c),
            forall|i: int, j: int|
                0 <= i < faces@.len() && 0 <= j < 3 ==> (#[trigger] faces@[i]@[j]) < rows * cols,
        decreases rows - 1 - r,
    {
        let mut c: usize = 0;
        while c < cols - 1
            invariant
                2 <= rows,
                2 <= cols,
                rows * cols <= usize::MAX,
                r < rows - 1,
                c <= cols - 1,
                faces@.len() == 2 * (r * (cols - 1) + c),
                forall|rr: int, cc: int|
                    (0 <= rr < r && 0 <= cc < cols - 1) || (rr == r && 0 <= cc < c) ==> #[trigger] cell_ok(
                        faces@,
                        cols as int,
                        rr,
                        cc,
                    ),
                forall|i: int, j: int|
                    0 <= i < faces@.len() && 0 <= j < 3 ==> (#[trigger] faces@[i]@[j]) < rows * cols,
            decreases cols - 1 - c,
        {
            proof {
                lemma_node_bound(rows as int, cols as int, r as int, c as int);
                lemma_node_bound(rows as int, cols as int, r as int, c + 1);
                lemma_node_bound(rows as int, cols as int, r + 1, c as int);
                lemma_node_bound(rows as int, cols as int, r + 1, c + 1);
                assert((r + 1) * cols == r * cols + cols) by (nonlinear_arith);
            }
            let idx00 = r * cols + c;
            let idx01 = r * cols + (c + 1);
            let idx10 = (r + 1) * cols + c;
            let idx11 = (r + 1) * cols + (c + 1);
            let ghost before = faces@;
            let t1 = [idx00, idx10, idx01];
            let t2 = [idx10, idx11, idx01];
            faces.push(t1);
            faces.push(t2);
            proof {
                let k = r * (cols - 1) + c;
                assert(2 * (r * (cols - 1) + c + 1) == 2 * k + 2);
                assert(t1@.map_values(|x: usize| x as int) =~= cell_faces(cols as int, r as int, c as int).0);
                assert(t2@.map_values(|x: usize| x as int) =~= cell_faces(cols as int, r as int, c as int).1);
                assert forall|rr: int, cc: int|
                    (0 <= rr < r && 0 <= cc < cols - 1) || (rr == r && 0 <= cc < c + 1) implies #[trigger] cell_ok(
                        faces@,
                        cols as int,
                        rr,
                        cc,
                    ) by {
                    let k2 = rr * (cols - 1) + cc;
                    if rr == r && cc == c {
                    } else {
                        if rr < r {
                            assert(rr * (cols - 1) + cc < r * (cols - 1)) by (nonlinear_arith)
                                requires
                                    0 <= rr < r,
                                    0 <= cc < cols - 1,
                            ;
                        }
                        assert(0 <= rr * (cols - 1)) by (nonlinear_arith)
                            requires
                                0 <= rr,
                                1 <= cols - 1,
                        ;
                        assert(k2 < k);
                        assert(cell_ok(before, cols as int, rr, cc));
                        assert(faces@[2 * k2] == before[2 * k2]);
                        assert(faces@[2 * k2 + 1] == before[2 * k2 + 1]);
                    }
                }
            }
            c = c + 1;
        }
        proof {
            assert(r * (cols - 1) + (cols - 1) == (r + 1) * (cols - 1)) by (nonlinear_arith);
        }
        r = r + 1;
    }
    proof {
        assert(2 * ((rows - 1) * (cols - 1)) == 2 * (rows - 1) * (cols - 1)) by (nonlinear_arith);
    }
    faces
}

/// The formats a surface can be exported to.
#[derive(Debug, Clone, Copy, PartialEq, Eq, Structural)]
pub enum ExportFormat {
    StlBinary,
    StlAscii,
    Obj,
    Gltf,
    Ply,
    Html,
}

/// The format a name selects, case-insensitively: `stl`/`stl_binary`,
/// `stl_ascii`, `obj`, `gltf`/`glb`, `ply`, `html`/`threejs`/`webgl`.
pub open spec fn format_of_spec(lowered: Seq<char>) -> Option<ExportFormat> {
    if lowered == "stl"@ || lowered == "stl_binary"@ {
        Some(ExportFormat::StlBinary)
    } else if lowered == "stl_ascii"@ {
        Some(ExportFormat::StlAscii)
    } else if lowered == "obj"@ {
        Some(ExportFormat::Obj)
    } else if lowered == "gltf"@ || lowered == "glb"@ {
        Some(ExportFormat::Gltf)
    } else if lowered == "ply"@ {
        Some(ExportFormat::Ply)
    } else if lowered == "html"@ || lowered == "threejs"@ || lowered == "webgl"@ {
        Some(ExportFormat::Html)
    } else {
        None
    }
}

/// Reads an export format's name; an unknown one is refused with a message
/// that quotes it as given.
pub fn export_format(format: &str) -> (r: Result<ExportFormat, PhysureError>)
    ensures
        r matches Ok(f) ==> format_of_spec(unicode_lower(format@)) == Some(f),
        r is Err <==> format_of_spec(unicode_lower(format@)) is None,
        r matches Err(e) ==> e matches PhysureError::Generic(m) && m@
            == "Unsupported export format: "@ + format@,
{
    let l = to_lowercase(format);
    let v = chars_of(l.as_str());
    if chars_eq_str(&v, "stl") || chars_eq_str(&v, "stl_binary") {
        Ok(ExportFormat::StlBinary)
    } else if chars_eq_str(&v, "stl_ascii") {
        Ok(ExportFormat::StlAscii)
    } else if chars_eq_str(&v, "obj") {
        Ok(ExportFormat::Obj)
    } else if chars_eq_str(&v, "gltf") || chars_eq_str(&v, "glb") {
        Ok(ExportFormat::Gltf)
    } else if chars_eq_str(&v, "ply") {
        Ok(ExportFormat::Ply)
    } else if chars_eq_str(&v, "html") || chars_eq_str(&v, "threejs") || chars_eq_str(&v, "webgl") {
        Ok(ExportFormat::Html)
    } else {
        let mut m: Vec<char> = Vec::new();
        extend_str(&mut m, "Unsupported export format: ");
        extend_str(&mut m, format);
        Err(PhysureError::Generic(string_from_chars(&m)))
    }
}

/// The trigonometric residue removed from axis unit labels, in the order it is
/// removed.
pub open spec fn label_noise() -> Seq<Seq<char>> {
    seq![
        " * sin"@, " * cos"@, " * tan"@, " * SIN"@, " * COS"@, " * TAN"@, "* sin"@, "* cos"@,
        "* tan"@, "* SIN"@, "* COS"@, "* TAN"@, "SIN"@, "COS"@, "TAN"@,
    ]
}

/// `s` with every occurrence of the first `n` noise patterns removed, one
/// pattern after the other.
pub open spec fn strip_noise(s: Seq<char>, n: nat) -> Seq<char>
    decreases n,
{
    if n == 0 {
        s
    } else {
        replace_spec(strip_noise(s, (n - 1) as nat), label_noise()[n - 1], Seq::empty())
    }
}

/// A unit label cleaned for an axis: the noise removed, trimmed, and
/// `dimensionless` when nothing is left.
pub open spec fn sanitize_spec(raw: Seq<char>) -> Seq<char> {
    let t = trim_spec(strip_noise(raw, 15));
    if t.len() == 0 {
        "dimensionless"@
    } else {
        t
    }
}

/// Cleans a unit label for an axis.
pub fn sanitize_unit_label(raw: &str) -> (r: String)
    ensures
        r@ == sanitize_spec(raw@),
{
    let mut pats: Vec<&str> = Vec::new();
    pats.push(" * sin");
    pats.push(" * cos");
    pats.push(" * tan");
    pats.push(" * SIN");
    pats.push(" * COS");
    pats.push(" * TAN");
    pats.push("* sin");
    pats.push("* cos");
    pats.push("* tan");
    pats.push("* SIN");
    pats.push("* COS");
    pats.push("* TAN");
    pats.push("SIN");
    pats.push("COS");
    pats.push("TAN");
    proof {
        reveal_strlit(" * sin");
        reveal_strlit(" * cos");
        reveal_strlit(" * tan");
        reveal_strlit(" * SIN");
        reveal_strlit(" * COS");
        reveal_strlit(" * TAN");
        reveal_strlit("* sin");
        reveal_strlit("* cos");
        reveal_strlit("* tan");
        reveal_strlit("* SIN");
        reveal_strlit("* COS");
        reveal_strlit("* TAN");
        reveal_strlit("SIN");
        reveal_strlit("COS");
        reveal_strlit("TAN");
        assert forall|k: int| 0 <= k < 15 implies #[trigger] pats@[k]@ == label_noise()[k]
            && label_noise()[k].len() > 0 by {
        }
    }
    let mut s = chars_of(raw);
    let empty: Vec<char> = Vec::new();
    let mut i: usize = 0;
    while i < 15
        invariant
            i <= 15,
            pats@.len() == 15,
            empty@.len() == 0,
            forall|k: int| 0 <= k < 15 ==> #[trigger] pats@[k]@ == label_noise()[k]
                && label_noise()[k].len() > 0,
            s@ == strip_noise(raw@, i as nat),
        decreases 15 - i,
    {
        let p = chars_of(pats[i]);
        assert(pats@[i as int]@ == label_noise()[i as int]);
        s = replace_all(&s, &p, &empty);
        assert(empty@ =~= Seq::<char>::empty());
        i = i + 1;
    }
    let t = trim(&s);
    if t.len() == 0 {
        String::from_str("dimensionless")
    } else {
        string_from_chars(&t)
    }
}


/// A cleaned label is never empty.
pub proof fn lemma_sanitized_label_not_empty(raw: Seq<char>)
    ensures
        sanitize_spec(raw).len() > 0,
{
    reveal_strlit("dimensionless");
}

} // verus!
