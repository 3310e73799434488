use vstd::prelude::*;

use crate::decimal::{all_decimal, is_decimal, is_decimal_number};
use crate::text::{fields, fields_spec, lemma_split_len, split_on, split_spec};

verus! {

/// The word that closes a solid: `endsolid`.
pub open spec fn end_marker() -> Seq<u8> {
    seq![101u8, 110u8, 100u8, 115u8, 111u8, 108u8, 105u8, 100u8]
}

/// Whether `w` is the word that closes a solid.
pub fn is_end_marker(w: &[u8]) -> (r: bool)
    ensures
        r == (w@ == end_marker()),
{
    let marker: [u8; 8] = [101, 110, 100, 115, 111, 108, 105, 100];
    proof {
        assert(marker@ =~= end_marker());
    }
    if w.len() != 8 {
        return false;
    }
    let mut i: usize = 0;
    while i < 8
        invariant
            i <= 8,
            w@.len() == 8,
            marker@ == end_marker(),
            forall|j: int| 0 <= j < i ==> w@[j] == marker@[j],
        decreases 8 - i,
    {
        if w[i] != marker[i] {
            proof {
                assert(w@[i as int] != end_marker()[i as int]);
            }
            return false;
        }
        i = i + 1;
    }
    proof {
        assert(w@ =~= marker@);
    }
    true
}

/// Whether fields `from` up to `to` of `row` are all decimal numbers.
fn fields_decimal(row: &Vec<Vec<u8>>, from: usize, to: usize) -> (r: bool)
    requires
        from <= to <= row@.len(),
    ensures
        r == all_decimal(row@.map_values(|v: Vec<u8>| v@).subrange(from as int, to as int)),
{
    let ghost want = row@.map_values(|v: Vec<u8>| v@).subrange(from as int, to as int);
    let mut i: usize = from;
    while i < to
        invariant
            from <= i <= to <= row@.len(),
            want == row@.map_values(|v: Vec<u8>| v@).subrange(from as int, to as int),
            forall|j: int| 0 <= j < i - from ==> is_decimal(#[trigger] want[j]),
        decreases to - i,
    {
        if !is_decimal_number(row[i].as_slice()) {
            proof {
                assert(want[i - from] == row@[i as int]@);
            }
            return false;
        }
        proof {
            assert(want[i - from] == row@[i as int]@);
        }
        i = i + 1;
    }
    true
}

/// Why a text is not a solid in the ASCII format. Line numbers count from one.
#[derive(Clone, Copy, Debug, PartialEq, Eq)]
pub enum StlError {
    /// The text ends before the line that closes the solid.
    MissingEnd,
    /// The line that opens a facet does not hold exactly five fields
    /// (`facet normal x y z`).
    BadNormalLine { line: usize },
    /// A corner line does not hold exactly four fields (`vertex x y z`).
    BadVertexLine { line: usize },
    /// A coordinate on the line is not a decimal number.
    BadNumber { line: usize },
}

/// The numeric fields of one facet, as text: the normal's three coordinates,
/// then the three coordinates of each corner in turn; twelve fields in all.
pub struct FacetFields {
    pub fields: Vec<Vec<u8>>,
}

impl View for FacetFields {
    type V = Seq<Seq<u8>>;

    open spec fn view(&self) -> Seq<Seq<u8>> {
        self.fields@.map_values(|v: Vec<u8>| v@)
    }
}

pub open spec fn facets_view(fs: Seq<FacetFields>) -> Seq<Seq<Seq<u8>>> {
    fs.map_values(|f: FacetFields| f@)
}

/// The lines of a text: the pieces between line feeds, but for an empty
/// piece after the last line feed.
pub open spec fn line_pieces(text: Seq<u8>) -> Seq<Seq<u8>> {
    let p = split_spec(text, 10);
    if p.len() > 0 && p.last().len() == 0 {
        p.drop_last()
    } else {
        p
    }
}

/// The text split into lines, each line split into its fields.
pub open spec fn text_lines(text: Seq<u8>) -> Seq<Seq<Seq<u8>>> {
    line_pieces(text).map_values(|l: Seq<u8>| fields_spec(l))
}

/// The fields of line `k`; a line past the end of the text reads as empty.
pub open spec fn line_at(ls: Seq<Seq<Seq<u8>>>, k: int) -> Seq<Seq<u8>> {
    if 0 <= k < ls.len() {
        ls[k]
    } else {
        seq![Seq::<u8>::empty()]
    }
}

/// The twelve numeric fields of the facet whose opening line is `k`.
pub open spec fn facet_spec(ls: Seq<Seq<Seq<u8>>>, k: int) -> Seq<Seq<u8>> {
    line_at(ls, k).subrange(2, 5) + line_at(ls, k + 2).subrange(1, 4) + line_at(
        ls,
        k + 3,
    ).subrange(1, 4) + line_at(ls, k + 4).subrange(1, 4)
}

/// The fields of the facet whose opening line is `k`, up to and without
/// corner line `k + c`.
pub open spec fn facet_prefix(ls: Seq<Seq<Seq<u8>>>, k: int, c: int) -> Seq<Seq<u8>>
    decreases c,
{
    if c <= 2 {
        line_at(ls, k).subrange(2, 5)
    } else {
        facet_prefix(ls, k, c - 1) + line_at(ls, k + c - 1).subrange(1, 4)
    }
}

pub open spec fn prepend_facets(
    acc: Seq<Seq<Seq<u8>>>,
    r: Result<Seq<Seq<Seq<u8>>>, StlError>,
) -> Result<Seq<Seq<Seq<u8>>>, StlError> {
    match r {
        Ok(rest) => Ok(acc + rest),
        Err(e) => Err(e),
    }
}

/// The facets from line `k` on. A facet takes seven lines: its opening line,
/// `outer loop`, three corner lines, `endloop` and `endfacet`; only the
/// opening line and the corner lines are read. A line whose first field is
/// `endsolid` in the place of an opening line ends the solid.
pub open spec fn facets_from(ls: Seq<Seq<Seq<u8>>>, k: int) -> Result<
    Seq<Seq<Seq<u8>>>,
    StlError,
>
    decreases ls.len() + 7 - k,
{
    if k < 0 || k >= ls.len() {
        Err(StlError::MissingEnd)
    } else if ls[k].len() > 0 && ls[k][0] == end_marker() {
        Ok(Seq::empty())
    } else if ls[k].len() != 5 {
        Err(StlError::BadNormalLine { line: (k + 1) as usize })
    } else if line_at(ls, k + 2).len() != 4 {
        Err(StlError::BadVertexLine { line: (k + 3) as usize })
    } else if line_at(ls, k + 3).len() != 4 {
        Err(StlError::BadVertexLine { line: (k + 4) as usize })
    } else if line_at(ls, k + 4).len() != 4 {
        Err(StlError::BadVertexLine { line: (k + 5) as usize })
    } else if !all_decimal(ls[k].subrange(2, 5)) {
        Err(StlError::BadNumber { line: (k + 1) as usize })
    } else if !all_decimal(line_at(ls, k + 2).subrange(1, 4)) {
        Err(StlError::BadNumber { line: (k + 3) as usize })
    } else if !all_decimal(line_at(ls, k + 3).subrange(1, 4)) {
        Err(StlError::BadNumber { line: (k + 4) as usize })
    } else if !all_decimal(line_at(ls, k + 4).subrange(1, 4)) {
        Err(StlError::BadNumber { line: (k + 5) as usize })
    } else {
        prepend_facets(seq![facet_spec(ls, k)], facets_from(ls, k + 7))
    }
}

/// The facets of a solid in the ASCII format: a first line that names the
/// solid, then the facets.
pub open spec fn parse_stl_spec(text: Seq<u8>) -> Result<Seq<Seq<Seq<u8>>>, StlError> {
    facets_from(text_lines(text), 1)
}

/// Each facet has twelve fields, each a decimal number.
pub open spec fn facets_decimal(fs: Seq<Seq<Seq<u8>>>) -> bool {
    forall|i: int| 0 <= i < fs.len() ==> (#[trigger] fs[i]).len() == 12 && all_decimal(fs[i])
}

/// Every facet that the reading hands out has twelve fields, each a decimal
/// number.
pub proof fn lemma_facets_decimal(ls: Seq<Seq<Seq<u8>>>, k: int)
    ensures
        facets_from(ls, k) matches Ok(fs) ==> facets_decimal(fs),
    decreases ls.len() + 7 - k,
{
    if 0 <= k < ls.len() && !(ls[k].len() > 0 && ls[k][0] == end_marker()) {
        lemma_facets_decimal(ls, k + 7);
        if let Ok(fs) = facets_from(ls, k) {
            let f = facet_spec(ls, k);
            let a = line_at(ls, k).subrange(2, 5);
            let b = line_at(ls, k + 2).subrange(1, 4);
            let c = line_at(ls, k + 3).subrange(1, 4);
            let d = line_at(ls, k + 4).subrange(1, 4);
            assert forall|j: int| 0 <= j < f.len() implies is_decimal(#[trigger] f[j]) by {
                if j < 3 {
                    assert(f[j] == a[j]);
                } else if j < 6 {
                    assert(f[j] == b[j - 3]);
                } else if j < 9 {
                    assert(f[j] == c[j - 6]);
                } else {
                    assert(f[j] == d[j - 9]);
                }
            }
            assert forall|i: int| 0 <= i < fs.len() implies (#[trigger] fs[i]).len() == 12
                && all_decimal(fs[i]) by {
                if let Ok(rest) = facets_from(ls, k + 7) {
                    assert(fs == seq![f] + rest);
                    if i > 0 {
                        assert(fs[i] == rest[i - 1]);
                    }
                }
            }
        }
    }
}

fn line_field_count(ls: &Vec<Vec<Vec<u8>>>, k: usize) -> (r: usize)
    ensures
        r == line_at(ls@.map_values(|l: Vec<Vec<u8>>| l@.map_values(|v: Vec<u8>| v@)), k as int).len(),
{
    if k < ls.len() {
        ls[k].len()
    } else {
        1
    }
}

/// Reads the facets of a solid in the ASCII format, handing out the numeric
/// fields of each as text; each of them is a decimal number.
pub fn parse_stl(text: &[u8]) -> (r: Result<Vec<FacetFields>, StlError>)
    requires
        text@.len() + 8 <= usize::MAX,
    ensures
        match r {
            Ok(fs) => parse_stl_spec(text@) == Ok::<Seq<Seq<Seq<u8>>>, StlError>(facets_view(fs@)),
            Err(e) => parse_stl_spec(text@) == Err::<Seq<Seq<Seq<u8>>>, StlError>(e),
        },
        r matches Ok(fs) ==> forall|i: int|
            0 <= i < fs@.len() ==> (#[trigger] fs@[i])@.len() == 12 && all_decimal(fs@[i]@),
{
    let mut raw = split_on(text, 10);
    if raw.len() > 0 && raw[raw.len() - 1].len() == 0 {
        raw.pop();
        proof {
            assert(raw@.map_values(|v: Vec<u8>| v@) =~= split_spec(text@, 10).drop_last());
        }
    }
    let ghost lines = text_lines(text@);
    proof {
        lemma_split_len(text@, 10);
    }
    let mut ls: Vec<Vec<Vec<u8>>> = Vec::new();
    let mut i: usize = 0;
    while i < raw.len()
        invariant
            i <= raw@.len(),
            raw@.map_values(|v: Vec<u8>| v@) == line_pieces(text@),
            lines == text_lines(text@),
            ls@.len() == i,
            forall|j: int| 0 <= j < i ==> (#[trigger] ls@[j])@.map_values(|v: Vec<u8>| v@) == lines[j],
        decreases raw@.len() - i,
    {
        let f = fields(raw[i].as_slice());
        ls.push(f);
        proof {
            assert(raw@[i as int]@ == line_pieces(text@)[i as int]);
        }
        i = i + 1;
    }
    let ghost lsv = ls@.map_values(|l: Vec<Vec<u8>>| l@.map_values(|v: Vec<u8>| v@));
    proof {
        assert(lsv =~= lines);
    }
    let mut acc: Vec<FacetFields> = Vec::new();
    let mut k: usize = 1;
    proof {
        assert(facets_view(acc@) =~= Seq::empty());
        assert(prepend_facets(Seq::empty(), facets_from(lines, 1)) =~= facets_from(lines, 1)) by {
            match facets_from(lines, 1) {
                Ok(rest) => {
                    assert(Seq::<Seq<Seq<u8>>>::empty() + rest =~= rest);
                },
                Err(e) => {},
            }
        }
    }
    loop
        invariant
            1 <= k < ls@.len() + 7,
            text@.len() + 8 <= usize::MAX,
            ls@.len() <= text@.len() + 1,
            lsv == lines,
            lsv == ls@.map_values(|l: Vec<Vec<u8>>| l@.map_values(|v: Vec<u8>| v@)),
            parse_stl_spec(text@) == prepend_facets(facets_view(acc@), facets_from(lines, k as int)),
        decreases ls@.len() + 7 - k,
    {
        if k >= ls.len() {
            return Err(StlError::MissingEnd);
        }
        let head = &ls[k];
        proof {
            assert(lines[k as int] == head@.map_values(|v: Vec<u8>| v@));
        }
        if head.len() > 0 && is_end_marker(head[0].as_slice()) {
            proof {
                assert(facets_view(acc@) + Seq::empty() =~= facets_view(acc@));
                assert(parse_stl_spec(text@) == Ok::<Seq<Seq<Seq<u8>>>, StlError>(
                    facets_view(acc@),
                ));
                lemma_facets_decimal(text_lines(text@), 1);
                assert(facets_decimal(facets_view(acc@)));
                assert forall|i: int| 0 <= i < acc@.len() implies (#[trigger] acc@[i])@.len() == 12
                    && all_decimal(acc@[i]@) by {
                    assert(facets_view(acc@)[i] == acc@[i]@);
                }
            }
            return Ok(acc);
        }
        if head.len() != 5 {
            return Err(StlError::BadNormalLine { line: k + 1 });
        }
        if line_field_count(&ls, k + 2) != 4 {
            return Err(StlError::BadVertexLine { line: k + 3 });
        }
        if line_field_count(&ls, k + 3) != 4 {
            return Err(StlError::BadVertexLine { line: k + 4 });
        }
        if line_field_count(&ls, k + 4) != 4 {
            return Err(StlError::BadVertexLine { line: k + 5 });
        }
        proof {
            assert(k + 4 < ls@.len());
            assert(lines[k as int + 2] == ls@[k as int + 2]@.map_values(|v: Vec<u8>| v@));
            assert(lines[k as int + 3] == ls@[k as int + 3]@.map_values(|v: Vec<u8>| v@));
            assert(lines[k as int + 4] == ls@[k as int + 4]@.map_values(|v: Vec<u8>| v@));
        }
        if !fields_decimal(head, 2, 5) {
            return Err(StlError::BadNumber { line: k + 1 });
        }
        if !fields_decimal(&ls[k + 2], 1, 4) {
            return Err(StlError::BadNumber { line: k + 3 });
        }
        if !fields_decimal(&ls[k + 3], 1, 4) {
            return Err(StlError::BadNumber { line: k + 4 });
        }
        if !fields_decimal(&ls[k + 4], 1, 4) {
            return Err(StlError::BadNumber { line: k + 5 });
        }
        let mut fs: Vec<Vec<u8>> = Vec::new();
        let mut j: usize = 2;
        while j < 5
            invariant
                2 <= j <= 5,
                head@.len() == 5,
                k < lines.len(),
                fs@.map_values(|v: Vec<u8>| v@) == lines[k as int].subrange(2, j as int),
                lines[k as int] == head@.map_values(|v: Vec<u8>| v@),
            decreases 5 - j,
        {
            proof {
                assert(lines[k as int][j as int] == head@[j as int]@);
            }
            let ghost before = fs@.map_values(|v: Vec<u8>| v@);
            let v = vstd::slice::slice_to_vec(head[j].as_slice());
            fs.push(v);
            proof {
                assert(fs@.map_values(|v: Vec<u8>| v@) =~= before.push(v@));
            }
            j = j + 1;
            proof {
                assert(fs@.map_values(|v: Vec<u8>| v@) =~= lines[k as int].subrange(2, j as int));
            }
        }
        proof {
            assert(fs@.map_values(|v: Vec<u8>| v@) =~= facet_prefix(lines, k as int, 2));
        }
        let mut c: usize = 2;
        while c < 5
            invariant
                2 <= c <= 5,
                k < ls@.len(),
                lines[k as int].len() == 5,
                ls@.len() <= text@.len() + 1,
                text@.len() + 8 <= usize::MAX,
                lines.len() == ls@.len(),
                lsv == lines,
                lsv == ls@.map_values(|l: Vec<Vec<u8>>| l@.map_values(|v: Vec<u8>| v@)),
                line_at(lines, k + 2).len() == 4,
                line_at(lines, k + 3).len() == 4,
                line_at(lines, k + 4).len() == 4,
                fs@.map_values(|v: Vec<u8>| v@) == facet_prefix(lines, k as int, c as int),
            decreases 5 - c,
        {
            let ghost before = fs@.map_values(|v: Vec<u8>| v@);
            let ghost corner = line_at(lines, k + c);
            proof {
                if c == 2 {
                    assert(corner.len() == 4);
                } else if c == 3 {
                    assert(corner.len() == 4);
                } else {
                    assert(corner.len() == 4);
                }
            }
            if k + c < ls.len() {
                let row = &ls[k + c];
                proof {
                    assert(corner == row@.map_values(|v: Vec<u8>| v@));
                }
                let mut t: usize = 1;
                while t < 4
                    invariant
                        1 <= t <= 4,
                        row@.len() == 4,
                        corner == row@.map_values(|v: Vec<u8>| v@),
                        fs@.map_values(|v: Vec<u8>| v@) == before + corner.subrange(1, t as int),
                    decreases 4 - t,
                {
                    proof {
                        assert(corner[t as int] == row@[t as int]@);
                    }
                    let ghost mid = fs@.map_values(|v: Vec<u8>| v@);
                    let v = vstd::slice::slice_to_vec(row[t].as_slice());
                    fs.push(v);
                    proof {
                        assert(fs@.map_values(|v: Vec<u8>| v@) =~= mid.push(v@));
                    }
                    t = t + 1;
                    proof {
                        assert(fs@.map_values(|v: Vec<u8>| v@) =~= before + corner.subrange(
                            1,
                            t as int,
                        ));
                    }
                }
            }
            proof {
                assert(k + c < ls@.len());
            }
            c = c + 1;
            proof {
                assert(fs@.map_values(|v: Vec<u8>| v@) =~= facet_prefix(lines, k as int, c as int));
            }
        }
        let ghost facet = fs@.map_values(|v: Vec<u8>| v@);
        let ghost prev = facets_view(acc@);
        acc.push(FacetFields { fields: fs });
        proof {
            reveal_with_fuel(facet_prefix, 4);
            assert(facet_prefix(lines, k as int, 5) =~= facet_spec(lines, k as int));
            assert(facets_view(acc@) =~= prev.push(facet));
            match facets_from(lines, k + 7) {
                Ok(rest) => {
                    assert(prev + (seq![facet] + rest) =~= prev.push(facet) + rest);
                },
                Err(e) => {},
            }
        }
        k = k + 7;
    }
}

} // verus!
