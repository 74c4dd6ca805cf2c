//! Pixel rows of a resource: reading and writing a rectangle of bytes.

use vstd::prelude::*;

use vstd::arithmetic::div_mod::lemma_fundamental_div_mod_converse;

verus! {

/// The bytes of a rectangle of a resource, row after row: `h` rows of `wb`
/// bytes, from byte `x0` of row `y` on.
pub open spec fn region(rows: Seq<Seq<u8>>, x0: int, y: int, wb: int, h: int) -> Seq<u8> {
    Seq::new((h * wb) as nat, |k: int| rows[y + k / wb][x0 + k % wb])
}

/// A row whose `n` bytes from `x0` on are taken from `data`, from `off` on.
pub open spec fn written_row(row: Seq<u8>, x0: int, n: int, data: Seq<u8>, off: int) -> Seq<u8> {
    Seq::new(row.len(), |c: int| if x0 <= c < x0 + n { data[off + c - x0] } else { row[c] })
}

/// Rows after a rectangle of `h` rows of `wb` bytes, from byte `x0` of row
/// `y` on, is written from `data`, whose rows start `pitch` bytes apart.
pub open spec fn written(
    rows: Seq<Seq<u8>>,
    x0: int,
    y: int,
    wb: int,
    h: int,
    data: Seq<u8>,
    pitch: int,
) -> Seq<Seq<u8>> {
    Seq::new(
        rows.len(),
        |r: int|
            if y <= r < y + h {
                written_row(rows[r], x0, wb, data, (r - y) * pitch)
            } else {
                rows[r]
            },
    )
}

/// Whether `data` holds `h` rows of `wb` bytes that start `pitch` bytes apart.
pub open spec fn holds_rows(len: int, pitch: int, wb: int, h: int) -> bool {
    pitch >= wb && (h == 0 || (h - 1) * pitch + wb <= len)
}

pub open spec fn rows_view(rows: Seq<Vec<u8>>) -> Seq<Seq<u8>> {
    rows.map_values(|row: Vec<u8>| row@)
}

/// Reads `h` rows of `wb` bytes from byte `x0` of row `y` on, packed.
pub(crate) fn read_rows(rows: &Vec<Vec<u8>>, x0: usize, y: usize, wb: usize, h: usize) -> (out: Vec<u8>)
    requires
        y + h <= rows.len(),
        h * wb <= usize::MAX,
        forall|r: int| y <= r < y + h ==> x0 + wb <= (#[trigger] rows@[r]).len(),
    ensures
        out@ == region(rows_view(rows@), x0 as int, y as int, wb as int, h as int),
{
    let mut out: Vec<u8> = Vec::new();
    let mut r: usize = 0;
    while r < h
        invariant
            r <= h,
            y + h <= rows.len(),
            h * wb <= usize::MAX,
            forall|q: int| y <= q < y + h ==> x0 + wb <= (#[trigger] rows@[q]).len(),
            out.len() == r * wb,
            forall|k: int|
                0 <= k < out.len() ==> #[trigger] out@[k] == rows@[y + k / wb as int]@[x0 + k
                    % wb as int],
        decreases h - r,
    {
        assert(r * wb + wb <= h * wb) by (nonlinear_arith)
            requires
                r < h,
        ;
        let mut c: usize = 0;
        while c < wb
            invariant
                r < h,
                c <= wb,
                y + h <= rows.len(),
                r * wb + wb <= h * wb,
                h * wb <= usize::MAX,
                forall|q: int| y <= q < y + h ==> x0 + wb <= (#[trigger] rows@[q]).len(),
                out.len() == r * wb + c,
                forall|k: int|
                    0 <= k < out.len() ==> #[trigger] out@[k] == rows@[y + k / wb as int]@[x0 + k
                        % wb as int],
            decreases wb - c,
        {
            proof {
                lemma_fundamental_div_mod_converse(
                    (r * wb + c) as int,
                    wb as int,
                    r as int,
                    c as int,
                );
            }
            out.push(rows[y + r][x0 + c]);
            c = c + 1;
        }
        assert((r + 1) * wb == r * wb + wb) by (nonlinear_arith);
        r = r + 1;
    }
    assert forall|k: int| 0 <= k < out.len() implies #[trigger] out@[k] == region(
        rows_view(rows@),
        x0 as int,
        y as int,
        wb as int,
        h as int,
    )[k] by {
        assert(k / (wb as int) < h) by (nonlinear_arith)
            requires
                0 <= k < h * wb,
                wb > 0,
        ;
        assert(0 <= k / (wb as int)) by (nonlinear_arith)
            requires
                0 <= k,
                wb > 0,
        ;
        let q = y + k / (wb as int);
        assert(rows_view(rows@)[q] == rows@[q]@);
    }
    assert(out@ =~= region(rows_view(rows@), x0 as int, y as int, wb as int, h as int));
    out
}

/// Writes `h` rows of `wb` bytes from byte `x0` of row `y` on, taking row
/// `r` from `data` at `r * pitch`.
pub(crate) fn write_rows(
    rows: &mut Vec<Vec<u8>>,
    x0: usize,
    y: usize,
    wb: usize,
    h: usize,
    data: &Vec<u8>,
    pitch: usize,
)
    requires
        y + h <= old(rows).len(),
        forall|r: int| y <= r < y + h ==> x0 + wb <= (#[trigger] old(rows)@[r]).len(),
        holds_rows(data.len() as int, pitch as int, wb as int, h as int),
        x0 + wb <= usize::MAX,
    ensures
        rows_view(final(rows)@) == written(
            rows_view(old(rows)@),
            x0 as int,
            y as int,
            wb as int,
            h as int,
            data@,
            pitch as int,
        ),
{
    let ghost start = rows_view(rows@);
    let mut r: usize = 0;
    while r < h
        invariant
            r <= h,
            y + h <= rows.len(),
            rows.len() == start.len(),
            holds_rows(data.len() as int, pitch as int, wb as int, h as int),
            x0 + wb <= usize::MAX,
            forall|q: int| y <= q < y + h ==> x0 + wb <= (#[trigger] start[q]).len(),
            forall|q: int|
                0 <= q < rows.len() ==> (#[trigger] rows@[q])@ == (if y <= q < y + r {
                    written_row(start[q], x0 as int, wb as int, data@, (q - y) * pitch)
                } else {
                    start[q]
                }),
        decreases h - r,
    {
        assert(r * pitch + wb <= data.len()) by (nonlinear_arith)
            requires
                r < h,
                holds_rows(data.len() as int, pitch as int, wb as int, h as int),
        ;
        let ghost row0 = start[y + r];
        let mut c: usize = 0;
        while c < wb
            invariant
                r < h,
                c <= wb,
                y + h <= rows.len(),
                rows.len() == start.len(),
                r * pitch + wb <= data.len(),
                row0 == start[y + r],
                x0 + wb <= row0.len(),
                x0 + wb <= usize::MAX,
                rows@[y + r as int]@ == written_row(
                    row0,
                    x0 as int,
                    c as int,
                    data@,
                    r * pitch,
                ),
                forall|q: int|
                    0 <= q < rows.len() && q != y + r ==> (#[trigger] rows@[q])@ == (if y <= q < y
                        + r {
                        written_row(start[q], x0 as int, wb as int, data@, (q - y) * pitch)
                    } else {
                        start[q]
                    }),
            decreases wb - c,
        {
            let b = data[r * pitch + c];
            rows[y + r][x0 + c] = b;
            proof {
                assert(rows@[y + r as int]@ =~= written_row(
                    row0,
                    x0 as int,
                    c + 1,
                    data@,
                    r * pitch,
                ));
            }
            c = c + 1;
        }
        r = r + 1;
    }
    assert(rows_view(rows@) =~= written(
        start,
        x0 as int,
        y as int,
        wb as int,
        h as int,
        data@,
        pitch as int,
    ));
}

/// Fresh content of a resource: every byte zero.
pub open spec fn blank(height: int, row_len: int) -> Seq<Seq<u8>> {
    Seq::new(height as nat, |r: int| Seq::new(row_len as nat, |c: int| 0u8))
}

/// Writing a rectangle from rows packed with no gap (the pitch is the
/// rectangle's row length) and reading the same rectangle back gives the
/// bytes written.
pub proof fn lemma_write_then_read(
    rows: Seq<Seq<u8>>,
    x0: int,
    y: int,
    wb: int,
    h: int,
    data: Seq<u8>,
)
    requires
        0 <= x0,
        0 <= y,
        0 <= wb,
        0 <= h,
        y + h <= rows.len(),
        forall|r: int| y <= r < y + h ==> x0 + wb <= (#[trigger] rows[r]).len(),
        data.len() == h * wb,
    ensures
        region(written(rows, x0, y, wb, h, data, wb), x0, y, wb, h) == data,
{
    let out = region(written(rows, x0, y, wb, h, data, wb), x0, y, wb, h);
    assert forall|k: int| 0 <= k < out.len() implies out[k] == data[k] by {
        let q = k / wb;
        let c = k % wb;
        assert(wb > 0) by (nonlinear_arith)
            requires
                0 <= k < h * wb,
                0 <= h,
        ;
        assert(0 <= q < h && 0 <= c < wb && k == q * wb + c) by (nonlinear_arith)
            requires
                0 <= k < h * wb,
                wb > 0,
                q == k / wb,
                c == k % wb,
        ;
    }
    assert(out =~= data);
}

} // verus!
