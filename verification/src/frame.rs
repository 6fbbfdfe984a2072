//! The tight pixel buffer of a recording and the copy of captured frames
//! into it, row by row, without their padding.

use vstd::prelude::*;

verus! {

/// The largest even number that is not above `d`.
pub open spec fn even_floor(d: int) -> int {
    d - d % 2
}

/// A dimension as the encoder takes it: one less where it is odd.
pub fn even_dimension(d: u32) -> (e: u32)
    ensures
        e == even_floor(d as int),
        e % 2 == 0,
        e <= d <= e + 1,
{
    if d % 2 != 0 {
        d - 1
    } else {
        d
    }
}

/// The row pitch of a source of `len` bytes in `height` rows, where it
/// has any rows.
pub fn row_pitch(len: usize, height: u32) -> (pitch: Option<usize>)
    ensures
        pitch == if height == 0 {
            None
        } else {
            Some((len as int / height as int) as usize)
        },
{
    if height == 0 {
        None
    } else {
        Some(len / (height as usize))
    }
}

/// The first `row` bytes of each of the first `n` rows of `src`, whose rows
/// start `pitch` bytes apart.
pub open spec fn packed_rows(src: Seq<u8>, pitch: int, row: int, n: int) -> Seq<u8>
    decreases n,
{
    if n <= 0 {
        Seq::<u8>::empty()
    } else {
        packed_rows(src, pitch, row, n - 1) + src.subrange((n - 1) * pitch, (n - 1) * pitch + row)
    }
}

/// The byte in column `c` of row `r` of `s`, whose rows start `pitch`
/// bytes apart.
pub open spec fn byte_at(s: Seq<u8>, pitch: int, r: int, c: int) -> u8 {
    s[r * pitch + c]
}

/// Whether `n` rows of `row` bytes, `pitch` bytes apart, lie within `len`
/// bytes.
pub open spec fn rows_fit(len: int, pitch: int, row: int, n: int) -> bool {
    row <= pitch && (n <= 0 || (n - 1) * pitch + row <= len)
}

/// Where the bytes of the packed rows come from.
pub proof fn lemma_packed_rows(src: Seq<u8>, pitch: int, row: int, n: int)
    requires
        0 <= row <= pitch,
        0 <= n,
        rows_fit(src.len() as int, pitch, row, n),
    ensures
        packed_rows(src, pitch, row, n).len() == n * row,
        forall|r: int, c: int|
            0 <= r < n && 0 <= c < row ==> #[trigger] byte_at(
                packed_rows(src, pitch, row, n),
                row,
                r,
                c,
            ) == byte_at(src, pitch, r, c),
    decreases n,
{
    if n > 0 {
        assert((n - 1) * pitch >= 0) by (nonlinear_arith)
            requires
                n >= 1,
                pitch >= 0,
        ;
        if n > 1 {
            assert((n - 2) * pitch + row <= (n - 1) * pitch + row) by (nonlinear_arith)
                requires
                    pitch >= 0,
            ;
        }
        lemma_packed_rows(src, pitch, row, n - 1);
        let head = packed_rows(src, pitch, row, n - 1);
        let tail = src.subrange((n - 1) * pitch, (n - 1) * pitch + row);
        assert(n * row == (n - 1) * row + row) by (nonlinear_arith);
        assert forall|r: int, c: int| 0 <= r < n && 0 <= c < row implies #[trigger] byte_at(
            packed_rows(src, pitch, row, n),
            row,
            r,
            c,
        ) == byte_at(src, pitch, r, c) by {
            if r < n - 1 {
                assert(r * row + c < (n - 1) * row) by (nonlinear_arith)
                    requires
                        0 <= r < n - 1,
                        0 <= c < row,
                ;
                assert(r * row + c >= 0) by (nonlinear_arith)
                    requires
                        0 <= r,
                        0 <= c,
                        0 <= row,
                ;
                assert(byte_at(head, row, r, c) == byte_at(src, pitch, r, c));
            } else {
                assert(r * row + c - (n - 1) * row == c) by (nonlinear_arith)
                    requires
                        r == n - 1,
                ;
                assert(tail[c] == src[(n - 1) * pitch + c]);
                assert(r * pitch == (n - 1) * pitch) by (nonlinear_arith)
                    requires
                        r == n - 1,
                ;
            }
        }
    }
}

/// Rows without padding pack to the bytes they already are.
pub proof fn lemma_tight_rows_pack_to_themselves(src: Seq<u8>, row: int, n: int)
    requires
        0 <= row,
        0 <= n,
        n * row <= src.len(),
    ensures
        packed_rows(src, row, row, n) == src.subrange(0, n * row),
    decreases n,
{
    if n > 0 {
        assert((n - 1) * row + row == n * row) by (nonlinear_arith);
        assert((n - 1) * row >= 0) by (nonlinear_arith)
            requires
                n >= 1,
                row >= 0,
        ;
        lemma_tight_rows_pack_to_themselves(src, row, n - 1);
        assert(packed_rows(src, row, row, n) =~= src.subrange(0, n * row));
    } else {
        assert(n * row == 0) by (nonlinear_arith)
            requires
                n == 0,
        ;
        assert(packed_rows(src, row, row, n) =~= src.subrange(0, n * row));
    }
}

/// Stripping padding gives back the unpadded frame: where `padded` holds
/// the rows of `tight` at a pitch of its own, both pack to the same bytes,
/// which are those of `tight`.
pub proof fn law_padding_is_stripped(
    tight: Seq<u8>,
    padded: Seq<u8>,
    pitch: int,
    row: int,
    height: int,
)
    requires
        0 <= row <= pitch,
        0 <= height,
        tight.len() == height * row,
        rows_fit(padded.len() as int, pitch, row, height),
        forall|r: int, c: int|
            0 <= r < height && 0 <= c < row ==> #[trigger] byte_at(padded, pitch, r, c) == byte_at(
                tight,
                row,
                r,
                c,
            ),
    ensures
        packed_rows(padded, pitch, row, height) == packed_rows(tight, row, row, height),
        packed_rows(tight, row, row, height) == tight,
{
    lemma_tight_rows_pack_to_themselves(tight, row, height);
    assert(tight.subrange(0, height * row) =~= tight);
    lemma_packed_rows(padded, pitch, row, height);
    let packed = packed_rows(padded, pitch, row, height);
    assert forall|i: int| 0 <= i < packed.len() implies packed[i] == tight[i] by {
        if row > 0 {
            let r = i / row;
            let c = i % row;
            crate::fixed::lemma_quotient_bounds(i, row);
            assert(row * r == r * row) by (nonlinear_arith);
            if r >= height {
                assert(r * row >= height * row) by (nonlinear_arith)
                    requires
                        r >= height,
                        row >= 0,
                ;
            }
            assert(byte_at(packed, row, r, c) == byte_at(padded, pitch, r, c));
            assert(byte_at(padded, pitch, r, c) == byte_at(tight, row, r, c));
        } else {
            assert(height * row == 0) by (nonlinear_arith)
                requires
                    row == 0,
            ;
        }
    }
    assert(packed =~= tight);
}

/// Why a captured frame was not taken into the buffer.
#[derive(Clone, Copy, Debug, PartialEq, Eq, Structural)]
pub enum FrameError {
    /// The source's rows are shorter than the buffer's.
    PitchTooSmall,
    /// The source ends before the buffer's last row does.
    SourceTooShort,
}

/// A frame of four-byte pixels without padding between its rows.
pub struct FrameBuffer {
    width: u32,
    height: u32,
    data: Vec<u8>,
}

impl View for FrameBuffer {
    type V = Seq<u8>;

    closed spec fn view(&self) -> Seq<u8> {
        self.data@
    }
}

impl FrameBuffer {
    /// The width in pixels.
    pub closed spec fn width_spec(&self) -> int {
        self.width as int
    }

    /// The height in pixels.
    pub closed spec fn height_spec(&self) -> int {
        self.height as int
    }

    /// The bytes of one row.
    pub open spec fn row_bytes(&self) -> int {
        self.width_spec() * 4
    }

    /// Well-formedness: the buffer holds exactly four bytes for each pixel.
    pub open spec fn wf(&self) -> bool {
        self@.len() == self.width_spec() * self.height_spec() * 4
    }

    /// The width in pixels.
    pub fn width(&self) -> (w: u32)
        ensures
            w == self.width_spec(),
    {
        self.width
    }

    /// The height in pixels.
    pub fn height(&self) -> (h: u32)
        ensures
            h == self.height_spec(),
    {
        self.height
    }

    /// The pixel bytes.
    pub fn bytes(&self) -> (b: &[u8])
        ensures
            b@ == self@,
    {
        self.data.as_slice()
    }

    /// A black buffer of the given size, or nothing where its byte length
    /// does not fit the machine.
    pub fn new(width: u32, height: u32) -> (made: Option<FrameBuffer>)
        ensures
            made.is_some() == (width * height * 4 <= usize::MAX),
            match made {
                Some(buffer) => {
                    &&& buffer.wf()
                    &&& buffer.width_spec() == width
                    &&& buffer.height_spec() == height
                    &&& forall|i: int| 0 <= i < buffer@.len() ==> buffer@[i] == 0
                },
                None => true,
            },
    {
        proof {
            assert(width * height <= 0xffff_ffff * 0xffff_ffff) by (nonlinear_arith)
                requires
                    0 <= width <= 0xffff_ffff,
                    0 <= height <= 0xffff_ffff,
            ;
        }
        let pixels: u64 = (width as u64) * (height as u64);
        let bytes: u128 = (pixels as u128) * 4;
        if bytes > usize::MAX as u128 {
            return None;
        }
        let data: Vec<u8> = vec![0u8; bytes as usize];
        Some(FrameBuffer { width, height, data })
    }

    /// Takes a captured frame into the buffer: the first `width * 4` bytes
    /// of each of the first `height` rows of `src`, whose rows start
    /// `pitch` bytes apart. A source that does not hold those rows is an
    /// error and leaves the buffer as it was.
    pub fn load(&mut self, src: &[u8], pitch: usize) -> (outcome: Result<(), FrameError>)
        requires
            old(self).wf(),
        ensures
            final(self).wf(),
            final(self).width_spec() == old(self).width_spec(),
            final(self).height_spec() == old(self).height_spec(),
            outcome.is_ok() == rows_fit(
                src@.len() as int,
                pitch as int,
                old(self).row_bytes(),
                old(self).height_spec(),
            ),
            outcome.is_ok() ==> final(self)@ == packed_rows(
                src@,
                pitch as int,
                old(self).row_bytes(),
                old(self).height_spec(),
            ),
            outcome.is_err() ==> final(self)@ == old(self)@,
            outcome.is_err() ==> outcome == Err::<(), FrameError>(
                if pitch < old(self).row_bytes() {
                    FrameError::PitchTooSmall
                } else {
                    FrameError::SourceTooShort
                },
            ),
    {
        let row: u64 = (self.width as u64) * 4;
        let height: u64 = self.height as u64;
        if (pitch as u64) < row {
            return Err(FrameError::PitchTooSmall);
        }
        if height == 0 {
            proof {
                assert(self.width_spec() * self.height_spec() * 4 == 0) by (nonlinear_arith)
                    requires
                        self.height_spec() == 0,
                ;
                assert(self@ =~= packed_rows(src@, pitch as int, self.row_bytes(), 0));
            }
            return Ok(());
        }
        proof {
            assert((height - 1) * pitch <= 0xffff_ffff * 0xffff_ffff_ffff_ffff) by (nonlinear_arith)
                requires
                    0 <= height - 1 <= 0xffff_ffff,
                    0 <= pitch <= 0xffff_ffff_ffff_ffff,
            ;
        }
        let needed: u128 = ((height - 1) as u128) * (pitch as u128) + row as u128;
        if needed > src.len() as u128 {
            return Err(FrameError::SourceTooShort);
        }
        let row_len: usize = row as usize;
        let rows: usize = height as usize;
        let mut fresh: Vec<u8> = Vec::new();
        if pitch == row_len {
            proof {
                assert(rows * row_len == (rows - 1) * pitch + row_len) by (nonlinear_arith)
                    requires
                        pitch == row_len,
                ;
                lemma_tight_rows_pack_to_themselves(src@, row_len as int, rows as int);
            }
            let total: usize = rows * row_len;
            fresh.extend_from_slice(slice_range(src, 0, total));
            proof {
                assert(fresh@ =~= src@.subrange(0, total as int));
            }
        } else {
            let mut i: usize = 0;
            while i < rows
                invariant
                    i <= rows,
                    rows >= 1,
                    row_len <= pitch,
                    (rows - 1) * pitch + row_len <= src@.len() <= usize::MAX,
                    fresh@ == packed_rows(src@, pitch as int, row_len as int, i as int),
                decreases rows - i,
            {
                proof {
                    assert(0 <= i * pitch <= (rows - 1) * pitch) by (nonlinear_arith)
                        requires
                            0 <= i <= rows - 1,
                            pitch >= 0,
                    ;
                }
                let start: usize = i * pitch;
                let ghost before = fresh@;
                fresh.extend_from_slice(slice_range(src, start, start + row_len));
                proof {
                    assert(fresh@ =~= before + src@.subrange(i * pitch, i * pitch + row_len));
                }
                i += 1;
            }
        }
        proof {
            lemma_packed_rows(src@, pitch as int, row_len as int, rows as int);
            assert(rows * row_len == self.width_spec() * self.height_spec() * 4)
                by (nonlinear_arith)
                requires
                    rows == self.height_spec(),
                    row_len == self.width_spec() * 4,
            ;
        }
        self.data = fresh;
        Ok(())
    }
}

fn slice_range(src: &[u8], from: usize, to: usize) -> (part: &[u8])
    requires
        from <= to <= src@.len(),
    ensures
        part@ == src@.subrange(from as int, to as int),
{
    &src[from..to]
}

} // verus!
