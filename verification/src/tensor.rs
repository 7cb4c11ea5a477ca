//! The numeric payload that flows through a model, held as raw 32-bit cell
//! patterns in row-major order.
//!
//! The numeric kernels that interpret the cells (matrix products, activation
//! curves) are outside collaborators; the library moves, concatenates,
//! reshapes and serializes the cells, and all of that is verified here
//! bit-for-bit.

use vstd::prelude::*;

use crate::b64::b64_of;
use crate::b64::b64_decode_of;
use crate::b64::b64_decode;
use crate::b64::b64_encode;
use crate::errors::ModelError;

verus! {

/// The largest cell count a tensor may hold; keeps every byte-level size
/// computation inside `usize`.
pub const TENSOR_MAX_LEN: usize = 0x10000000;

/// The mathematical value of a tensor: its dimensions and its cells in
/// row-major order.
pub struct TensorView {
    pub width: nat,
    pub height: nat,
    pub data: Seq<u32>,
}

/// A two-dimensional array of 32-bit cells, `width` columns by `height`
/// rows, stored row-major. Cell `(row, col)` sits at `row * width + col`.
pub struct Tensor {
    width: usize,
    height: usize,
    data: Vec<u32>,
}

impl View for Tensor {
    type V = TensorView;

    closed spec fn view(&self) -> TensorView {
        TensorView { width: self.width as nat, height: self.height as nat, data: self.data@ }
    }
}

/// A well-formed tensor value: the cell count matches the dimensions and
/// stays under the library's size cap.
pub open spec fn tensor_wf(t: TensorView) -> bool {
    &&& t.data.len() == t.width * t.height
    &&& t.data.len() <= TENSOR_MAX_LEN
    &&& t.width <= TENSOR_MAX_LEN
    &&& t.height <= TENSOR_MAX_LEN
}

impl Tensor {
    #[verifier::type_invariant]
    spec fn inv(self) -> bool {
        tensor_wf(self@)
    }

    /// Number of columns. Also reports that every tensor is well-formed.
    pub fn width(&self) -> (r: usize)
        ensures
            r == self@.width,
            tensor_wf(self@),
    {
        proof {
            use_type_invariant(self);
        }
        self.width
    }

    /// Number of rows. Also reports that every tensor is well-formed.
    pub fn height(&self) -> (r: usize)
        ensures
            r == self@.height,
            tensor_wf(self@),
    {
        proof {
            use_type_invariant(self);
        }
        self.height
    }

    /// The cell at `(row, col)`.
    pub fn cell(&self, row: usize, col: usize) -> (r: u32)
        requires
            row < self@.height,
            col < self@.width,
        ensures
            r == self@.data[row * self@.width + col],
    {
        proof {
            use_type_invariant(self);
            let w = self@.width;
            let h = self@.height;
            assert((row as int) * (w as int) + (col as int) < h * w) by (nonlinear_arith)
                requires
                    (row as int) < h,
                    (col as int) < w,
                    0 <= row as int,
                    0 <= col as int,
            ;
            assert(h * w == w * h) by (nonlinear_arith);
        }
        self.data[row * self.width + col]
    }

    /// A flat copy of the cells, row-major.
    pub fn cells(&self) -> (r: Vec<u32>)
        ensures
            r@ == self@.data,
    {
        self.data.clone()
    }

    /// Build a tensor from a flat row-major cell vector. Fails with
    /// `DimensionMismatch` when the cell count does not match the
    /// dimensions or exceeds the size cap.
    pub fn from_raw_vec(width: usize, height: usize, data: Vec<u32>) -> (r: Result<Tensor, ModelError>)
        ensures
            (data@.len() == width * height && data@.len() <= TENSOR_MAX_LEN
                && width <= TENSOR_MAX_LEN && height <= TENSOR_MAX_LEN) <==> r is Ok,
            r matches Ok(t) ==> t@ == (TensorView { width: width as nat, height: height as nat, data: data@ }),
    {
        proof {
            lemma_usize_mul_fits_u128(width as int, height as int);
        }
        let prod: u128 = (width as u128) * (height as u128);
        if prod == (data.len() as u128) && data.len() <= TENSOR_MAX_LEN
            && width <= TENSOR_MAX_LEN && height <= TENSOR_MAX_LEN {
            Ok(Tensor { width, height, data })
        } else {
            Err(ModelError::DimensionMismatch)
        }
    }

    /// A `width` by `height` tensor with every cell equal to `bits`.
    pub fn constant(width: usize, height: usize, bits: u32) -> (r: Result<Tensor, ModelError>)
        ensures
            (width * height <= TENSOR_MAX_LEN
                && width <= TENSOR_MAX_LEN && height <= TENSOR_MAX_LEN) <==> r is Ok,
            r matches Ok(t) ==> {
                &&& t@.width == width
                &&& t@.height == height
                &&& t@.data == Seq::new((width * height) as nat, |i: int| bits)
            },
    {
        proof {
            lemma_usize_mul_fits_u128(width as int, height as int);
        }
        let prod: u128 = (width as u128) * (height as u128);
        if prod <= (TENSOR_MAX_LEN as u128) && width <= TENSOR_MAX_LEN && height <= TENSOR_MAX_LEN {
            let n: usize = width * height;
            let mut data: Vec<u32> = Vec::new();
            let mut i: usize = 0;
            while i < n
                invariant
                    i <= n,
                    data@.len() == i,
                    forall|j: int| 0 <= j < i ==> data@[j] == bits,
                decreases n - i,
            {
                data.push(bits);
                i = i + 1;
            }
            proof {
                assert(data@ =~= Seq::new((width * height) as nat, |i: int| bits));
            }
            Ok(Tensor { width, height, data })
        } else {
            Err(ModelError::DimensionMismatch)
        }
    }

    /// A `width` by `height` tensor of all-zero cells.
    pub fn zeroed(width: usize, height: usize) -> (r: Tensor)
        requires
            width * height <= TENSOR_MAX_LEN,
            width <= TENSOR_MAX_LEN,
            height <= TENSOR_MAX_LEN,
        ensures
            r@.width == width,
            r@.height == height,
            r@.data == Seq::new((width * height) as nat, |i: int| 0u32),
    {
        let n: usize = width * height;
        let mut data: Vec<u32> = Vec::new();
        let mut i: usize = 0;
        while i < n
            invariant
                i <= n,
                data@.len() == i,
                forall|j: int| 0 <= j < i ==> data@[j] == 0u32,
            decreases n - i,
        {
            data.push(0);
            i = i + 1;
        }
        proof {
            assert(data@ =~= Seq::new((width * height) as nat, |i: int| 0u32));
        }
        Tensor { width, height, data }
    }

    /// The same cells reshaped into a single row, as the flatten layer
    /// produces.
    pub fn flattened(&self) -> (r: Tensor)
        ensures
            r@.width == self@.data.len(),
            r@.height == 1nat,
            r@.data == self@.data,
    {
        proof {
            use_type_invariant(self);
        }
        Tensor { width: self.data.len(), height: 1, data: self.data.clone() }
    }
}

/// The row-major cells of two tensors of equal height set side by side:
/// row `r` of the result is row `r` of `a` followed by row `r` of `b`.
pub open spec fn hconcat_data(a: TensorView, b: TensorView) -> Seq<u32> {
    Seq::new((a.width + b.width) * a.height, |i: int|
        {
            let w = a.width + b.width;
            let row = i / (w as int);
            let col = i % (w as int);
            if col < a.width {
                a.data[row * a.width + col]
            } else {
                b.data[row * b.width + (col - a.width)]
            }
        })
}

/// The view of the horizontal concatenation of two tensors of equal height.
pub open spec fn hconcat_view(a: TensorView, b: TensorView) -> TensorView {
    TensorView { width: (a.width + b.width) as nat, height: a.height, data: hconcat_data(a, b) }
}

/// The result of horizontally concatenating a non-empty list of tensor
/// views, left to right; `Err` when heights differ or the result would
/// outgrow the size cap.
pub open spec fn spec_concat_horizontal(ts: Seq<TensorView>) -> Result<TensorView, ModelError>
    decreases ts.len(),
{
    if ts.len() == 0 {
        Err(ModelError::DimensionMismatch)
    } else if ts.len() == 1 {
        Ok(ts[0])
    } else {
        match spec_concat_horizontal(ts.drop_last()) {
            Ok(acc) => {
                if acc.height == ts.last().height
                    && acc.width + ts.last().width <= TENSOR_MAX_LEN
                    && (acc.width + ts.last().width) * acc.height <= TENSOR_MAX_LEN {
                    Ok(hconcat_view(acc, ts.last()))
                } else {
                    Err(ModelError::DimensionMismatch)
                }
            }
            Err(e) => Err(e),
        }
    }
}

impl Tensor {
    /// Set `b`'s rows to the right of `self`'s rows. Both tensors must have
    /// the same height and the result must stay under the size cap.
    fn hconcat(&self, b: &Tensor) -> (r: Tensor)
        requires
            self@.height == b@.height,
            self@.width + b@.width <= TENSOR_MAX_LEN,
            (self@.width + b@.width) * self@.height <= TENSOR_MAX_LEN,
        ensures
            r@ == hconcat_view(self@, b@),
    {
        proof {
            use_type_invariant(self);
            use_type_invariant(b);
        }
        let w: usize = self.width + b.width;
        let h: usize = self.height;
        proof {
            assert(w * h <= TENSOR_MAX_LEN);
            assert(self@.data.len() + b@.data.len() == w * h) by (nonlinear_arith)
                requires
                    self@.data.len() == self@.width * self@.height,
                    b@.data.len() == b@.width * b@.height,
                    self@.height == b@.height,
                    w == self@.width + b@.width,
                    h == self@.height,
            ;
        }
        let mut data: Vec<u32> = Vec::new();
        let mut row: usize = 0;
        while row < h
            invariant
                row <= h,
                w == self@.width + b@.width,
                h == self@.height,
                h == b@.height,
                tensor_wf(self@),
                tensor_wf(b@),
                w * h <= TENSOR_MAX_LEN,
                row * w <= w * h,
                data@.len() == row * w,
                forall|j: int| 0 <= j < row * w ==> data@[j] == hconcat_data(self@, b@)[j],
            decreases h - row,
        {
            proof {
                assert((row + 1) * w == row * w + w) by (nonlinear_arith);
                assert(row * w + w <= h * w) by (nonlinear_arith)
                    requires
                        0 <= row as int,
                        (row as int) < (h as int),
                        0 <= w as int,
                ;
                assert(h * w == w * h) by (nonlinear_arith);
            }
            let mut col: usize = 0;
            while col < w
                invariant
                    col <= w,
                    row < h,
                    w == self@.width + b@.width,
                    h == self@.height,
                    h == b@.height,
                    tensor_wf(self@),
                    tensor_wf(b@),
                    w * h <= TENSOR_MAX_LEN,
                    row * w + w <= w * h,
                    data@.len() == row * w + col,
                    forall|j: int| 0 <= j < row * w + col ==> data@[j] == hconcat_data(self@, b@)[j],
                decreases w - col,
            {
                let ghost gi: int = (row * w + col) as int;
                let v: u32;
                if col < self.width {
                    proof {
                        assert((row as int) * (self@.width as int) + (col as int)
                            < (self@.height as int) * (self@.width as int)) by (nonlinear_arith)
                            requires
                                (row as int) < (self@.height as int),
                                (col as int) < (self@.width as int),
                                0 <= row as int,
                                0 <= col as int,
                        ;
                        assert((self@.height as int) * (self@.width as int)
                            == (self@.width as int) * (self@.height as int)) by (nonlinear_arith);
                        assert((row * self.width + col) as int
                            == (row as int) * (self@.width as int) + (col as int));
                    }
                    v = self.data[row * self.width + col];
                } else {
                    proof {
                        assert((row as int) * (b@.width as int) + ((col - self.width) as int)
                            < (b@.height as int) * (b@.width as int)) by (nonlinear_arith)
                            requires
                                (row as int) < (b@.height as int),
                                ((col - self.width) as int) < (b@.width as int),
                                0 <= row as int,
                                0 <= (col - self.width) as int,
                        ;
                        assert((b@.height as int) * (b@.width as int)
                            == (b@.width as int) * (b@.height as int)) by (nonlinear_arith);
                    }
                    v = b.data[row * b.width + (col - self.width)];
                }
                data.push(v);
                proof {
                    assert(gi / (w as int) == row as int && gi % (w as int) == col as int)
                        by (nonlinear_arith)
                        requires
                            gi == (row as int) * (w as int) + (col as int),
                            0 <= col as int,
                            (col as int) < (w as int),
                            0 <= row as int,
                    ;
                    assert(data@[gi] == hconcat_data(self@, b@)[gi]);
                }
                col = col + 1;
            }
            row = row + 1;
        }
        proof {
            assert(h * w == w * h) by (nonlinear_arith);
            assert(data@.len() == hconcat_data(self@, b@).len());
            assert(data@ =~= hconcat_data(self@, b@));
        }
        Tensor { width: w, height: h, data }
    }

    /// Concatenate the tensors horizontally, left to right. All of them
    /// must have one common height; otherwise, or for an empty list, this
    /// fails with `DimensionMismatch`.
    pub fn concat_horizontal(parts: &Vec<Tensor>) -> (r: Result<Tensor, ModelError>)
        ensures
            match r {
                Ok(t) => spec_concat_horizontal(parts@.map_values(|p: Tensor| p@))
                    matches Ok(tv) && t@ == tv,
                Err(e) => spec_concat_horizontal(parts@.map_values(|p: Tensor| p@)) is Err,
            },
    {
        let ghost views = parts@.map_values(|p: Tensor| p@);
        if parts.len() == 0 {
            return Err(ModelError::DimensionMismatch);
        }
        let mut acc: Tensor = parts[0].clone_tensor();
        let mut i: usize = 1;
        proof {
            assert(views.subrange(0, 1) =~= seq![views[0]]);
            assert(spec_concat_horizontal(views.subrange(0, 1)) == Ok::<TensorView, ModelError>(views[0]));
        }
        while i < parts.len()
            invariant
                1 <= i <= parts@.len(),
                views == parts@.map_values(|p: Tensor| p@),
                views.len() == parts@.len(),
                spec_concat_horizontal(views.subrange(0, i as int)) matches Ok(tv) && acc@ == tv,
            decreases parts@.len() - i,
        {
            let p = &parts[i];
            proof {
                use_type_invariant(&acc);
                use_type_invariant(p);
            }
            proof {
                assert(views.subrange(0, i as int + 1).drop_last()
                    =~= views.subrange(0, i as int));
                assert(views.subrange(0, i as int + 1).last() == views[i as int]);
            }
            if acc.height() != p.height() {
                proof {
                    lemma_concat_prefix_err(views, i as int);
                }
                return Err(ModelError::DimensionMismatch);
            }
            let h = acc.height();
            let sum_w: u64 = (acc.width() as u64) + (p.width() as u64);
            proof {
                assert(sum_w * (h as u64) < 0x10000000000000000) by (nonlinear_arith)
                    requires
                        0 <= sum_w,
                        sum_w <= 0x20000000,
                        0 <= h,
                        h <= 0x10000000,
                ;
            }
            let need: u64 = sum_w * (h as u64);
            let fits: bool = sum_w <= (TENSOR_MAX_LEN as u64) && need <= (TENSOR_MAX_LEN as u64);
            if !fits {
                proof {
                    lemma_concat_prefix_err(views, i as int);
                }
                return Err(ModelError::DimensionMismatch);
            }
            proof {
                assert((acc@.width + p@.width) * acc@.height <= TENSOR_MAX_LEN);
            }
            acc = acc.hconcat(p);
            i = i + 1;
            proof {
                assert(views.subrange(0, i as int).drop_last()
                    =~= views.subrange(0, i as int - 1));
                assert(views.subrange(0, i as int).last() == views[i as int - 1]);
            }
        }
        proof {
            assert(views.subrange(0, views.len() as int) =~= views);
        }
        Ok(acc)
    }

    /// An owned copy of the tensor.
    pub fn clone_tensor(&self) -> (r: Tensor)
        ensures
            r@ == self@,
    {
        proof {
            use_type_invariant(self);
        }
        Tensor { width: self.width, height: self.height, data: self.data.clone() }
    }
}

/// If the concatenation of a strict prefix fails, or the step after it
/// fails, the concatenation of any extension fails too.
proof fn lemma_concat_prefix_err(views: Seq<TensorView>, i: int)
    requires
        0 < i < views.len(),
        spec_concat_horizontal(views.subrange(0, i + 1)) is Err,
    ensures
        spec_concat_horizontal(views) is Err,
    decreases views.len() - i,
{
    if i + 1 == views.len() {
        assert(views.subrange(0, i + 1) =~= views);
    } else {
        assert(views.subrange(0, i + 2).drop_last() =~= views.subrange(0, i + 1));
        assert(spec_concat_horizontal(views.subrange(0, i + 2)) is Err);
        lemma_concat_prefix_err(views, i + 1);
    }
}


/// The product of two values below 2^64 fits in a `u128`.
pub(crate) proof fn lemma_usize_mul_fits_u128(a: int, b: int)
    requires
        0 <= a,
        a < 0x10000000000000000,
        0 <= b,
        b < 0x10000000000000000,
    ensures
        a * b < 0x100000000000000000000000000000000,
{
    assert(a * b < 0x100000000000000000000000000000000) by (nonlinear_arith)
        requires
            0 <= a,
            a < 0x10000000000000000,
            0 <= b,
            b < 0x10000000000000000,
    ;
}


/// The packed text form of a tensor: dimensions plus the cells as base64
/// text of their big-endian four-byte renderings, row-major.
pub struct MatrixPack {
    pub width: usize,
    pub height: usize,
    pub data: String,
}

/// Byte `j` (0 is most significant) of the big-endian rendering of `x`.
pub open spec fn be_byte(x: u32, j: int) -> u8 {
    if j == 0 {
        (x >> 24) as u8
    } else if j == 1 {
        (x >> 16) as u8
    } else if j == 2 {
        (x >> 8) as u8
    } else {
        x as u8
    }
}

/// The big-endian four-byte renderings of the words, concatenated.
pub open spec fn bytes_of_words(ws: Seq<u32>) -> Seq<u8> {
    Seq::new(ws.len() * 4, |i: int| be_byte(ws[i / 4], i % 4))
}

/// The word read back from four big-endian bytes.
pub open spec fn word_from_bytes(b0: u8, b1: u8, b2: u8, b3: u8) -> u32 {
    ((b0 as u32) << 24) | ((b1 as u32) << 16) | ((b2 as u32) << 8) | (b3 as u32)
}

/// The words read back from a byte sequence, four big-endian bytes each.
pub open spec fn words_of_bytes(b: Seq<u8>) -> Seq<u32> {
    Seq::new(b.len() / 4, |k: int| word_from_bytes(b[4 * k], b[4 * k + 1], b[4 * k + 2], b[4 * k + 3]))
}

/// Reading words back from their big-endian bytes restores them exactly.
pub proof fn lemma_words_bytes_roundtrip(ws: Seq<u32>)
    ensures
        words_of_bytes(bytes_of_words(ws)) == ws,
{
    let bs = bytes_of_words(ws);
    assert(bs.len() == ws.len() * 4);
    assert(bs.len() / 4 == ws.len()) by (nonlinear_arith)
        requires
            bs.len() == ws.len() * 4,
    ;
    assert forall|k: int| 0 <= k < ws.len()
        implies words_of_bytes(bs)[k] == ws[k] by {
        assert forall|j: int| 0 <= j < 4 implies bs[4 * k + j] == be_byte(ws[k], j) by {
            assert((4 * k + j) / 4 == k && (4 * k + j) % 4 == j) by (nonlinear_arith)
                requires
                    0 <= j,
                    j < 4,
                    0 <= k,
            ;
            assert(4 * k + j < bs.len()) by (nonlinear_arith)
                requires
                    0 <= j,
                    j < 4,
                    0 <= k,
                    k < ws.len(),
                    bs.len() == ws.len() * 4,
            ;
        }
        let x = ws[k];
        assert(word_from_bytes(be_byte(x, 0), be_byte(x, 1), be_byte(x, 2), be_byte(x, 3)) == x)
            by (bit_vector);
    }
    assert(words_of_bytes(bs) =~= ws);
}

/// Render each word as four big-endian bytes, in order.
fn words_to_bytes(ws: &Vec<u32>) -> (r: Vec<u8>)
    requires
        ws@.len() <= TENSOR_MAX_LEN,
    ensures
        r@ == bytes_of_words(ws@),
{
    let n = ws.len();
    let mut r: Vec<u8> = Vec::new();
    let mut i: usize = 0;
    while i < n
        invariant
            i <= n,
            n == ws@.len(),
            n <= TENSOR_MAX_LEN,
            r@.len() == 4 * i,
            forall|j: int| 0 <= j < 4 * i ==> r@[j] == be_byte(ws@[j / 4], j % 4),
        decreases n - i,
    {
        let x = ws[i];
        r.push((x >> 24) as u8);
        r.push((x >> 16) as u8);
        r.push((x >> 8) as u8);
        r.push(x as u8);
        proof {
            assert forall|j: int| 4 * i <= j < 4 * (i + 1)
                implies r@[j] == be_byte(ws@[j / 4], j % 4) by {
                assert(j / 4 == i as int && (j % 4 == j - 4 * (i as int))) by (nonlinear_arith)
                    requires
                        4 * (i as int) <= j,
                        j < 4 * (i as int + 1),
                ;
            }
        }
        i = i + 1;
    }
    proof {
        assert(r@ =~= bytes_of_words(ws@));
    }
    r
}

/// Read the bytes back as big-endian words, four bytes each.
fn bytes_to_words(b: &Vec<u8>) -> (r: Vec<u32>)
    requires
        b@.len() % 4 == 0,
    ensures
        r@ == words_of_bytes(b@),
{
    let n = b.len();
    let mut r: Vec<u32> = Vec::new();
    let mut k: usize = 0;
    proof {
        assert(n / 4 * 4 == n as int) by (nonlinear_arith)
            requires
                (n as int) % 4 == 0,
                0 <= n as int,
        ;
    }
    while 4 * k < n
        invariant
            n == b@.len(),
            n % 4 == 0,
            n / 4 * 4 == n as int,
            4 * k <= n + 3,
            r@.len() == k,
            forall|j: int| 0 <= j < k ==> r@[j] == words_of_bytes(b@)[j],
        decreases n - 4 * k,
    {
        proof {
            assert(4 * (k as int) + 3 < n) by (nonlinear_arith)
                requires
                    4 * (k as int) < n as int,
                    (n as int) % 4 == 0,
                    n / 4 * 4 == n as int,
                    0 <= k as int,
            ;
            assert((k as int) < n / 4) by (nonlinear_arith)
                requires
                    4 * (k as int) < n as int,
                    n / 4 * 4 == n as int,
                    0 <= k as int,
            ;
        }
        let w = ((b[4 * k] as u32) << 24) | ((b[4 * k + 1] as u32) << 16)
            | ((b[4 * k + 2] as u32) << 8) | (b[4 * k + 3] as u32);
        r.push(w);
        k = k + 1;
    }
    proof {
        assert(4 * (k as int) >= n);
        assert(k as int == n / 4) by (nonlinear_arith)
            requires
                4 * (k as int) >= n as int,
                4 * (k as int) <= (n as int) + 3,
                n / 4 * 4 == n as int,
                0 <= k as int,
                0 <= n as int,
        ;
        assert(r@ =~= words_of_bytes(b@));
    }
    r
}

impl Tensor {
    /// The packed text form of this tensor: `{width, height, data}` with
    /// the cells rendered big-endian and base64-encoded.
    pub fn pack(&self) -> (r: MatrixPack)
        ensures
            r.width == self@.width,
            r.height == self@.height,
            r.data@ == b64_of(bytes_of_words(self@.data)),
            b64_decode_of(r.data@) == Some(bytes_of_words(self@.data)),
    {
        proof {
            use_type_invariant(self);
        }
        let bytes = words_to_bytes(&self.data);
        let text = b64_encode(&bytes);
        MatrixPack { width: self.width, height: self.height, data: text }
    }

    /// Rebuild a tensor from its packed text form. Fails with
    /// `DimensionMismatch` when the text is not valid base64 or the byte
    /// count does not match the declared dimensions.
    pub fn unpack(p: &MatrixPack) -> (r: Result<Tensor, ModelError>)
        ensures
            match b64_decode_of(p.data@) {
                Some(bytes) => {
                    if bytes.len() % 4 == 0 && bytes.len() / 4 == p.width * p.height
                        && bytes.len() / 4 <= TENSOR_MAX_LEN
                        && p.width <= TENSOR_MAX_LEN && p.height <= TENSOR_MAX_LEN {
                        r matches Ok(t) && t@ == (TensorView {
                            width: p.width as nat,
                            height: p.height as nat,
                            data: words_of_bytes(bytes),
                        })
                    } else {
                        r is Err
                    }
                },
                None => r is Err,
            },
    {
        match b64_decode(&p.data) {
            None => Err(ModelError::DimensionMismatch),
            Some(bytes) => {
                if bytes.len() % 4 != 0 {
                    Err(ModelError::DimensionMismatch)
                } else {
                    let words = bytes_to_words(&bytes);
                    Tensor::from_raw_vec(p.width, p.height, words)
                }
            }
        }
    }

    /// Packing and unpacking restore the tensor bit-for-bit.
    pub proof fn lemma_pack_unpack_exact(t: TensorView, p: MatrixPack, r: Result<Tensor, ModelError>)
        requires
            tensor_wf(t),
            p.width == t.width,
            p.height == t.height,
            b64_decode_of(p.data@) == Some(bytes_of_words(t.data)),
            match b64_decode_of(p.data@) {
                Some(bytes) => {
                    if bytes.len() % 4 == 0 && bytes.len() / 4 == p.width * p.height
                        && bytes.len() / 4 <= TENSOR_MAX_LEN
                        && p.width <= TENSOR_MAX_LEN && p.height <= TENSOR_MAX_LEN {
                        r matches Ok(u) && u@ == (TensorView {
                            width: p.width as nat,
                            height: p.height as nat,
                            data: words_of_bytes(bytes),
                        })
                    } else {
                        r is Err
                    }
                },
                None => r is Err,
            },
        ensures
            r matches Ok(u) && u@ == t,
    {
        let bytes = bytes_of_words(t.data);
        assert(bytes.len() == t.data.len() * 4);
        assert(bytes.len() % 4 == 0 && bytes.len() / 4 == t.data.len()) by (nonlinear_arith)
            requires
                bytes.len() == t.data.len() * 4,
        ;
        lemma_words_bytes_roundtrip(t.data);
    }
}

} // verus!
