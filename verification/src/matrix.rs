//! A dense table stored row by row.

use vstd::prelude::*;

verus! {

/// A dense table stored row by row.
///
/// A table of width zero has no rows.
pub struct Matrix<T> {
    values: Vec<T>,
    width: usize,
}

impl<T> Matrix<T> {
    #[verifier::type_invariant]
    spec fn whole_rows(&self) -> bool {
        self.width == 0 || self.values@.len() % (self.width as nat) == 0
    }
}

impl<T: Copy> Matrix<T> {
    /// The entries, row after row.
    pub closed spec fn entries(&self) -> Seq<T> {
        self.values@
    }

    /// The number of columns.
    pub closed spec fn cols(&self) -> nat {
        self.width as nat
    }

    /// The number of rows.
    pub open spec fn rows(&self) -> nat {
        if self.cols() == 0 {
            0
        } else {
            self.entries().len() / self.cols()
        }
    }

    /// Whether the entries fill whole rows.  Every table does.
    pub open spec fn wf(&self) -> bool {
        self.cols() == 0 || self.entries().len() % self.cols() == 0
    }

    /// The entry at row `r` and column `c`.
    pub open spec fn at(&self, r: int, c: int) -> T {
        self.entries()[r * self.cols() + c]
    }

    /// Row `r` as a sequence.
    pub open spec fn row(&self, r: int) -> Seq<T> {
        self.entries().subrange(r * self.cols(), r * self.cols() + self.cols())
    }

    /// Builds a table from its entries, or `None` where they do not fill whole rows.
    pub fn new(values: Vec<T>, width: usize) -> (m: Option<Self>)
        ensures
            m.is_some() <==> (width == 0 || values@.len() % (width as nat) == 0),
            m.is_some() ==> m.unwrap().entries() == values@ && m.unwrap().cols() == width
                && m.unwrap().wf(),
    {
        if width == 0 || values.len() % width == 0 {
            Some(Matrix { values, width })
        } else {
            None
        }
    }

    pub fn width(&self) -> (w: usize)
        ensures
            w == self.cols(),
    {
        self.width
    }

    pub fn height(&self) -> (h: usize)
        ensures
            h == self.rows(),
    {
        if self.width == 0 {
            0
        } else {
            self.values.len() / self.width
        }
    }

    /// The entries, row after row.
    pub fn values(&self) -> (v: &Vec<T>)
        ensures
            v@ == self.entries(),
    {
        &self.values
    }

    /// States that the entries fill whole rows.
    pub fn check_wf(&self)
        ensures
            self.wf(),
    {
        proof {
            use_type_invariant(self);
        }
    }

    pub fn get(&self, r: usize, c: usize) -> (x: T)
        requires
            r < self.rows(),
            c < self.cols(),
        ensures
            x == self.at(r as int, c as int),
    {
        let len: usize = self.values.len();
        proof {
            use_type_invariant(self);
            lemma_cell_in_range(len as nat, self.width as nat, r as nat, c as nat);
            assert((r as nat) * (self.width as nat) == (r as int) * (self.width as int))
                by (nonlinear_arith);
        }
        let start: usize = r * self.width;
        self.values[start + c]
    }

    /// Copies row `r` into a vector of its own.
    pub fn row_vec(&self, r: usize) -> (v: Vec<T>)
        requires
            r < self.rows(),
        ensures
            v@ == self.row(r as int),
            v@.len() == self.cols(),
    {
        let mut v: Vec<T> = Vec::new();
        let mut c: usize = 0;
        proof {
            use_type_invariant(self);
            assert(self.cols() > 0);
            lemma_cell_in_range(self.entries().len(), self.cols(), r as nat, 0);
            assert(v@ =~= self.entries().subrange(r * self.cols(), r * self.cols() + 0));
        }
        while c < self.width
            invariant
                self.wf(),
                r < self.rows(),
                c <= self.width,
                self.width == self.cols(),
                v@ == self.entries().subrange(r * self.cols(), r * self.cols() + c),
            decreases self.width - c,
        {
            let x = self.get(r, c);
            v.push(x);
            c += 1;
            proof {
                lemma_cell_in_range(self.entries().len(), self.cols(), r as nat, (c - 1) as nat);
                assert(v@ =~= self.entries().subrange(r * self.cols(), r * self.cols() + c));
            }
        }
        proof {
            lemma_cell_in_range(self.entries().len(), self.cols(), r as nat, 0);
        }
        v
    }
}

/// The cell at row `r`, column `c` of a table with `w` columns lies inside its `len` entries.
pub proof fn lemma_cell_in_range(len: nat, w: nat, r: nat, c: nat)
    requires
        w > 0,
        len % w == 0,
        r < len / w,
        c < w,
    ensures
        r * w + c < len,
        r * w + w <= len,
        r * w <= len,
{
    assert(len == w * (len / w)) by {
        vstd::arithmetic::div_mod::lemma_fundamental_div_mod(len as int, w as int);
    }
    assert(r * w + w <= (len / w) * w) by (nonlinear_arith)
        requires
            r < len / w,
    ;
    assert((len / w) * w == w * (len / w)) by (nonlinear_arith);
}

} // verus!
