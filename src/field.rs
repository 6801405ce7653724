use vstd::prelude::*;

verus! {

/// The state variables of the two-dimensional Maxwell system.
#[derive(Clone, Copy, Debug, PartialEq, Eq, Structural)]
pub enum Component {
    Ex,
    Ey,
    Hz,
}

/// Values of the three Maxwell state variables on a `rows x cols` mesh, each
/// stored row after row. Its shape never changes.
pub struct Field<T> {
    rows: usize,
    cols: usize,
    ex: Vec<T>,
    ey: Vec<T>,
    hz: Vec<T>,
}

/// `n` copies of `v`.
pub open spec fn filled<T>(n: int, v: T) -> Seq<T> {
    Seq::new(n as nat, |_i: int| v)
}

impl<T: Copy> Field<T> {
    pub closed spec fn spec_rows(&self) -> int {
        self.rows as int
    }

    pub closed spec fn spec_cols(&self) -> int {
        self.cols as int
    }

    /// The values of one state variable.
    pub closed spec fn view_of(&self, c: Component) -> Seq<T> {
        match c {
            Component::Ex => self.ex@,
            Component::Ey => self.ey@,
            Component::Hz => self.hz@,
        }
    }

    /// Every state variable holds one value per node.
    pub open spec fn wf(&self) -> bool {
        &&& self.view_of(Component::Ex).len() == self.spec_rows() * self.spec_cols()
        &&& self.view_of(Component::Ey).len() == self.spec_rows() * self.spec_cols()
        &&& self.view_of(Component::Hz).len() == self.spec_rows() * self.spec_cols()
    }

    /// Same shape and same values.
    pub open spec fn same_as(&self, o: &Field<T>) -> bool {
        &&& self.spec_rows() == o.spec_rows()
        &&& self.spec_cols() == o.spec_cols()
        &&& self.view_of(Component::Ex) == o.view_of(Component::Ex)
        &&& self.view_of(Component::Ey) == o.view_of(Component::Ey)
        &&& self.view_of(Component::Hz) == o.view_of(Component::Hz)
    }

    /// A field of the given shape whose every value is `fill` (the
    /// background state, zero in the usual use).
    pub fn new(rows: usize, cols: usize, fill: T) -> (r: Field<T>)
        requires
            rows * cols <= usize::MAX,
        ensures
            r.wf(),
            r.spec_rows() == rows,
            r.spec_cols() == cols,
            forall|c: Component| #[trigger] r.view_of(c) == filled(rows * cols, fill),
    {
        let n: usize = rows * cols;
        let ex = fill_vec(n, fill);
        let ey = fill_vec(n, fill);
        let hz = fill_vec(n, fill);
        let r = Field { rows, cols, ex, ey, hz };
        assert forall|c: Component| #[trigger] r.view_of(c) == filled(rows * cols, fill) by {
            match c {
                Component::Ex => {},
                Component::Ey => {},
                Component::Hz => {},
            }
        }
        r
    }

    pub fn rows(&self) -> (r: usize)
        ensures
            r == self.spec_rows(),
    {
        self.rows
    }

    pub fn cols(&self) -> (r: usize)
        ensures
            r == self.spec_cols(),
    {
        self.cols
    }

    /// The values of one state variable, row after row.
    pub fn values(&self, c: Component) -> (r: &Vec<T>)
        ensures
            r@ == self.view_of(c),
    {
        match c {
            Component::Ex => &self.ex,
            Component::Ey => &self.ey,
            Component::Hz => &self.hz,
        }
    }

    /// Value of state variable `c` at flat index `i`.
    pub fn get(&self, c: Component, i: usize) -> (r: T)
        requires
            i < self.view_of(c).len(),
        ensures
            r == self.view_of(c)[i as int],
    {
        self.values(c)[i]
    }

    /// Sets the value of state variable `c` at flat index `i`; the shape and
    /// every other value stay as they were.
    pub fn set(&mut self, c: Component, i: usize, v: T)
        requires
            i < old(self).view_of(c).len(),
        ensures
            final(self).spec_rows() == old(self).spec_rows(),
            final(self).spec_cols() == old(self).spec_cols(),
            final(self).view_of(c) == old(self).view_of(c).update(i as int, v),
            forall|d: Component| d != c ==> #[trigger] final(self).view_of(d) == old(self).view_of(d),
    {
        match c {
            Component::Ex => self.ex.set(i, v),
            Component::Ey => self.ey.set(i, v),
            Component::Hz => self.hz.set(i, v),
        }
    }

    /// The three state variables as slices that can be written in place;
    /// a slice keeps its length, so the field keeps its shape.
    pub fn components_mut(&mut self) -> (r: (&mut [T], &mut [T], &mut [T]))
        ensures
            r.0@ == old(self).view_of(Component::Ex),
            r.1@ == old(self).view_of(Component::Ey),
            r.2@ == old(self).view_of(Component::Hz),
            final(self).spec_rows() == old(self).spec_rows(),
            final(self).spec_cols() == old(self).spec_cols(),
            final(self).view_of(Component::Ex) == final(r.0)@,
            final(self).view_of(Component::Ey) == final(r.1)@,
            final(self).view_of(Component::Hz) == final(r.2)@,
    {
        (self.ex.as_mut_slice(), self.ey.as_mut_slice(), self.hz.as_mut_slice())
    }
}

fn fill_vec<T: Copy>(n: usize, v: T) -> (r: Vec<T>)
    ensures
        r@ == filled(n as int, v),
{
    let mut r: Vec<T> = Vec::with_capacity(n);
    let mut i: usize = 0;
    while i < n
        invariant
            i <= n,
            r@ == filled(i as int, v),
        decreases n - i,
    {
        r.push(v);
        i = i + 1;
        assert(r@ =~= filled(i as int, v));
    }
    r
}

} // verus!
