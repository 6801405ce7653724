use vstd::prelude::*;
use crate::field::{Component, Field, filled};
use crate::grid::{Grid, GridError};
use crate::operators::{OperatorError, Upwind4, UPWIND4_MIN_POINTS};

verus! {

/// Why a system could not be built.
#[derive(Clone, Copy, Debug, PartialEq, Eq, Structural)]
pub enum SystemError {
    /// The coordinate arrays do not match `width * height`.
    Grid(GridError),
    /// A row or a column has fewer points than the operator needs.
    Operator(OperatorError),
}

/// A Maxwell system on a fixed grid: the grid, one operator per axis, and two
/// fields of the grid's shape. `current` holds the state; a time step reads it
/// and writes `next`, and `swap` then makes the result current. Keeping two
/// buffers means that no stencil ever reads a value written in the same step.
pub struct System<T> {
    grid: Grid<T>,
    op_x: Upwind4,
    op_y: Upwind4,
    current: Field<T>,
    next: Field<T>,
}

impl<T: Copy> System<T> {
    pub closed spec fn spec_grid(&self) -> Grid<T> {
        self.grid
    }

    pub closed spec fn spec_op_x(&self) -> Upwind4 {
        self.op_x
    }

    pub closed spec fn spec_op_y(&self) -> Upwind4 {
        self.op_y
    }

    pub closed spec fn spec_current(&self) -> Field<T> {
        self.current
    }

    pub closed spec fn spec_next(&self) -> Field<T> {
        self.next
    }

    /// The grid is valid, each operator fits its axis, and both fields have
    /// the grid's shape.
    pub open spec fn wf(&self) -> bool {
        let g = self.spec_grid();
        &&& g.wf()
        &&& self.spec_op_x().wf()
        &&& self.spec_op_y().wf()
        &&& self.spec_op_x().points() == g.spec_width()
        &&& self.spec_op_y().points() == g.spec_height()
        &&& self.spec_current().wf()
        &&& self.spec_next().wf()
        &&& self.spec_current().spec_rows() == g.spec_height()
        &&& self.spec_current().spec_cols() == g.spec_width()
        &&& self.spec_next().spec_rows() == g.spec_height()
        &&& self.spec_next().spec_cols() == g.spec_width()
    }

    /// Builds a system on the grid given by flattened coordinates, with both
    /// fields set to `fill` everywhere. The coordinates are checked first (as
    /// `Grid::new` does), then that each axis has at least
    /// `UPWIND4_MIN_POINTS` points.
    pub fn new(width: u32, height: u32, x: Vec<T>, y: Vec<T>, fill: T) -> (r: Result<
        System<T>,
        SystemError,
    >)
        ensures
            r is Ok <==> {
                &&& x@.len() == width * height
                &&& y@.len() == width * height
                &&& width >= UPWIND4_MIN_POINTS
                &&& height >= UPWIND4_MIN_POINTS
            },
            x@.len() != width * height ==> r == Err::<System<T>, _>(
                SystemError::Grid(GridError::XLength),
            ),
            x@.len() == width * height && y@.len() != width * height ==> r == Err::<
                System<T>,
                _,
            >(SystemError::Grid(GridError::YLength)),
            x@.len() == width * height && y@.len() == width * height && (width
                < UPWIND4_MIN_POINTS || height < UPWIND4_MIN_POINTS) ==> r == Err::<
                System<T>,
                _,
            >(SystemError::Operator(OperatorError::TooFewPoints)),
            r matches Ok(s) ==> {
                &&& s.wf()
                &&& s.spec_grid().spec_width() == width
                &&& s.spec_grid().spec_height() == height
                &&& s.spec_grid().x_view() == x@
                &&& s.spec_grid().y_view() == y@
                &&& forall|c: Component| #[trigger]
                    s.spec_current().view_of(c) == filled(width * height, fill)
                &&& forall|c: Component| #[trigger]
                    s.spec_next().view_of(c) == filled(width * height, fill)
            },
    {
        let x_len = x.len();
        let grid = match Grid::new(width, height, x, y) {
            Ok(g) => g,
            Err(e) => {
                return Err(SystemError::Grid(e));
            },
        };
        let op_x = match Upwind4::new(width as usize) {
            Ok(op) => op,
            Err(e) => {
                return Err(SystemError::Operator(e));
            },
        };
        let op_y = match Upwind4::new(height as usize) {
            Ok(op) => op,
            Err(e) => {
                return Err(SystemError::Operator(e));
            },
        };
        let rows = height as usize;
        let cols = width as usize;
        assert(rows * cols == x_len) by (nonlinear_arith)
            requires
                x_len == width * height,
                rows == height,
                cols == width,
        ;
        let current = Field::new(rows, cols, fill);
        let next = Field::new(rows, cols, fill);
        Ok(System { grid, op_x, op_y, current, next })
    }

    pub fn grid(&self) -> (r: &Grid<T>)
        ensures
            *r == self.spec_grid(),
    {
        &self.grid
    }

    /// The operator along a row (the `x` direction).
    pub fn op_x(&self) -> (r: &Upwind4)
        ensures
            *r == self.spec_op_x(),
    {
        &self.op_x
    }

    /// The operator along a column (the `y` direction).
    pub fn op_y(&self) -> (r: &Upwind4)
        ensures
            *r == self.spec_op_y(),
    {
        &self.op_y
    }

    /// The current state.
    pub fn field(&self) -> (r: &Field<T>)
        ensures
            *r == self.spec_current(),
    {
        &self.current
    }

    /// The current state, to be overwritten by an initial condition.
    pub fn field_mut(&mut self) -> (r: &mut Field<T>)
        ensures
            *r == old(self).spec_current(),
            final(self).spec_current() == *final(r),
            final(self).spec_next() == old(self).spec_next(),
            final(self).spec_grid() == old(self).spec_grid(),
            final(self).spec_op_x() == old(self).spec_op_x(),
            final(self).spec_op_y() == old(self).spec_op_y(),
    {
        &mut self.current
    }

    /// The current state to read and the next one to write, for one time step.
    pub fn stage(&mut self) -> (r: (&Field<T>, &mut Field<T>))
        ensures
            *r.0 == old(self).spec_current(),
            *r.1 == old(self).spec_next(),
            final(self).spec_current() == old(self).spec_current(),
            final(self).spec_next() == *final(r.1),
            final(self).spec_grid() == old(self).spec_grid(),
            final(self).spec_op_x() == old(self).spec_op_x(),
            final(self).spec_op_y() == old(self).spec_op_y(),
    {
        (&self.current, &mut self.next)
    }

    /// Ends a time step: what was written as the next state becomes the
    /// current one, exactly, and the old current state becomes the buffer
    /// that the following step overwrites.
    pub fn swap(&mut self)
        ensures
            final(self).spec_current() == old(self).spec_next(),
            final(self).spec_next() == old(self).spec_current(),
            final(self).spec_grid() == old(self).spec_grid(),
            final(self).spec_op_x() == old(self).spec_op_x(),
            final(self).spec_op_y() == old(self).spec_op_y(),
            old(self).wf() ==> final(self).wf(),
    {
        std::mem::swap(&mut self.current, &mut self.next);
    }
}

} // verus!
