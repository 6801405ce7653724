use vstd::prelude::*;

verus! {

/// Why a grid could not be built.
#[derive(Clone, Copy, Debug, PartialEq, Eq, Structural)]
pub enum GridError {
    /// The `x` coordinates are not `width * height` values.
    XLength,
    /// The `y` coordinates are not `width * height` values.
    YLength,
}

/// The nodes of a structured `height x width` mesh, row after row, as two
/// flattened coordinate arrays of one shape. It does not change once built.
pub struct Grid<T> {
    width: usize,
    height: usize,
    x: Vec<T>,
    y: Vec<T>,
}

impl<T> Grid<T> {
    pub closed spec fn spec_width(&self) -> int {
        self.width as int
    }

    pub closed spec fn spec_height(&self) -> int {
        self.height as int
    }

    pub closed spec fn x_view(&self) -> Seq<T> {
        self.x@
    }

    pub closed spec fn y_view(&self) -> Seq<T> {
        self.y@
    }

    /// Both coordinate arrays hold one value per node.
    pub open spec fn wf(&self) -> bool {
        &&& self.x_view().len() == self.spec_width() * self.spec_height()
        &&& self.y_view().len() == self.spec_width() * self.spec_height()
    }

    /// Builds a grid from flattened coordinates. It fails, and never
    /// reshapes, when either array does not hold exactly `width * height`
    /// values; `x` is checked first.
    pub fn new(width: u32, height: u32, x: Vec<T>, y: Vec<T>) -> (r: Result<Grid<T>, GridError>)
        ensures
            r is Ok <==> (x@.len() == width * height && y@.len() == width * height),
            x@.len() != width * height ==> r == Err::<Grid<T>, _>(GridError::XLength),
            x@.len() == width * height && y@.len() != width * height ==> r == Err::<
                Grid<T>,
                _,
            >(GridError::YLength),
            r matches Ok(g) ==> {
                &&& g.wf()
                &&& g.spec_width() == width
                &&& g.spec_height() == height
                &&& g.x_view() == x@
                &&& g.y_view() == y@
            },
    {
        let w: u64 = width as u64;
        let h: u64 = height as u64;
        assert(w * h <= 0xffff_ffff * 0xffff_ffff) by (nonlinear_arith)
            requires
                w <= 0xffff_ffff,
                h <= 0xffff_ffff,
        ;
        let nodes: u64 = w * h;
        if x.len() as u64 != nodes {
            return Err(GridError::XLength);
        }
        if y.len() as u64 != nodes {
            return Err(GridError::YLength);
        }
        Ok(Grid { width: width as usize, height: height as usize, x, y })
    }

    /// Number of nodes along a row.
    pub fn width(&self) -> (r: usize)
        ensures
            r == self.spec_width(),
    {
        self.width
    }

    /// Number of rows.
    pub fn height(&self) -> (r: usize)
        ensures
            r == self.spec_height(),
    {
        self.height
    }

    /// The `x` coordinate of every node, row after row.
    pub fn x(&self) -> (r: &Vec<T>)
        ensures
            r@ == self.x_view(),
    {
        &self.x
    }

    /// The `y` coordinate of every node, row after row.
    pub fn y(&self) -> (r: &Vec<T>)
        ensures
            r@ == self.y_view(),
    {
        &self.y
    }
}

} // verus!
