//! Strings for the widgets the host's theme paints itself.
//!
//! The host asks for each cell of a list or a dialog by index, so every cell
//! is laid out once, before the call, in the order the theme asks for them.
use vstd::prelude::*;

use crate::host::RowCells;
use crate::widgets::list::opt_text_view;

verus! {

/// Every cell of a table, row by row, `stride` cells to a row.
pub struct Cells {
    cells: Vec<Option<String>>,
    stride: usize,
}

impl Cells {
    pub closed spec fn spec_cells(&self) -> Seq<Option<Seq<char>>> {
        self.cells@.map(|i: int, c: Option<String>| opt_text_view(c))
    }

    pub closed spec fn spec_stride(&self) -> usize {
        self.stride
    }

    /// The cell the host finds at `index` and `field`: the one `index *
    /// stride + field` places from the start, or nothing past the end. A field
    /// past the stride runs on into the next row, as the host's indexing does.
    pub open spec fn spec_get(&self, index: int, field: int) -> Option<Seq<char>> {
        let at = index * self.spec_stride() + field;
        if 0 <= at < self.spec_cells().len() {
            self.spec_cells()[at]
        } else {
            None
        }
    }

    /// Every field of every row, in the order the theme asks for them:
    /// title, subtitle, value.
    pub fn rows(rows: &Vec<RowCells>) -> (c: Cells)
        ensures
            c.spec_stride() == 3,
            c.spec_cells().len() == rows@.len() * 3,
            forall|i: int|
                0 <= i < rows@.len() ==> {
                    &&& c.spec_cells()[3 * i] == opt_text_view(#[trigger] rows@[i].title)
                    &&& c.spec_cells()[3 * i + 1] == opt_text_view(rows@[i].subtitle)
                    &&& c.spec_cells()[3 * i + 2] == opt_text_view(rows@[i].value)
                },
    {
        let mut cells: Vec<Option<String>> = Vec::new();
        let mut index: usize = 0;
        while index < rows.len()
            invariant
                index <= rows@.len(),
                cells@.len() == index * 3,
                forall|i: int|
                    0 <= i < index ==> {
                        &&& opt_text_view(cells@[3 * i]) == opt_text_view(#[trigger] rows@[i].title)
                        &&& opt_text_view(cells@[3 * i + 1]) == opt_text_view(rows@[i].subtitle)
                        &&& opt_text_view(cells@[3 * i + 2]) == opt_text_view(rows@[i].value)
                    },
            decreases rows@.len() - index,
        {
            let row = &rows[index];
            cells.push(copy_text(&row.title));
            cells.push(copy_text(&row.subtitle));
            cells.push(copy_text(&row.value));
            index = index + 1;
        }
        let c = Cells { cells, stride: 3 };
        proof {
            assert forall|i: int| 0 <= i < rows@.len() implies {
                &&& c.spec_cells()[3 * i] == opt_text_view(#[trigger] rows@[i].title)
                &&& c.spec_cells()[3 * i + 1] == opt_text_view(rows@[i].subtitle)
                &&& c.spec_cells()[3 * i + 2] == opt_text_view(rows@[i].value)
            } by {
                assert(0 <= 3 * i + 2 < c.cells@.len());
            }
        }
        c
    }

    /// One label per option.
    pub fn options(options: &Vec<String>) -> (c: Cells)
        ensures
            c.spec_stride() == 1,
            c.spec_cells().len() == options@.len(),
            forall|i: int| 0 <= i < options@.len() ==> c.spec_cells()[i] == Some(#[trigger] options@[i]@),
    {
        let mut cells: Vec<Option<String>> = Vec::new();
        let mut index: usize = 0;
        while index < options.len()
            invariant
                index <= options@.len(),
                cells@.len() == index,
                forall|i: int| 0 <= i < index ==> opt_text_view(#[trigger] cells@[i]) == Some(options@[i]@),
            decreases options@.len() - index,
        {
            cells.push(Some(options[index].clone()));
            index = index + 1;
        }
        Cells { cells, stride: 1 }
    }

    /// The cell at `index` and `field`, or `None` past the end or where the
    /// row leaves the field out.
    pub fn get(&self, index: usize, field: usize) -> (t: Option<&str>)
        ensures
            match t {
                Some(s) => self.spec_get(index as int, field as int) == Some(s@),
                None => self.spec_get(index as int, field as int) is None,
            },
    {
        let len = self.cells.len();
        proof {
            assert(self.spec_cells().len() == len);
        }
        let at = match index.checked_mul(self.stride) {
            Some(base) => match base.checked_add(field) {
                Some(at) => at,
                None => return None,
            },
            None => {
                assert(index as int * self.stride as int + field as int > usize::MAX) by (nonlinear_arith)
                    requires
                        index as int * self.stride as int > usize::MAX,
                        field >= 0,
                ;
                return None;
            },
        };
        if at >= len {
            return None;
        }
        match &self.cells[at] {
            Some(text) => Some(text.as_str()),
            None => None,
        }
    }

    /// What the host gets when it asks for row `index`, field `field`: nothing
    /// for a negative index or field, else the cell there.
    pub fn cell(&self, index: i32, field: i32) -> (t: Option<&str>)
        ensures
            index < 0 || field < 0 ==> t is None,
            index >= 0 && field >= 0 ==> match t {
                Some(s) => self.spec_get(index as int, field as int) == Some(s@),
                None => self.spec_get(index as int, field as int) is None,
            },
    {
        if index < 0 || field < 0 {
            return None;
        }
        self.get(index as usize, field as usize)
    }
}

/// An owned copy of an optional text.
fn copy_text(text: &Option<String>) -> (c: Option<String>)
    ensures
        opt_text_view(c) == opt_text_view(*text),
{
    match text {
        Some(t) => Some(t.clone()),
        None => None,
    }
}

} // verus!
