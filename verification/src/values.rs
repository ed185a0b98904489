//! Scalar values, their type tags, and typed columns.
//!
//! A `Float` is carried as the bit pattern of an IEEE-754 binary32 number, so
//! that every value of the library is plain data with a decidable equality.

use vstd::prelude::*;

verus! {

/// The tag of one of the four scalar types.
#[derive(Clone, Copy, Debug, PartialEq, Eq, Structural)]
pub enum Types {
    Int,
    Float,
    String,
    Bool,
}

/// Anything that has one of the four scalar types.
pub trait ToTypes {
    /// The tag, as contracts speak of it.
    spec fn spec_to_types(&self) -> Types;

    /// The tag of this value.
    fn to_types(&self) -> (tag: Types)
        ensures
            tag == self.spec_to_types(),
    ;
}

/// A scalar value.
#[derive(Debug, PartialEq)]
pub enum Value {
    Int(i32),
    /// The bits of a binary32 number.
    Float(u32),
    String(String),
    Bool(bool),
}

/// What a `Value` stands for: the same scalar with its text as a sequence of
/// characters.
pub ghost enum ValueView {
    Int(i32),
    Float(u32),
    Str(Seq<char>),
    Bool(bool),
}

impl ValueView {
    /// The tag of the scalar.
    pub open spec fn types(self) -> Types {
        match self {
            ValueView::Int(_) => Types::Int,
            ValueView::Float(_) => Types::Float,
            ValueView::Str(_) => Types::String,
            ValueView::Bool(_) => Types::Bool,
        }
    }
}

impl View for Value {
    type V = ValueView;

    open spec fn view(&self) -> ValueView {
        match self {
            Value::Int(i) => ValueView::Int(*i),
            Value::Float(bits) => ValueView::Float(*bits),
            Value::String(s) => ValueView::Str(s@),
            Value::Bool(b) => ValueView::Bool(*b),
        }
    }
}

impl Clone for Value {
    fn clone(&self) -> (copy: Value)
        ensures
            copy@ == self@,
    {
        match self {
            Value::Int(i) => Value::Int(*i),
            Value::Float(bits) => Value::Float(*bits),
            Value::String(s) => Value::String(s.clone()),
            Value::Bool(b) => Value::Bool(*b),
        }
    }
}

impl Value {
    /// The integer, if this is one.
    pub fn into_int(self) -> (out: Option<i32>)
        ensures
            out == (match self@ {
                ValueView::Int(i) => Some(i),
                _ => None,
            }),
    {
        match self {
            Value::Int(val) => Some(val),
            _ => None,
        }
    }

    /// The bits of the float, if this is one.
    pub fn into_float(self) -> (out: Option<u32>)
        ensures
            out == (match self@ {
                ValueView::Float(bits) => Some(bits),
                _ => None,
            }),
    {
        match self {
            Value::Float(val) => Some(val),
            _ => None,
        }
    }

    /// The text, if this is a string.
    pub fn into_string(self) -> (out: Option<String>)
        ensures
            match self@ {
                ValueView::Str(s) => out.is_some() && out.unwrap()@ == s,
                _ => out.is_none(),
            },
    {
        match self {
            Value::String(val) => Some(val),
            _ => None,
        }
    }

    /// The truth value, if this is one.
    pub fn into_bool(self) -> (out: Option<bool>)
        ensures
            out == (match self@ {
                ValueView::Bool(b) => Some(b),
                _ => None,
            }),
    {
        match self {
            Value::Bool(val) => Some(val),
            _ => None,
        }
    }
}

impl ToTypes for Value {
    open spec fn spec_to_types(&self) -> Types {
        self@.types()
    }

    fn to_types(&self) -> (tag: Types) {
        match self {
            Value::Int(..) => Types::Int,
            Value::Float(..) => Types::Float,
            Value::String(..) => Types::String,
            Value::Bool(..) => Types::Bool,
        }
    }
}

/// What a `Column` stands for: its tag and its cells, first row first.
pub ghost struct ColumnView {
    pub tag: Types,
    pub cells: Seq<ValueView>,
}

impl ColumnView {
    /// Every cell has the column's type.
    pub open spec fn homogeneous(self) -> bool {
        forall|r: int| 0 <= r < self.cells.len() ==> (#[trigger] self.cells[r]).types() == self.tag
    }
}

/// The cells of `cells` at the positions `rows`, in the order of `rows`.
pub open spec fn pick_rows<A>(cells: Seq<A>, rows: Seq<int>) -> Seq<A> {
    Seq::new(rows.len(), |i: int| cells[rows[i]])
}

/// What is left of `cells` once the positions `rows` are removed, last
/// position first.
pub open spec fn drop_rows<A>(cells: Seq<A>, rows: Seq<int>) -> Seq<A>
    decreases rows.len(),
{
    if rows.len() == 0 {
        cells
    } else {
        drop_rows(cells.remove(rows.last()), rows.drop_last())
    }
}

/// Positions in strictly ascending order, all below `bound`.
pub open spec fn ascending_below(rows: Seq<int>, bound: int) -> bool {
    &&& forall|i: int| 0 <= i < rows.len() ==> 0 <= #[trigger] rows[i] < bound
    &&& forall|i: int, j: int| 0 <= i < j < rows.len() ==> rows[i] < rows[j]
}

/// The positions held in a vector of machine integers.
pub open spec fn positions(rows: Seq<usize>) -> Seq<int> {
    Seq::new(rows.len(), |i: int| rows[i] as int)
}

/// A typed, homogeneous sequence of scalars.
#[derive(Debug, PartialEq)]
pub enum Column {
    Int(Vec<i32>),
    /// The bits of binary32 numbers.
    Float(Vec<u32>),
    String(Vec<String>),
    Bool(Vec<bool>),
}

impl View for Column {
    type V = ColumnView;

    open spec fn view(&self) -> ColumnView {
        match self {
            Column::Int(v) => ColumnView {
                tag: Types::Int,
                cells: Seq::new(v@.len(), |r: int| ValueView::Int(v@[r])),
            },
            Column::Float(v) => ColumnView {
                tag: Types::Float,
                cells: Seq::new(v@.len(), |r: int| ValueView::Float(v@[r])),
            },
            Column::String(v) => ColumnView {
                tag: Types::String,
                cells: Seq::new(v@.len(), |r: int| ValueView::Str(v@[r]@)),
            },
            Column::Bool(v) => ColumnView {
                tag: Types::Bool,
                cells: Seq::new(v@.len(), |r: int| ValueView::Bool(v@[r])),
            },
        }
    }
}

impl Clone for Column {
    fn clone(&self) -> (copy: Column)
        ensures
            copy@ == self@,
    {
        let mut copy = Column::new(self.to_types());
        let mut i: usize = 0;
        while i < self.len()
            invariant
                i <= self@.cells.len(),
                copy@.tag == self@.tag,
                copy@.cells == self@.cells.take(i as int),
            decreases self@.cells.len() - i,
        {
            let cell = self.get(i);
            copy.push(cell);
            i = i + 1;
            assert(copy@.cells =~= self@.cells.take(i as int));
        }
        assert(self@.cells.take(i as int) =~= self@.cells);
        copy
    }
}

impl ToTypes for Column {
    open spec fn spec_to_types(&self) -> Types {
        self@.tag
    }

    fn to_types(&self) -> (tag: Types) {
        match self {
            Column::Int(..) => Types::Int,
            Column::Float(..) => Types::Float,
            Column::String(..) => Types::String,
            Column::Bool(..) => Types::Bool,
        }
    }
}

impl Column {
    /// A column of the given type with no rows.
    pub fn new(tag: Types) -> (column: Column)
        ensures
            column@.tag == tag,
            column@.cells == Seq::<ValueView>::empty(),
    {
        let column = match tag {
            Types::Int => Column::Int(Vec::new()),
            Types::Float => Column::Float(Vec::new()),
            Types::String => Column::String(Vec::new()),
            Types::Bool => Column::Bool(Vec::new()),
        };
        assert(column@.cells =~= Seq::<ValueView>::empty());
        column
    }

    /// A column holds only cells of its own type.
    pub proof fn lemma_homogeneous(&self)
        ensures
            self@.homogeneous(),
    {
    }

    /// The number of rows.
    pub fn len(&self) -> (n: usize)
        ensures
            n == self@.cells.len(),
    {
        match self {
            Column::Int(v) => v.len(),
            Column::Float(v) => v.len(),
            Column::String(v) => v.len(),
            Column::Bool(v) => v.len(),
        }
    }

    /// The cell at `row`.
    pub fn get(&self, row: usize) -> (cell: Value)
        requires
            row < self@.cells.len(),
        ensures
            cell@ == self@.cells[row as int],
            cell@.types() == self@.tag,
    {
        match self {
            Column::Int(v) => Value::Int(v[row]),
            Column::Float(v) => Value::Float(v[row]),
            Column::String(v) => Value::String(v[row].clone()),
            Column::Bool(v) => Value::Bool(v[row]),
        }
    }

    /// Overwrites the cell at `row` with a value of the column's type.
    pub fn set(&mut self, row: usize, value: Value)
        requires
            row < old(self)@.cells.len(),
            value@.types() == old(self)@.tag,
        ensures
            final(self)@.tag == old(self)@.tag,
            final(self)@.cells == old(self)@.cells.update(row as int, value@),
    {
        match (self, value) {
            (Column::Int(v), Value::Int(x)) => {
                v[row] = x;
                assert(Column::Int(*v)@.cells =~= old(self)@.cells.update(row as int, value@));
            },
            (Column::Float(v), Value::Float(x)) => {
                v[row] = x;
                assert(Column::Float(*v)@.cells =~= old(self)@.cells.update(row as int, value@));
            },
            (Column::String(v), Value::String(x)) => {
                v[row] = x;
                assert(Column::String(*v)@.cells =~= old(self)@.cells.update(row as int, value@));
            },
            (Column::Bool(v), Value::Bool(x)) => {
                v[row] = x;
                assert(Column::Bool(*v)@.cells =~= old(self)@.cells.update(row as int, value@));
            },
            _ => {},
        }
    }

    /// Appends a value of the column's type as the last row.
    pub fn push(&mut self, value: Value)
        requires
            value@.types() == old(self)@.tag,
        ensures
            final(self)@.tag == old(self)@.tag,
            final(self)@.cells == old(self)@.cells.push(value@),
    {
        match (self, value) {
            (Column::Int(v), Value::Int(x)) => {
                v.push(x);
                assert(Column::Int(*v)@.cells =~= old(self)@.cells.push(value@));
            },
            (Column::Float(v), Value::Float(x)) => {
                v.push(x);
                assert(Column::Float(*v)@.cells =~= old(self)@.cells.push(value@));
            },
            (Column::String(v), Value::String(x)) => {
                v.push(x);
                assert(Column::String(*v)@.cells =~= old(self)@.cells.push(value@));
            },
            (Column::Bool(v), Value::Bool(x)) => {
                v.push(x);
                assert(Column::Bool(*v)@.cells =~= old(self)@.cells.push(value@));
            },
            _ => {},
        }
    }

    /// Removes the row at `row`; later rows move up by one.
    pub fn remove(&mut self, row: usize)
        requires
            row < old(self)@.cells.len(),
        ensures
            final(self)@.tag == old(self)@.tag,
            final(self)@.cells == old(self)@.cells.remove(row as int),
    {
        match self {
            Column::Int(v) => {
                v.remove(row);
                assert(Column::Int(*v)@.cells =~= old(self)@.cells.remove(row as int));
            },
            Column::Float(v) => {
                v.remove(row);
                assert(Column::Float(*v)@.cells =~= old(self)@.cells.remove(row as int));
            },
            Column::String(v) => {
                v.remove(row);
                assert(Column::String(*v)@.cells =~= old(self)@.cells.remove(row as int));
            },
            Column::Bool(v) => {
                v.remove(row);
                assert(Column::Bool(*v)@.cells =~= old(self)@.cells.remove(row as int));
            },
        }
    }

    /// Removes the rows at the positions `rows`, the last of them first, so
    /// that the positions not yet removed stay valid.
    pub fn remove_rows(&mut self, rows: &Vec<usize>)
        requires
            ascending_below(positions(rows@), old(self)@.cells.len() as int),
        ensures
            final(self)@.tag == old(self)@.tag,
            final(self)@.cells == drop_rows(old(self)@.cells, positions(rows@)),
    {
        let ghost all = positions(rows@);
        let mut i: usize = rows.len();
        assert(all.take(i as int) =~= all);
        while i > 0
            invariant
                i <= rows.len(),
                all == positions(rows@),
                ascending_below(all, old(self)@.cells.len() as int),
                self@.tag == old(self)@.tag,
                self@.cells.len() + rows.len() - i == old(self)@.cells.len(),
                drop_rows(self@.cells, all.take(i as int)) == drop_rows(old(self)@.cells, all),
            decreases i,
        {
            i = i - 1;
            let row: usize = rows[i];
            proof {
                let head = all.take(i as int + 1);
                assert(head.last() == row as int);
                assert(head.drop_last() =~= all.take(i as int));
                assert(all[i as int] == row as int);
                assert(forall|k: int| 0 <= k < i ==> all[k] < all[i as int]);
                lemma_ascending_room(all, old(self)@.cells.len() as int, i as int);
            }
            self.remove(row);
        }
        assert(all.take(0) =~= Seq::<int>::empty());
    }

    /// A new column of the same type that holds the cells at the positions
    /// `rows`, in that order.
    pub fn project(&self, rows: &Vec<usize>) -> (out: Column)
        requires
            forall|i: int| 0 <= i < rows@.len() ==> (#[trigger] rows@[i]) < self@.cells.len(),
        ensures
            out@.tag == self@.tag,
            out@.cells == pick_rows(self@.cells, positions(rows@)),
    {
        let mut out = Column::new(self.to_types());
        let mut i: usize = 0;
        while i < rows.len()
            invariant
                i <= rows.len(),
                forall|k: int| 0 <= k < rows@.len() ==> (#[trigger] rows@[k]) < self@.cells.len(),
                out@.tag == self@.tag,
                out@.cells == pick_rows(self@.cells, positions(rows@).take(i as int)),
            decreases rows.len() - i,
        {
            let cell = self.get(rows[i]);
            out.push(cell);
            i = i + 1;
            assert(out@.cells =~= pick_rows(self@.cells, positions(rows@).take(i as int)));
        }
        assert(positions(rows@).take(i as int) =~= positions(rows@));
        out
    }
}

/// In a strictly ascending sequence of positions below `bound`, as many
/// positions lie between the one at place `i` and `bound` as places follow `i`.
pub proof fn lemma_ascending_room(rows: Seq<int>, bound: int, i: int)
    requires
        ascending_below(rows, bound),
        0 <= i < rows.len(),
    ensures
        rows[i] + (rows.len() - i) <= bound,
    decreases rows.len() - i,
{
    if i + 1 < rows.len() {
        lemma_ascending_room(rows, bound, i + 1);
    }
}

/// Without its last position, a strictly ascending sequence of positions
/// is strictly ascending and lies below that last position.
pub proof fn lemma_ascending_rest(rows: Seq<int>, bound: int)
    requires
        ascending_below(rows, bound),
        rows.len() > 0,
    ensures
        ascending_below(rows.drop_last(), rows.last()),
        ascending_below(rows.drop_last(), bound - 1),
        0 <= rows.last() < bound,
{
    let rest = rows.drop_last();
    assert forall|i: int| 0 <= i < rest.len() implies 0 <= #[trigger] rest[i] < rows.last() by {
        assert(rest[i] == rows[i]);
        assert(rows[i] < rows[rows.len() - 1]);
    }
    assert forall|i: int, j: int| 0 <= i < j < rest.len() implies rest[i] < rest[j] by {
        assert(rest[i] == rows[i] && rest[j] == rows[j]);
    }
}

/// What holds of every cell outside the removed positions holds of every
/// cell that is left.
pub proof fn lemma_drop_rows_keeps<A>(cells: Seq<A>, rows: Seq<int>, kept: spec_fn(A) -> bool)
    requires
        ascending_below(rows, cells.len() as int),
        forall|i: int| 0 <= i < cells.len() && !rows.contains(i) ==> kept(#[trigger] cells[i]),
    ensures
        drop_rows(cells, rows).len() == cells.len() - rows.len(),
        forall|j: int| 0 <= j < drop_rows(cells, rows).len() ==> kept(#[trigger] drop_rows(cells, rows)[j]),
    decreases rows.len(),
{
    if rows.len() > 0 {
        let last = rows.last();
        let rest = rows.drop_last();
        let fewer = cells.remove(last);
        lemma_ascending_rest(rows, cells.len() as int);
        assert forall|i: int| 0 <= i < fewer.len() && !rest.contains(i) implies kept(
            #[trigger] fewer[i],
        ) by {
            let source = if i < last {
                i
            } else {
                i + 1
            };
            assert(fewer[i] == cells[source]);
            if rows.contains(source) {
                let at = choose|at: int| 0 <= at < rows.len() && rows[at] == source;
                if at < rows.len() - 1 {
                    assert(rest[at] == source);
                    assert(rows[at] < rows[rows.len() - 1]);
                    assert(rest.contains(i));
                }
            }
        }
        lemma_drop_rows_keeps(fewer, rest, kept);
    }
}

} // verus!
