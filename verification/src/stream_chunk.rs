//! Chunks of change rows passed over the streaming pathway: a batch of
//! rows in column form, each row tagged with the operation it carries,
//! with an optional visibility map that hides filtered rows.

use vstd::prelude::*;

verus! {

/// The operation a row carries. `UpdateDelete` and `UpdateInsert`
/// always appear in pairs and together represent an update.
#[derive(Clone, Copy, Debug, PartialOrd, Ord, PartialEq, Eq, Hash, Structural)]
pub enum Op {
    Insert,
    Delete,
    UpdateDelete,
    UpdateInsert,
}

/// One cell value.
#[derive(Debug)]
pub enum ScalarImpl {
    Int64(i64),
    Int32(i32),
    Bool(bool),
    Utf8(String),
}

impl Clone for ScalarImpl {
    /// A cloned cell holds the same value.
    fn clone(&self) -> (r: ScalarImpl)
        ensures
            r == *self,
    {
        match self {
            ScalarImpl::Int64(v) => ScalarImpl::Int64(*v),
            ScalarImpl::Int32(v) => ScalarImpl::Int32(*v),
            ScalarImpl::Bool(v) => ScalarImpl::Bool(*v),
            ScalarImpl::Utf8(s) => ScalarImpl::Utf8(s.clone()),
        }
    }
}

/// A cell: a value, or NULL.
pub type Datum = Option<ScalarImpl>;

/// One column of cells.
pub type ArrayRef = Vec<Datum>;

/// The column type of a chunk column.
#[derive(Clone, Copy, Debug, PartialEq, Eq, Structural)]
pub enum DataType {
    Int64,
    Int32,
    Boolean,
    Varchar,
}

/// A row in owned form, one cell per column.
pub type OwnedRow = Vec<Datum>;

/// Which rows of a chunk are visible.
#[derive(Clone, Debug)]
pub struct Bitmap {
    pub bits: Vec<bool>,
}

/// Count of set bits.
pub open spec fn count_ones(bits: Seq<bool>) -> int
    decreases bits.len(),
{
    if bits.len() == 0 {
        0
    } else {
        count_ones(bits.drop_last()) + if bits.last() {
            1int
        } else {
            0int
        }
    }
}

/// The elements of `s` whose bit is set.
pub open spec fn filter_visible<T>(s: Seq<T>, bits: Seq<bool>) -> Seq<T>
    decreases s.len(),
{
    if s.len() == 0 || bits.len() < s.len() {
        Seq::empty()
    } else if bits[s.len() - 1] {
        filter_visible(s.drop_last(), bits) + seq![s.last()]
    } else {
        filter_visible(s.drop_last(), bits)
    }
}

/// Visibility of a chunk: an explicit map, or all rows visible.
#[derive(Clone, Debug)]
pub enum Vis {
    Bitmap(Bitmap),
    Compact(usize),
}

impl Vis {
    /// Number of rows the visibility covers.
    pub open spec fn spec_len(self) -> int {
        match self {
            Vis::Bitmap(b) => b.bits@.len() as int,
            Vis::Compact(n) => n as int,
        }
    }

    /// Number of visible rows.
    pub open spec fn spec_cardinality(self) -> int {
        match self {
            Vis::Bitmap(b) => count_ones(b.bits@),
            Vis::Compact(n) => n as int,
        }
    }

    pub open spec fn into_visibility(self) -> Option<Bitmap> {
        match self {
            Vis::Bitmap(b) => Option::Some(b),
            Vis::Compact(_) => Option::None,
        }
    }
}

/// A batch of rows in column form.
#[derive(Clone, Debug)]
pub struct DataChunk {
    columns: Vec<ArrayRef>,
    vis: Vis,
}

impl DataChunk {
    /// Every column covers exactly the rows of the visibility.
    pub closed spec fn wf(self) -> bool {
        forall|c: int|
            0 <= c < self.columns@.len() ==> (#[trigger] self.columns@[c])@.len()
                == self.vis.spec_len()
    }

    pub closed spec fn spec_columns(self) -> Seq<ArrayRef> {
        self.columns@
    }

    pub closed spec fn spec_vis(self) -> Vis {
        self.vis
    }

    pub fn new(columns: Vec<ArrayRef>, vis: Vis) -> (r: DataChunk)
        ensures
            r.spec_columns() == columns@,
            r.spec_vis() == vis,
    {
        DataChunk { columns, vis }
    }

    /// Number of visible rows.
    pub fn cardinality(&self) -> (r: usize)
        requires
            self.wf(),
        ensures
            r == self.spec_vis().spec_cardinality(),
    {
        match &self.vis {
            Vis::Compact(n) => *n,
            Vis::Bitmap(b) => {
                let mut count: usize = 0;
                let mut i: usize = 0;
                assert(b.bits@.take(0) =~= Seq::<bool>::empty());
                while i < b.bits.len()
                    invariant
                        i <= b.bits@.len(),
                        count == count_ones(b.bits@.take(i as int)),
                        count <= i,
                    decreases b.bits@.len() - i,
                {
                    proof {
                        assert(b.bits@.take(i + 1).drop_last() =~= b.bits@.take(i as int));
                    }
                    if b.bits[i] {
                        count = count + 1;
                    }
                    i = i + 1;
                }
                assert(b.bits@.take(b.bits@.len() as int) =~= b.bits@);
                count
            },
        }
    }

    /// Physical number of rows, visible or not.
    pub fn capacity(&self) -> (r: usize)
        requires
            self.wf(),
        ensures
            r == self.spec_vis().spec_len(),
    {
        match &self.vis {
            Vis::Compact(n) => *n,
            Vis::Bitmap(b) => b.bits.len(),
        }
    }

    pub fn columns(&self) -> (r: &Vec<ArrayRef>)
        ensures
            r@ == self.spec_columns(),
    {
        &self.columns
    }

    pub fn column_at(&self, index: usize) -> (r: &ArrayRef)
        requires
            index < self.spec_columns().len(),
        ensures
            *r == self.spec_columns()[index as int],
    {
        &self.columns[index]
    }

    pub fn visibility(&self) -> (r: Option<&Bitmap>)
        ensures
            match r {
                Option::Some(b) => self.spec_vis() is Bitmap && *b == self.spec_vis()->Bitmap_0,
                Option::None => self.spec_vis() is Compact,
            },
    {
        match &self.vis {
            Vis::Bitmap(b) => Option::Some(b),
            Vis::Compact(_) => Option::None,
        }
    }

    pub fn into_parts(self) -> (r: (Vec<ArrayRef>, Vis))
        ensures
            r.0@ == self.spec_columns(),
            r.1 == self.spec_vis(),
    {
        (self.columns, self.vis)
    }
}

/// The batch of change rows an operator hands downstream: operations,
/// column data, and visibility.
#[derive(Clone, Debug)]
pub struct StreamChunk {
    ops: Vec<Op>,
    data: DataChunk,
}

impl StreamChunk {
    /// Row count, operations, columns and visibility all line up.
    pub closed spec fn wf(self) -> bool {
        &&& self.data.wf()
        &&& self.ops@.len() == self.data.spec_vis().spec_len()
    }

    pub closed spec fn spec_ops(self) -> Seq<Op> {
        self.ops@
    }

    pub closed spec fn spec_data(self) -> DataChunk {
        self.data
    }

    /// Builds a chunk over columns of equal length; rows without an
    /// explicit visibility map are all visible.
    pub fn new(ops: Vec<Op>, columns: Vec<ArrayRef>, visibility: Option<Bitmap>) -> (r: StreamChunk)
        requires
            forall|c: int| 0 <= c < columns@.len() ==> (#[trigger] columns@[c])@.len() == ops@.len(),
            match visibility {
                Option::Some(b) => b.bits@.len() == ops@.len(),
                Option::None => true,
            },
        ensures
            r.wf(),
            r.spec_ops() == ops@,
            r.spec_data().spec_columns() == columns@,
            r.spec_data().spec_vis() == match visibility {
                Option::Some(b) => Vis::Bitmap(b),
                Option::None => Vis::Compact(ops@.len() as usize),
            },
    {
        let vis = match visibility {
            Option::Some(b) => Vis::Bitmap(b),
            Option::None => Vis::Compact(ops.len()),
        };
        let data = DataChunk::new(columns, vis);
        StreamChunk { ops, data }
    }

    /// Builds a chunk from rows, transposing them into columns.
    pub fn from_rows(rows: &Vec<(Op, OwnedRow)>, data_types: &Vec<DataType>) -> (r: StreamChunk)
        requires
            forall|i: int| 0 <= i < rows@.len() ==> (#[trigger] rows@[i]).1@.len() == data_types@.len(),
        ensures
            r.wf(),
            r.spec_ops().len() == rows@.len(),
            forall|i: int| 0 <= i < rows@.len() ==> r.spec_ops()[i] == (#[trigger] rows@[i]).0,
            r.spec_data().spec_columns().len() == data_types@.len(),
            forall|c: int, i: int|
                0 <= c < data_types@.len() && 0 <= i < rows@.len()
                    ==> (#[trigger] r.spec_data().spec_columns()[c]@[i]) == rows@[i].1@[c],
            r.spec_data().spec_vis() == Vis::Compact(rows@.len() as usize),
    {
        let mut ops: Vec<Op> = Vec::new();
        let mut i: usize = 0;
        while i < rows.len()
            invariant
                i <= rows@.len(),
                ops@.len() == i,
                forall|w: int| 0 <= w < i ==> ops@[w] == (#[trigger] rows@[w]).0,
            decreases rows@.len() - i,
        {
            ops.push(rows[i].0);
            i = i + 1;
        }
        let mut columns: Vec<ArrayRef> = Vec::new();
        let mut c: usize = 0;
        while c < data_types.len()
            invariant
                c <= data_types@.len(),
                columns@.len() == c,
                forall|i2: int| 0 <= i2 < rows@.len() ==> (#[trigger] rows@[i2]).1@.len()
                    == data_types@.len(),
                forall|w: int| 0 <= w < c ==> (#[trigger] columns@[w])@.len() == rows@.len(),
                forall|w: int, i2: int|
                    0 <= w < c && 0 <= i2 < rows@.len()
                        ==> (#[trigger] columns@[w]@[i2]) == rows@[i2].1@[w],
            decreases data_types@.len() - c,
        {
            let mut col: ArrayRef = Vec::new();
            let mut i2: usize = 0;
            while i2 < rows.len()
                invariant
                    i2 <= rows@.len(),
                    c < data_types@.len(),
                    forall|i3: int| 0 <= i3 < rows@.len() ==> (#[trigger] rows@[i3]).1@.len()
                        == data_types@.len(),
                    col@.len() == i2,
                    forall|w: int| 0 <= w < i2 ==> (#[trigger] col@[w]) == rows@[w].1@[c as int],
                decreases rows@.len() - i2,
            {
                let cell = rows[i2].1[c].clone();
                proof {
                    assert(cell == rows@[i2 as int].1@[c as int]);
                }
                col.push(cell);
                i2 = i2 + 1;
            }
            columns.push(col);
            c = c + 1;
        }
        let n = ops.len();
        let data = DataChunk::new(columns, Vis::Compact(n));
        StreamChunk { ops, data }
    }

    /// Number of visible rows.
    pub fn cardinality(&self) -> (r: usize)
        requires
            self.wf(),
        ensures
            r == self.spec_data().spec_vis().spec_cardinality(),
    {
        self.data.cardinality()
    }

    /// Physical row count of the operations and columns.
    pub fn capacity(&self) -> (r: usize)
        requires
            self.wf(),
        ensures
            r == self.spec_data().spec_vis().spec_len(),
    {
        self.data.capacity()
    }

    pub fn data_chunk(&self) -> (r: &DataChunk)
        ensures
            *r == self.spec_data(),
    {
        &self.data
    }

    pub fn columns(&self) -> (r: &Vec<ArrayRef>)
        ensures
            r@ == self.spec_data().spec_columns(),
    {
        self.data.columns()
    }

    pub fn column_at(&self, index: usize) -> (r: &ArrayRef)
        requires
            index < self.spec_data().spec_columns().len(),
        ensures
            *r == self.spec_data().spec_columns()[index as int],
    {
        self.data.column_at(index)
    }

    /// Drops the rows the visibility map hides, leaving every row of
    /// the result visible.
    pub fn compact(self) -> (r: StreamChunk)
        requires
            self.wf(),
        ensures
            r.wf(),
            match self.spec_data().spec_vis() {
                Vis::Compact(_) => r == self,
                Vis::Bitmap(b) => {
                    &&& r.spec_ops() == filter_visible(self.spec_ops(), b.bits@)
                    &&& r.spec_data().spec_columns().len()
                        == self.spec_data().spec_columns().len()
                    &&& forall|c: int|
                        0 <= c < r.spec_data().spec_columns().len()
                            ==> (#[trigger] r.spec_data().spec_columns()[c])@ == filter_visible(
                            self.spec_data().spec_columns()[c]@,
                            b.bits@,
                        )
                    &&& r.spec_data().spec_vis() is Compact
                },
            },
    {
        let is_compact = match self.data.visibility() {
            Option::None => true,
            Option::Some(_) => false,
        };
        if is_compact {
            return self;
        }
        let (ops, data) = (self.ops, self.data);
        let (columns, vis) = data.into_parts();
        match vis {
            Vis::Compact(n) => {
                StreamChunk { ops, data: DataChunk::new(columns, Vis::Compact(n)) }
            },
            Vis::Bitmap(b) => {
                let new_ops = filter_ops(&ops, &b.bits);
                let mut new_columns: Vec<ArrayRef> = Vec::new();
                let mut c: usize = 0;
                while c < columns.len()
                    invariant
                        c <= columns@.len(),
                        new_columns@.len() == c,
                        forall|w: int| 0 <= w < columns@.len()
                            ==> (#[trigger] columns@[w])@.len() == b.bits@.len(),
                        forall|w: int|
                            0 <= w < c ==> (#[trigger] new_columns@[w])@ == filter_visible(
                                columns@[w]@,
                                b.bits@,
                            ),
                    decreases columns@.len() - c,
                {
                    let filtered = filter_datums(&columns[c], &b.bits);
                    new_columns.push(filtered);
                    c = c + 1;
                }
                let card = new_ops.len();
                proof {
                    lemma_filter_visible_len(ops@, b.bits@);
                    assert forall|w: int| 0 <= w < new_columns@.len() implies (
                    #[trigger] new_columns@[w])@.len() == filter_visible(ops@, b.bits@).len() by {
                        lemma_filter_visible_len(columns@[w]@, b.bits@);
                    }
                }
                StreamChunk {
                    ops: new_ops,
                    data: DataChunk::new(new_columns, Vis::Compact(card)),
                }
            },
        }
    }

    pub fn into_parts(self) -> (r: (DataChunk, Vec<Op>))
        ensures
            r.0 == self.spec_data(),
            r.1@ == self.spec_ops(),
    {
        (self.data, self.ops)
    }

    pub fn from_parts(ops: Vec<Op>, data_chunk: DataChunk) -> (r: StreamChunk)
        requires
            ops@.len() == data_chunk.spec_vis().spec_len(),
            data_chunk.wf(),
        ensures
            r.wf(),
            r.spec_ops() == ops@,
            r.spec_data().spec_columns() == data_chunk.spec_columns(),
    {
        let (columns, vis) = data_chunk.into_parts();
        let visibility = match vis {
            Vis::Bitmap(b) => Option::Some(b),
            Vis::Compact(_) => Option::None,
        };
        StreamChunk::new(ops, columns, visibility)
    }

    pub fn into_inner(self) -> (r: (Vec<Op>, Vec<ArrayRef>, Option<Bitmap>))
        ensures
            r.0@ == self.spec_ops(),
            r.1@ == self.spec_data().spec_columns(),
            r.2 == self.spec_data().spec_vis().into_visibility(),
    {
        let (columns, vis) = self.data.into_parts();
        let visibility = match vis {
            Vis::Bitmap(b) => Option::Some(b),
            Vis::Compact(_) => Option::None,
        };
        (self.ops, columns, visibility)
    }

    pub fn ops(&self) -> (r: &Vec<Op>)
        ensures
            r@ == self.spec_ops(),
    {
        &self.ops
    }

    pub fn visibility(&self) -> (r: Option<&Bitmap>)
        ensures
            match r {
                Option::Some(b) => self.spec_data().spec_vis() is Bitmap && *b
                    == self.spec_data().spec_vis()->Bitmap_0,
                Option::None => self.spec_data().spec_vis() is Compact,
            },
    {
        self.data.visibility()
    }

    /// Reorders (and possibly removes) columns: column `i` of the
    /// result is column `column_mapping[i]` of the input.
    pub fn reorder_columns(self, column_mapping: &Vec<usize>) -> (r: StreamChunk)
        requires
            forall|i: int|
                0 <= i < column_mapping@.len() ==> (#[trigger] column_mapping@[i])
                    < self.spec_data().spec_columns().len(),
        ensures
            r.spec_ops() == self.spec_ops(),
            r.spec_data().spec_columns().len() == column_mapping@.len(),
            forall|i: int|
                0 <= i < column_mapping@.len() ==> (#[trigger] r.spec_data().spec_columns()[i])@
                    == self.spec_data().spec_columns()[column_mapping@[i] as int]@,
            r.spec_data().spec_vis() == self.spec_data().spec_vis(),
    {
        let (columns, vis) = self.data.into_parts();
        let mut new_columns: Vec<ArrayRef> = Vec::new();
        let mut i: usize = 0;
        while i < column_mapping.len()
            invariant
                i <= column_mapping@.len(),
                new_columns@.len() == i,
                forall|w: int|
                    0 <= w < column_mapping@.len() ==> (#[trigger] column_mapping@[w])
                        < columns@.len(),
                forall|w: int|
                    0 <= w < i ==> (#[trigger] new_columns@[w])@
                        == columns@[column_mapping@[w] as int]@,
            decreases column_mapping@.len() - i,
        {
            let col = clone_datums(&columns[column_mapping[i]]);
            proof {
                assert(col@ == columns@[column_mapping@[i as int] as int]@);
            }
            new_columns.push(col);
            i = i + 1;
        }
        StreamChunk { ops: self.ops, data: DataChunk::new(new_columns, vis) }
    }
}

/// Growing the run by one element grows the filtered run exactly when
/// the element's bit is set.
proof fn lemma_filter_visible_take_succ<T>(s: Seq<T>, bits: Seq<bool>, k: int)
    requires
        0 <= k < s.len(),
        s.len() <= bits.len(),
    ensures
        filter_visible(s.take(k + 1), bits) == if bits[k] {
            filter_visible(s.take(k), bits) + seq![s[k]]
        } else {
            filter_visible(s.take(k), bits)
        },
{
    assert(s.take(k + 1).drop_last() =~= s.take(k));
    assert(s.take(k + 1).last() == s[k]);
}

/// A filtered run holds one element per set bit over its length.
proof fn lemma_filter_visible_len<T>(s: Seq<T>, bits: Seq<bool>)
    requires
        s.len() <= bits.len(),
    ensures
        filter_visible(s, bits).len() == count_ones(bits.take(s.len() as int)),
    decreases s.len(),
{
    if s.len() == 0 {
        assert(bits.take(0) =~= Seq::<bool>::empty());
    } else {
        lemma_filter_visible_len(s.drop_last(), bits);
        assert(bits.take(s.len() as int).drop_last() =~= bits.take(s.len() - 1));
        if bits[s.len() - 1] {
            let rest = filter_visible(s.drop_last(), bits);
            assert((rest + seq![s.last()]).len() == rest.len() + 1);
        }
    }
}

/// Keeps the operations of visible rows.
fn filter_ops(ops: &Vec<Op>, bits: &Vec<bool>) -> (r: Vec<Op>)
    requires
        ops@.len() == bits@.len(),
    ensures
        r@ == filter_visible(ops@, bits@),
{
    let mut r: Vec<Op> = Vec::new();
    let mut i: usize = 0;
    assert(ops@.take(0) =~= Seq::<Op>::empty());
    while i < ops.len()
        invariant
            i <= ops@.len(),
            ops@.len() == bits@.len(),
            r@ == filter_visible(ops@.take(i as int), bits@),
        decreases ops@.len() - i,
    {
        proof {
            lemma_filter_visible_take_succ(ops@, bits@, i as int);
        }
        if bits[i] {
            r.push(ops[i]);
        }
        i = i + 1;
    }
    assert(ops@.take(ops@.len() as int) =~= ops@);
    r
}

/// Keeps the cells of visible rows.
fn filter_datums(col: &Vec<Datum>, bits: &Vec<bool>) -> (r: Vec<Datum>)
    requires
        col@.len() == bits@.len(),
    ensures
        r@ == filter_visible(col@, bits@),
{
    let mut r: Vec<Datum> = Vec::new();
    let mut i: usize = 0;
    assert(col@.take(0) =~= Seq::<Datum>::empty());
    while i < col.len()
        invariant
            i <= col@.len(),
            col@.len() == bits@.len(),
            r@ == filter_visible(col@.take(i as int), bits@),
        decreases col@.len() - i,
    {
        proof {
            lemma_filter_visible_take_succ(col@, bits@, i as int);
        }
        if bits[i] {
            let cell = col[i].clone();
            proof {
                assert(cell == col@[i as int]);
            }
            r.push(cell);
        }
        i = i + 1;
    }
    assert(col@.take(col@.len() as int) =~= col@);
    r
}

/// Clones a column cell for cell.
fn clone_datums(col: &Vec<Datum>) -> (r: Vec<Datum>)
    ensures
        r@ == col@,
{
    let mut r: Vec<Datum> = Vec::new();
    let mut i: usize = 0;
    while i < col.len()
        invariant
            i <= col@.len(),
            r@ == col@.take(i as int),
        decreases col@.len() - i,
    {
        let cell = col[i].clone();
        proof {
            assert(cell == col@[i as int]);
            assert(col@.take(i + 1) =~= col@.take(i as int) + seq![col@[i as int]]);
        }
        r.push(cell);
        i = i + 1;
    }
    assert(col@.take(col@.len() as int) =~= col@);
    r
}

impl StreamChunk {
    /// Reports whether the chunk's layout is consistent.
    fn is_valid(&self) -> (r: bool)
        ensures
            r == self.wf(),
    {
        let len = self.ops.len();
        let cap = match &self.data.vis {
            Vis::Compact(n) => *n,
            Vis::Bitmap(b) => b.bits.len(),
        };
        if cap != len {
            return false;
        }
        let mut c: usize = 0;
        while c < self.data.columns.len()
            invariant
                c <= self.data.columns@.len(),
                len == self.ops@.len(),
                len == self.data.vis.spec_len(),
                forall|w: int|
                    0 <= w < c ==> (#[trigger] self.data.columns@[w])@.len() == len,
            decreases self.data.columns@.len() - c,
        {
            if self.data.columns[c].len() != len {
                return false;
            }
            c = c + 1;
        }
        true
    }

    /// Concatenates consistent, fully-visible chunks of equal width.
    fn concat_of(chunks: Vec<StreamChunk>) -> (r: StreamChunk)
        requires
            chunks@.len() >= 1,
            forall|i: int| 0 <= i < chunks@.len() ==> (#[trigger] chunks@[i]).wf(),
            forall|i: int|
                0 <= i < chunks@.len() ==> (#[trigger] chunks@[i]).spec_data().spec_vis() is Compact,
            forall|i: int|
                0 <= i < chunks@.len() ==> (#[trigger] chunks@[i]).spec_data().spec_columns().len()
                    == chunks@[0].spec_data().spec_columns().len(),
        ensures
            r.wf(),
            r.spec_data().spec_columns().len() == chunks@[0].spec_data().spec_columns().len(),
    {
        let ncols = chunks[0].data.columns.len();
        let mut ops: Vec<Op> = Vec::new();
        let mut columns: Vec<ArrayRef> = Vec::new();
        let mut c: usize = 0;
        while c < ncols
            invariant
                c <= ncols,
                columns@.len() == c,
                ops@.len() == 0,
                forall|w: int| 0 <= w < c ==> (#[trigger] columns@[w])@.len() == 0,
            decreases ncols - c,
        {
            let col: ArrayRef = Vec::new();
            columns.push(col);
            c = c + 1;
        }
        let mut i: usize = 0;
        while i < chunks.len()
            invariant
                i <= chunks@.len(),
                columns@.len() == ncols,
                ncols == chunks@[0].spec_data().spec_columns().len(),
                forall|w: int| 0 <= w < chunks@.len() ==> (#[trigger] chunks@[w]).wf(),
                forall|w: int|
                    0 <= w < chunks@.len()
                        ==> (#[trigger] chunks@[w]).spec_data().spec_vis() is Compact,
                forall|w: int|
                    0 <= w < chunks@.len()
                        ==> (#[trigger] chunks@[w]).spec_data().spec_columns().len() == ncols,
                forall|w: int| 0 <= w < ncols ==> (#[trigger] columns@[w])@.len() == ops@.len(),
            decreases chunks@.len() - i,
        {
            let ghost ops_before = ops@.len();
            let mut k: usize = 0;
            let chunk_ops = &chunks[i].ops;
            while k < chunk_ops.len()
                invariant
                    k <= chunk_ops@.len(),
                    ops@.len() == ops_before + k,
                decreases chunk_ops@.len() - k,
            {
                ops.push(chunk_ops[k]);
                k = k + 1;
            }
            let ghost chunk_len = chunk_ops@.len();
            proof {
                assert(chunks@[i as int].wf());
                assert(chunk_len == chunks@[i as int].spec_data().spec_vis().spec_len());
            }
            let mut c2: usize = 0;
            while c2 < ncols
                invariant
                    c2 <= ncols,
                    columns@.len() == ncols,
                    i < chunks@.len(),
                    chunks@[i as int].wf(),
                    chunk_len == chunks@[i as int].spec_data().spec_vis().spec_len(),
                    ncols == chunks@[i as int].spec_data().spec_columns().len(),
                    forall|w: int|
                        0 <= w < c2 ==> (#[trigger] columns@[w])@.len() == ops_before + chunk_len,
                    forall|w: int|
                        c2 <= w < ncols ==> (#[trigger] columns@[w])@.len() == ops_before,
                decreases ncols - c2,
            {
                let src_col = chunks[i].data.column_at(c2);
                let mut k2: usize = 0;
                let mut dst = clone_datums(&columns[c2]);
                proof {
                    assert(src_col@.len() == chunk_len);
                }
                while k2 < src_col.len()
                    invariant
                        k2 <= src_col@.len(),
                        dst@.len() == ops_before + k2,
                    decreases src_col@.len() - k2,
                {
                    let cell = src_col[k2].clone();
                    dst.push(cell);
                    k2 = k2 + 1;
                }
                columns.set(c2, dst);
                c2 = c2 + 1;
            }
            proof {
                assert(ops@.len() == ops_before + chunk_len);
            }
            i = i + 1;
        }
        let n = ops.len();
        StreamChunk { ops, data: DataChunk::new(columns, Vis::Compact(n)) }
    }

}

/// Extra operations on whole chunks.
pub trait StreamChunkTestExt: Sized {
    /// The chunk's layout is consistent.
    fn valid(&self) -> bool;

    /// Concatenates chunks into one.
    fn concat(chunks: Vec<Self>) -> Self;

    /// Builds a stream chunk directly over a data chunk.
    fn new_from_data_chunk(ops: Vec<Op>, chunk: DataChunk) -> Self;
}

impl StreamChunkTestExt for StreamChunk {
    fn valid(&self) -> (r: bool)
        ensures
            r == self.wf(),
    {
        self.is_valid()
    }

    /// Concatenates consistent, fully-visible chunks of equal width;
    /// anything else collapses to the empty chunk.
    fn concat(chunks: Vec<StreamChunk>) -> (r: StreamChunk) {
        if chunks.len() == 0 {
            let cols: Vec<ArrayRef> = Vec::new();
            return StreamChunk { ops: Vec::new(), data: DataChunk::new(cols, Vis::Compact(0)) };
        }
        let ncols = chunks[0].data_chunk().columns().len();
        let mut i: usize = 0;
        while i < chunks.len()
            invariant
                i <= chunks@.len(),
                chunks@.len() >= 1,
                ncols == chunks@[0].spec_data().spec_columns().len(),
                forall|w: int| 0 <= w < i ==> (#[trigger] chunks@[w]).wf(),
                forall|w: int|
                    0 <= w < i ==> (#[trigger] chunks@[w]).spec_data().spec_vis() is Compact,
                forall|w: int|
                    0 <= w < i ==> (#[trigger] chunks@[w]).spec_data().spec_columns().len() == ncols,
            decreases chunks@.len() - i,
        {
            let bad_vis = match chunks[i].visibility() {
                Option::Some(_) => true,
                Option::None => false,
            };
            if !chunks[i].is_valid() || bad_vis || chunks[i].data_chunk().columns().len() != ncols {
                let cols: Vec<ArrayRef> = Vec::new();
                return StreamChunk {
                    ops: Vec::new(),
                    data: DataChunk::new(cols, Vis::Compact(0)),
                };
            }
            i = i + 1;
        }
        StreamChunk::concat_of(chunks)
    }

    fn new_from_data_chunk(ops: Vec<Op>, chunk: DataChunk) -> (r: StreamChunk)
        ensures
            r.spec_ops() == ops@,
            r.spec_data() == chunk,
    {
        StreamChunk { ops, data: chunk }
    }
}

} // verus!
