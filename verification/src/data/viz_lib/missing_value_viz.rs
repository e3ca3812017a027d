//! Missing Value Visualizations Module
//!
//! This module names what can go wrong when the visualizations for the missing value
//! analysis are generated.

use vstd::prelude::*;
use vstd::string::*;

verus! {

/// The error types for the plots of the missing values.
#[derive(Clone, Debug, PartialEq, Eq)]
pub enum MissingValuesPlotError {
    /// Occurs during failure to build the missing matrix.
    BuildMissingMatrixError(String),
    /// Occurs during failure to build the missingness correlation matrix.
    BuildMissingnessMatrixError(String),
    /// Occurs during failure to draw a chart.
    PlotDrawingError(String),
}

impl MissingValuesPlotError {
    /// The text of the error, as it is shown.
    pub open spec fn text(&self) -> Seq<char> {
        match self {
            MissingValuesPlotError::BuildMissingMatrixError(detail) => {
                "Error building the missing matrix: "@ + detail@
            },
            MissingValuesPlotError::BuildMissingnessMatrixError(detail) => {
                "Error building the missing matrix: "@ + detail@
            },
            MissingValuesPlotError::PlotDrawingError(detail) => {
                "Error building the plot: "@ + detail@
            },
        }
    }

    /// The text of the error, as it is shown.
    pub fn message(&self) -> (message: String)
        ensures
            message@ == self.text(),
    {
        match self {
            MissingValuesPlotError::BuildMissingMatrixError(detail) => String::from_str(
                "Error building the missing matrix: ",
            ).concat(detail.as_str()),
            MissingValuesPlotError::BuildMissingnessMatrixError(detail) => String::from_str(
                "Error building the missing matrix: ",
            ).concat(detail.as_str()),
            MissingValuesPlotError::PlotDrawingError(detail) => String::from_str(
                "Error building the plot: ",
            ).concat(detail.as_str()),
        }
    }
}

/// What a list of chunks of flags stands for.
pub open spec fn chunk_views(chunks: Seq<Vec<bool>>) -> Seq<Seq<bool>> {
    Seq::new(chunks.len(), |i: int| chunks[i]@)
}

/// What a list of columns, each a list of chunks of flags, stands for.
pub open spec fn column_views(columns: Seq<Vec<Vec<bool>>>) -> Seq<Seq<Seq<bool>>> {
    Seq::new(columns.len(), |i: int| chunk_views(columns[i]@))
}

/// What a matrix of flags stands for.
pub open spec fn matrix_view(matrix: Seq<Vec<bool>>) -> Seq<Seq<bool>> {
    Seq::new(matrix.len(), |i: int| matrix[i]@)
}

/// The matrix after a chunk of a column is laid in from the row `row_index` on: where the
/// matrix ends before the chunk does, a row is added below the matrix for each flag of the
/// chunk; else each flag is added to its row.
pub open spec fn with_chunk(matrix: Seq<Seq<bool>>, row_index: int, chunk: Seq<bool>) -> Seq<
    Seq<bool>,
> {
    if matrix.len() < row_index + chunk.len() {
        matrix + Seq::new(chunk.len(), |i: int| seq![chunk[i]])
    } else {
        Seq::new(
            matrix.len(),
            |r: int|
                if row_index <= r < row_index + chunk.len() {
                    matrix[r].push(chunk[r - row_index])
                } else {
                    matrix[r]
                },
        )
    }
}

/// The matrix after the chunks of a column from the `from`-th on are laid in, the first of
/// them from the row `row_index` on and each behind the one before.
pub open spec fn with_chunks(
    matrix: Seq<Seq<bool>>,
    chunks: Seq<Seq<bool>>,
    from: int,
    row_index: int,
) -> Seq<Seq<bool>>
    decreases chunks.len() - from,
{
    if from < 0 || from >= chunks.len() {
        matrix
    } else {
        with_chunks(
            with_chunk(matrix, row_index, chunks[from]),
            chunks,
            from + 1,
            row_index + chunks[from].len(),
        )
    }
}

/// The matrix after the columns from the `from`-th on are laid in.
pub open spec fn with_columns(matrix: Seq<Seq<bool>>, columns: Seq<Seq<Seq<bool>>>, from: int)
    -> Seq<Seq<bool>>
    decreases columns.len() - from,
{
    if from < 0 || from >= columns.len() {
        matrix
    } else {
        with_columns(with_chunks(matrix, columns[from], 0, 0), columns, from + 1)
    }
}

/// The matrix of the missing values of a dataset: a row for each row of the dataset, with
/// a flag for each column.
pub open spec fn missing_matrix(columns: Seq<Seq<Seq<bool>>>) -> Seq<Seq<bool>> {
    with_columns(Seq::empty(), columns, 0)
}

/// The flags of the chunks from the `from`-th on, one chunk behind the other.
pub open spec fn flags(chunks: Seq<Seq<bool>>, from: int) -> Seq<bool>
    decreases chunks.len() - from,
{
    if from < 0 || from >= chunks.len() {
        Seq::empty()
    } else {
        chunks[from] + flags(chunks, from + 1)
    }
}

/// Laying the chunks of a column into a matrix that ends where the first of them starts
/// adds a row of one flag for each flag of the chunks.
pub proof fn lemma_chunks_add_rows(
    matrix: Seq<Seq<bool>>,
    chunks: Seq<Seq<bool>>,
    from: int,
    row_index: int,
)
    requires
        0 <= from,
        matrix.len() == row_index,
    ensures
        with_chunks(matrix, chunks, from, row_index) == matrix + Seq::new(
            flags(chunks, from).len(),
            |i: int| seq![flags(chunks, from)[i]],
        ),
    decreases chunks.len() - from,
{
    let rest = flags(chunks, from);
    if from >= chunks.len() {
        assert(matrix + Seq::new(rest.len(), |i: int| seq![rest[i]]) =~= matrix);
    } else {
        let chunk = chunks[from];
        let laid = with_chunk(matrix, row_index, chunk);
        let after = flags(chunks, from + 1);
        assert(laid =~= matrix + Seq::new(chunk.len(), |i: int| seq![chunk[i]])) by {
            if chunk.len() == 0 {
                assert(laid =~= matrix);
            }
        }
        lemma_chunks_add_rows(laid, chunks, from + 1, row_index + chunk.len());
        assert(laid + Seq::new(after.len(), |i: int| seq![after[i]]) =~= matrix + Seq::new(
            rest.len(),
            |i: int| seq![rest[i]],
        ));
    }
}

/// Laying the chunks of a column into a matrix that reaches to where the last of them ends
/// adds each flag of the chunks to its row.
pub proof fn lemma_chunks_fill_rows(
    matrix: Seq<Seq<bool>>,
    chunks: Seq<Seq<bool>>,
    from: int,
    row_index: int,
)
    requires
        0 <= from,
        0 <= row_index,
        row_index + flags(chunks, from).len() <= matrix.len(),
    ensures
        with_chunks(matrix, chunks, from, row_index) == Seq::new(
            matrix.len(),
            |r: int|
                if row_index <= r < row_index + flags(chunks, from).len() {
                    matrix[r].push(flags(chunks, from)[r - row_index])
                } else {
                    matrix[r]
                },
        ),
    decreases chunks.len() - from,
{
    let rest = flags(chunks, from);
    let wanted = Seq::new(
        matrix.len(),
        |r: int|
            if row_index <= r < row_index + rest.len() {
                matrix[r].push(rest[r - row_index])
            } else {
                matrix[r]
            },
    );
    if from >= chunks.len() {
        assert(wanted =~= matrix);
    } else {
        let chunk = chunks[from];
        let laid = with_chunk(matrix, row_index, chunk);
        lemma_chunks_fill_rows(laid, chunks, from + 1, row_index + chunk.len());
        assert(with_chunks(matrix, chunks, from, row_index) =~= wanted);
    }
}

/// The matrix of the first `upto` columns is these columns turned over, where every column
/// has as many flags as the first.
pub proof fn lemma_first_columns_transpose(columns: Seq<Seq<Seq<bool>>>, upto: int)
    requires
        0 < upto <= columns.len(),
        forall|c: int|
            0 <= c < columns.len() ==> (#[trigger] flags(columns[c], 0)).len() == flags(
                columns[0],
                0,
            ).len(),
    ensures
        with_columns(Seq::empty(), columns.take(upto), 0).len() == flags(columns[0], 0).len(),
        forall|r: int|
            0 <= r < flags(columns[0], 0).len() ==> (#[trigger] with_columns(
                Seq::empty(),
                columns.take(upto),
                0,
            )[r]) == Seq::new(upto as nat, |c: int| flags(columns[c], 0)[r]),
    decreases upto,
{
    let rows = flags(columns[0], 0).len();
    let taken = columns.take(upto);
    let before = with_columns(Seq::empty(), columns.take(upto - 1), 0);
    lemma_columns_one_more(Seq::empty(), columns, upto - 1, 0);
    let last = flags(columns[upto - 1], 0);
    assert(last.len() == rows);
    if upto == 1 {
        assert(columns.take(0) =~= Seq::<Seq<Seq<bool>>>::empty());
        assert(before =~= Seq::<Seq<bool>>::empty());
        lemma_chunks_add_rows(before, columns[0], 0, 0);
        let made = with_columns(Seq::empty(), taken, 0);
        assert forall|r: int| 0 <= r < rows implies (#[trigger] made[r]) == Seq::new(
            upto as nat,
            |c: int| flags(columns[c], 0)[r],
        ) by {
            assert(made[r] =~= Seq::new(upto as nat, |c: int| flags(columns[c], 0)[r]));
        }
    } else {
        lemma_first_columns_transpose(columns, upto - 1);
        lemma_chunks_fill_rows(before, columns[upto - 1], 0, 0);
        let made = with_columns(Seq::empty(), taken, 0);
        assert forall|r: int| 0 <= r < rows implies (#[trigger] made[r]) == Seq::new(
            upto as nat,
            |c: int| flags(columns[c], 0)[r],
        ) by {
            assert(before[r] == Seq::new((upto - 1) as nat, |c: int| flags(columns[c], 0)[r]));
            assert(made[r] =~= Seq::new(upto as nat, |c: int| flags(columns[c], 0)[r]));
        }
    }
}

/// The matrix is the dataset turned over: where every column has as many flags as the
/// first, the matrix has a row for each of them, and the flag of a row for a column is the
/// flag of the column for the row.
pub proof fn lemma_missing_matrix_transposes(columns: Seq<Seq<Seq<bool>>>)
    requires
        columns.len() > 0,
        forall|c: int|
            0 <= c < columns.len() ==> (#[trigger] flags(columns[c], 0)).len() == flags(
                columns[0],
                0,
            ).len(),
    ensures
        missing_matrix(columns).len() == flags(columns[0], 0).len(),
        forall|r: int|
            0 <= r < flags(columns[0], 0).len() ==> (#[trigger] missing_matrix(columns)[r])
                == Seq::new(columns.len(), |c: int| flags(columns[c], 0)[r]),
{
    lemma_first_columns_transpose(columns, columns.len() as int);
    assert(columns.take(columns.len() as int) =~= columns);
}

/// Laying in the first `upto + 1` columns is laying in the first `upto` of them and then
/// the next one.
pub proof fn lemma_columns_one_more(
    matrix: Seq<Seq<bool>>,
    columns: Seq<Seq<Seq<bool>>>,
    upto: int,
    from: int,
)
    requires
        0 <= from <= upto < columns.len(),
    ensures
        with_columns(matrix, columns.take(upto + 1), from) == with_chunks(
            with_columns(matrix, columns.take(upto), from),
            columns[upto],
            0,
            0,
        ),
    decreases upto - from,
{
    let more = columns.take(upto + 1);
    let fewer = columns.take(upto);
    if from == upto {
        let laid = with_chunks(matrix, columns[upto], 0, 0);
        assert(more[from] == columns[upto]);
        assert(with_columns(laid, more, upto + 1) == laid);
        assert(with_columns(matrix, more, from) == laid);
        assert(with_columns(matrix, fewer, from) == matrix);
    } else {
        let laid = with_chunks(matrix, columns[from], 0, 0);
        assert(more[from] == columns[from]);
        assert(fewer[from] == columns[from]);
        lemma_columns_one_more(laid, columns, upto, from + 1);
        assert(with_columns(matrix, more, from) == with_columns(laid, more, from + 1));
        assert(with_columns(matrix, fewer, from) == with_columns(laid, fewer, from + 1));
    }
}

/// Constructs a matrix representing missing values in the dataset, from the flags of its
/// columns, which say of each value whether it is missing. A column comes in chunks.
#[verifier::loop_isolation(false)]
pub fn build_missing_matrix(columns: &Vec<Vec<Vec<bool>>>) -> (matrix: Result<
    Vec<Vec<bool>>,
    MissingValuesPlotError,
>)
    ensures
        matrix is Ok,
        matrix_view(matrix->Ok_0@) == missing_matrix(column_views(columns@)),
{
    let mut matrix: Vec<Vec<bool>> = Vec::new();
    let ghost all = column_views(columns@);
    let mut c: usize = 0;
    proof {
        assert(matrix_view(matrix@) =~= Seq::<Seq<bool>>::empty());
    }
    while c < columns.len()
        invariant
            c <= columns.len(),
            with_columns(matrix_view(matrix@), all, c as int) == missing_matrix(all),
        decreases columns.len() - c,
    {
        let column: &Vec<Vec<bool>> = &columns[c];
        let ghost chunks = all[c as int];
        assert(chunks == chunk_views(column@));
        let mut row_index: usize = 0;
        let mut k: usize = 0;
        let ghost start = matrix_view(matrix@);
        while k < column.len()
            invariant
                k <= column.len(),
                row_index <= matrix@.len(),
                with_chunks(matrix_view(matrix@), chunks, k as int, row_index as int)
                    == with_chunks(start, chunks, 0, 0),
            decreases column.len() - k,
        {
            let chunk: &Vec<bool> = &column[k];
            let chunk_len: usize = chunk.len();
            let ghost before = matrix_view(matrix@);
            assert(chunks[k as int] == chunk@);
            if matrix.len() - row_index < chunk_len {
                let mut i: usize = 0;
                while i < chunk_len
                    invariant
                        i <= chunk_len,
                        matrix@.len() == before.len() + i,
                        matrix_view(matrix@) == before + Seq::new(
                            i as nat,
                            |j: int| seq![chunk@[j]],
                        ),
                    decreases chunk_len - i,
                {
                    let mut row: Vec<bool> = Vec::new();
                    row.push(chunk[i]);
                    proof {
                        assert(row@ =~= seq![chunk@[i as int]]);
                        let grown = matrix_view(matrix@.push(row));
                        let wanted = before + Seq::new((i + 1) as nat, |j: int| seq![chunk@[j]]);
                        assert forall|r: int| 0 <= r < grown.len() implies grown[r]
                            == wanted[r] by {
                            if r < matrix@.len() {
                                assert(grown[r] == matrix_view(matrix@)[r]);
                            }
                        }
                        assert(grown =~= wanted);
                    }
                    matrix.push(row);
                    i += 1;
                }
            } else {
                let mut i: usize = 0;
                while i < chunk_len
                    invariant
                        i <= chunk_len,
                        matrix@.len() == before.len(),
                        matrix_view(matrix@) == Seq::new(
                            before.len(),
                            |r: int|
                                if row_index <= r < row_index + i {
                                    before[r].push(chunk@[r - row_index])
                                } else {
                                    before[r]
                                },
                        ),
                    decreases chunk_len - i,
                {
                    let ghost old_matrix = matrix@;
                    matrix[row_index + i].push(chunk[i]);
                    proof {
                        let at = row_index + i;
                        assert(matrix@[at]@ == old_matrix[at]@.push(chunk@[i as int]));
                        assert forall|r: int| 0 <= r < before.len() implies matrix_view(matrix@)[r]
                            == if row_index <= r < row_index + i + 1 {
                            before[r].push(chunk@[r - row_index])
                        } else {
                            before[r]
                        } by {
                            if r != at {
                                assert(matrix@[r] == old_matrix[r]);
                                assert(matrix_view(old_matrix)[r] == old_matrix[r]@);
                            } else {
                                assert(matrix_view(old_matrix)[r] == old_matrix[r]@);
                            }
                        }
                        assert(matrix_view(matrix@) =~= Seq::new(
                            before.len(),
                            |r: int|
                                if row_index <= r < row_index + i + 1 {
                                    before[r].push(chunk@[r - row_index])
                                } else {
                                    before[r]
                                },
                        ));
                    }
                    i += 1;
                }
            }
            let rows: usize = matrix.len();
            proof {
                assert(rows >= row_index + chunk_len);
                assert(matrix_view(matrix@) == with_chunk(before, row_index as int, chunk@));
            }
            row_index += chunk_len;
            k += 1;
        }
        c += 1;
    }
    Ok(matrix)
}

} // verus!
