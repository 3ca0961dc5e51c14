//! The expression interface consumed by the join engine: an expression is
//! evaluated over a batch and yields either a constant scalar standing for
//! every row or a per-row column, or an evaluation error when the batch
//! cannot satisfy it.

use vstd::prelude::*;

use crate::types::Chunk;
use crate::types::ChunkEntry;
use crate::types::DataType;
use crate::types::Value;
use crate::ErrorCode;

verus! {

/// A key or predicate expression: a constant boolean, or a reference to a
/// column of the batch it is evaluated over.
#[derive(Clone, Copy, Debug)]
pub enum Expr {
    Literal(bool),
    ColumnRef(usize),
}

impl Expr {
    /// Whether evaluation over a batch with `ncols` columns succeeds.
    pub open spec fn evaluable(self, ncols: nat) -> bool {
        match self {
            Expr::Literal(_) => true,
            Expr::ColumnRef(c) => c < ncols,
        }
    }

    /// The entry the expression denotes, for a column reference.
    pub open spec fn spec_col(self) -> int {
        self->ColumnRef_0 as int
    }
}

/// Evaluates an expression over a batch, returning the resulting value and
/// its type. Fails exactly when a referenced column is missing.
pub fn eval_expr(chunk: &Chunk, e: &Expr) -> (r: Result<ChunkEntry, ErrorCode>)
    requires
        chunk.wf(),
    ensures
        r is Ok <==> e.evaluable(chunk.num_columns()),
        r is Err ==> r->Err_0 == ErrorCode::Evaluation,
        r is Ok ==> (r->Ok_0).wf(chunk.num_rows as nat),
        r is Ok ==> match *e {
            Expr::Literal(b) => (r->Ok_0).value == Value::Scalar(crate::types::Scalar::Bool(b))
                && (r->Ok_0).data_type == DataType::Boolean,
            Expr::ColumnRef(_) => {
                &&& forall|i: int| 0 <= i < chunk.num_rows
                    ==> (r->Ok_0).cell(i) == chunk.cell(e.spec_col(), i)
                &&& (r->Ok_0).data_type == chunk.columns@[e.spec_col()].data_type
                &&& ((r->Ok_0).value is Scalar <==> chunk.columns@[e.spec_col()].value is Scalar)
            },
        },
{
    match e {
        Expr::Literal(b) => Ok(
            ChunkEntry {
                id: 0,
                value: Value::Scalar(crate::types::Scalar::Bool(*b)),
                data_type: DataType::Boolean,
            },
        ),
        Expr::ColumnRef(c) => {
            if *c < chunk.columns.len() {
                let entry = &chunk.columns[*c];
                assert(entry.wf(chunk.num_rows as nat));
                Ok(entry.dup())
            } else {
                Err(ErrorCode::Evaluation)
            }
        },
    }
}

} // verus!
