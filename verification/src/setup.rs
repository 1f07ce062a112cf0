//! Setting up the table of pictures: which statements are sent, in which
//! order, and which of them may fail.
//!
//! The table may be older than its later columns. So after the table itself
//! each later column is added by a statement of its own, whose failure is
//! passed over: on a table that has the column the store refuses it. The
//! table and the indexes must succeed.

use crate::reports::TABLE_READY;
use crate::statements::{
    create_pictures_table_sql, pictures_index_sqls, ADD_DELETED_AT_SQL,
    ADD_IS_DELETED_SQL, ADD_REMARK_SQL, CREATE_PICTURES_TABLE_SQL, INDEX_CREATED_SQL,
    INDEX_DELETED_SQL, INDEX_FAVORITE_SQL, INDEX_HASH_SQL, INDEX_TYPE_CREATED_SQL, INDEX_TYPE_SQL,
    INDEX_UPDATED_SQL,
};
use crate::text::views;
use vstd::prelude::*;
use vstd::string::*;

verus! {

/// One request of the set-up.
#[derive(Debug, Clone, PartialEq, Eq)]
pub enum SetupStep {
    /// One statement, sent alone. Where `tolerated` holds, its failure is
    /// passed over.
    Query { sql: String, tolerated: bool },
    /// Several statements, sent as one batch, which must succeed.
    Batch(Vec<String>),
}

/// One request of the set-up as a mathematical value.
pub enum StepModel {
    Query { sql: Seq<char>, tolerated: bool },
    Batch(Seq<Seq<char>>),
}

impl View for SetupStep {
    type V = StepModel;

    open spec fn view(&self) -> StepModel {
        match *self {
            SetupStep::Query { sql, tolerated } => StepModel::Query { sql: sql@, tolerated },
            SetupStep::Batch(statements) => StepModel::Batch(views(statements@)),
        }
    }
}

impl SetupStep {
    /// Whether a failure of this request is passed over.
    pub open spec fn tolerates(&self) -> bool {
        *self matches SetupStep::Query { tolerated, .. } && tolerated
    }
}

/// The views of a list of requests.
pub open spec fn step_views(steps: Seq<SetupStep>) -> Seq<StepModel> {
    Seq::new(steps.len(), |i: int| steps[i]@)
}

/// The set-up of the table of pictures: the table, which must succeed; each
/// later column, whose failure is passed over; the indexes in one batch,
/// which must succeed.
pub open spec fn pictures_plan() -> Seq<StepModel> {
    seq![
        StepModel::Query { sql: CREATE_PICTURES_TABLE_SQL@, tolerated: false },
        StepModel::Query { sql: ADD_IS_DELETED_SQL@, tolerated: true },
        StepModel::Query { sql: ADD_DELETED_AT_SQL@, tolerated: true },
        StepModel::Query { sql: ADD_REMARK_SQL@, tolerated: true },
        StepModel::Batch(
            seq![
                INDEX_HASH_SQL@,
                INDEX_CREATED_SQL@,
                INDEX_UPDATED_SQL@,
                INDEX_FAVORITE_SQL@,
                INDEX_TYPE_SQL@,
                INDEX_TYPE_CREATED_SQL@,
                INDEX_DELETED_SQL@,
            ],
        ),
    ]
}

/// Plans the set-up of the table of pictures: the requests to send, in their
/// order.
pub fn pictures_setup() -> (r: Vec<SetupStep>)
    ensures
        step_views(r@) == pictures_plan(),
{
    let mut steps: Vec<SetupStep> = Vec::new();
    steps.push(SetupStep::Query { sql: create_pictures_table_sql(), tolerated: false });
    steps.push(SetupStep::Query { sql: String::from_str(ADD_IS_DELETED_SQL), tolerated: true });
    steps.push(SetupStep::Query { sql: String::from_str(ADD_DELETED_AT_SQL), tolerated: true });
    steps.push(SetupStep::Query { sql: String::from_str(ADD_REMARK_SQL), tolerated: true });
    steps.push(SetupStep::Batch(pictures_index_sqls()));
    assert(steps.len() == 5);
    assert(steps[0]@ == pictures_plan()[0]);
    assert(steps[1]@ == pictures_plan()[1]);
    assert(steps[2]@ == pictures_plan()[2]);
    assert(steps[3]@ == pictures_plan()[3]);
    assert(steps[4]@ == pictures_plan()[4]);
    assert(step_views(steps@) == pictures_plan());
    steps
}

/// What follows from the outcome of one request of the set-up: the set-up
/// goes on after a success and after a failure that is passed over, and ends
/// with the store's diagnostic after any other failure.
pub fn setup_verdict(step: &SetupStep, failure: Option<String>) -> (r: Result<(), String>)
    ensures
        match r {
            Ok(_) => failure is None || step.tolerates(),
            Err(message) => !step.tolerates() && (failure matches Some(cause) && message@
                == cause@),
        },
{
    match failure {
        None => Ok(()),
        Some(cause) => match step {
            SetupStep::Query { sql: _, tolerated } => {
                if *tolerated {
                    Ok(())
                } else {
                    Err(cause)
                }
            },
            SetupStep::Batch(_) => Err(cause),
        },
    }
}

/// The report of a set-up of which every request has gone through.
pub fn setup_report() -> (r: String)
    ensures
        r@ == TABLE_READY@,
{
    String::from_str(TABLE_READY)
}

} // verus!
