//! What the library takes from DataFusion, on trust.

use crate::join::{indices, joined_schema, keys, valid_join};
use crate::join::{Field, JoinType, Key, Schema};
use arrow::datatypes::DataType::Null;
use arrow::datatypes::{DataType, Field as ArrowField, Schema as ArrowSchema};
use datafusion_common::{DataFusionError, NullEquality};
use datafusion_physical_plan::empty::EmptyExec;
use datafusion_physical_plan::expressions::{
    lit, Column as PhysicalColumn, DynamicFilterPhysicalExpr,
};
use datafusion_physical_plan::joins::utils::build_join_schema;
use datafusion_physical_plan::joins::{HashJoinExec, PartitionMode};
use std::sync::Arc;
use vstd::prelude::*;

verus! {

/// DataFusion's error, carried to the caller unread.
#[verifier::external_type_specification]
#[verifier::external_body]
pub struct ExDataFusionError(datafusion_common::DataFusionError);

/// DataFusion's join filter, carried through a rewrite unread.
#[verifier::external_type_specification]
#[verifier::external_body]
pub struct ExJoinFilter(datafusion_physical_plan::joins::utils::JoinFilter);

/// DataFusion's partition mode of a hash join, carried through a rewrite unread.
#[verifier::external_type_specification]
#[verifier::external_body]
pub struct ExPartitionMode(datafusion_physical_plan::joins::PartitionMode);

/// DataFusion's null equality of a join, carried through a rewrite unread.
#[verifier::external_type_specification]
#[verifier::external_body]
pub struct ExNullEquality(datafusion_common::NullEquality);

/// DataFusion's settings, which a rule is handed and does not read.
#[verifier::external_type_specification]
#[verifier::external_body]
pub struct ExConfigOptions(datafusion_common::config::ConfigOptions);

/// Arrow's type of a column, carried through a rewrite unread.
#[verifier::external_type_specification]
#[verifier::external_body]
pub struct ExDataType(arrow::datatypes::DataType);

/// Arrow's `DataType::clone`, which `derive` writes field by field.
///
/// Trusted: the copy is the type that was copied.
pub assume_specification[ <DataType as Clone>::clone ](t: &DataType) -> (r: DataType)
    ensures
        r == *t,
;

/// The type of the column that DataFusion's `build_join_schema` adds for the mark join
/// `join_type`.
pub uninterp spec fn mark_type(join_type: JoinType) -> DataType;

/// Has DataFusion's `build_join_schema` work out the schema that a join of inputs with the schemas
/// `left` and `right` makes, before its projection.
///
/// Trusted: it is [`joined_schema`]. The columns of the inputs keep their names, their types and
/// their metadata; those of an input that may be filled up with nulls can hold one, and the others
/// stay as they are; a mark join adds a column named `mark`, of the same type every time and
/// without metadata. The metadata of the schema is that of both inputs.
#[verifier::external_body]
pub(crate) fn join_schema(left: &Schema, right: &Schema, join_type: JoinType) -> (r: Schema)
    ensures
        r@ == joined_schema(left@, right@, join_type),
        join_type is LeftMark || join_type is RightMark ==> r@.fields.last().data_type == mark_type(
            join_type,
        ),
{
    let [left, right] = [left, right].map(|s| ArrowSchema::new_with_metadata(
        Vec::from_iter(s.fields.iter().map(|c| ArrowField::new(
            &c.name, c.data_type.clone(), c.nullable,
        ).with_metadata(c.metadata.clone()))),
        s.metadata.clone()
    ));
    let join_type = format!("{join_type:?}").parse().unwrap();
    let schema = build_join_schema(&left, &right, &join_type).0;
    let fields = schema.fields.iter().map(|f| Field {
        name: f.name().clone(),
        data_type: f.data_type().clone(),
        nullable: f.is_nullable(),
        metadata: f.metadata().clone(),
    });
    Schema { fields: fields.collect(), metadata: schema.metadata }
}

/// Has DataFusion's `HashJoinExec::try_new` make a hash join of inputs with the columns of `left`
/// and `right`, and returns its error, if it gives one.
///
/// Trusted: `try_new` gives none exactly where [`valid_join`] holds. The inputs handed to it are
/// empty tables with columns of those names, and each key is an expression that reads the columns
/// of the key and no others. Of a key `try_new` asks for the columns that it reads alone; the types
/// of the columns, the partition mode and the null equality have no part in what is claimed, and
/// neither would a filter, which it only stores.
#[verifier::external_body]
pub(crate) fn check_hash_join(
    left: &Schema,
    right: &Schema,
    on: &Vec<(Key, Key)>,
    join_type: JoinType,
    projection: Option<Vec<usize>>,
    mode: PartitionMode,
    nulls: NullEquality,
) -> (r: Option<DataFusionError>)
    ensures
        r is None <==> valid_join(
            left@.fields,
            right@.fields,
            keys(on@),
            join_type,
            indices(projection),
        ),
{
    let [left, right] = [left, right].map(|s| Arc::new(EmptyExec::new(ArrowSchema::new(
        Vec::from_iter(s.fields.iter().map(|c| ArrowField::new(&c.name, Null, true)))
    ).into())));
    HashJoinExec::try_new(
        left,
        right,
        on.iter().map(|(l, r)| [l, r].map(|k| Arc::new(DynamicFilterPhysicalExpr::new(
            k.columns.iter().map(|c| Arc::new(PhysicalColumn::new(&c.name, c.index)) as _).collect(),
            lit(true)
        )) as _).into()).collect(),
        None, &format!("{join_type:?}").parse().unwrap(), projection, mode, nulls
    ).err()
}

} // verus!
