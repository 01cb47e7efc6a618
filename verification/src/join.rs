//! What a hash join is made of, when it can be made, and what schema it has.

use crate::outside::mark_type;
use arrow::datatypes::DataType;
use std::collections::HashMap;
use vstd::prelude::*;

verus! {

/// How a join pairs the rows of its two inputs.
#[derive(Debug, Clone, Copy, PartialEq, Eq, Structural)]
pub enum JoinType {
    Inner,
    Left,
    Right,
    Full,
    LeftSemi,
    RightSemi,
    LeftAnti,
    RightAnti,
    LeftMark,
    RightMark,
}

impl JoinType {
    /// Whether the join returns the rows of one input that match none of the other.
    pub open spec fn anti(self) -> bool {
        self == JoinType::LeftAnti || self == JoinType::RightAnti
    }

    /// Whether the join returns the rows of one input that match none of the other.
    pub fn is_anti(&self) -> (r: bool)
        ensures
            r == self.anti(),
            r == (*self == JoinType::LeftAnti || *self == JoinType::RightAnti),
    {
        matches!(self, JoinType::LeftAnti | JoinType::RightAnti)
    }
}

/// A column of an input: its name and its place.
#[derive(Debug)]
pub struct Column {
    pub name: String,
    pub index: usize,
}

/// What a [`Column`] stands for.
pub struct ColumnView {
    pub name: Seq<char>,
    pub index: nat,
}

impl View for Column {
    type V = ColumnView;

    open spec fn view(&self) -> ColumnView {
        ColumnView { name: self.name@, index: self.index as nat }
    }
}

impl Column {
    /// The column `name` at place `index`.
    pub fn new(name: &str, index: usize) -> (r: Column)
        ensures
            r@ == (ColumnView { name: name@, index: index as nat }),
    {
        Column { name: name.to_owned(), index }
    }
}

/// The columns that stand in a list.
pub open spec fn column_views(v: Seq<Column>) -> Seq<ColumnView> {
    v.map_values(|c: Column| c@)
}

/// An expression over the columns of an input, by which a join compares rows.
#[derive(Debug)]
pub struct Key {
    /// By which the caller finds the expression again.
    pub handle: usize,
    /// The columns that the expression reads.
    pub columns: Vec<Column>,
}

/// What a [`Key`] stands for.
#[verifier::ext_equal]
pub struct KeyView {
    pub handle: usize,
    pub columns: Seq<ColumnView>,
}

impl View for Key {
    type V = KeyView;

    open spec fn view(&self) -> KeyView {
        KeyView { handle: self.handle, columns: column_views(self.columns@) }
    }
}

/// The key pairs of a join.
pub open spec fn keys(on: Seq<(Key, Key)>) -> Seq<(KeyView, KeyView)> {
    on.map_values(|k: (Key, Key)| (k.0@, k.1@))
}

/// A column that a plan returns.
#[derive(Debug)]
pub struct Field {
    pub name: String,
    pub data_type: DataType,
    /// Whether the column can hold a null.
    pub nullable: bool,
    pub metadata: HashMap<String, String>,
}

/// What a [`Field`] stands for.
#[verifier::ext_equal]
pub struct FieldView {
    pub name: Seq<char>,
    pub data_type: DataType,
    pub nullable: bool,
    pub metadata: Map<String, String>,
}

impl View for Field {
    type V = FieldView;

    open spec fn view(&self) -> FieldView {
        FieldView {
            name: self.name@,
            data_type: self.data_type,
            nullable: self.nullable,
            metadata: self.metadata@,
        }
    }
}

impl Field {
    /// The column `name` of the type `data_type`, without metadata.
    pub fn new(name: &str, data_type: DataType, nullable: bool) -> (r: Field)
        ensures
            r@ == (FieldView { name: name@, data_type, nullable, metadata: Map::empty() }),
    {
        Field { name: name.to_owned(), data_type, nullable, metadata: HashMap::new() }
    }

    /// The same column.
    fn copy(&self) -> (r: Field)
        ensures
            r@ == self@,
    {
        Field {
            name: self.name.clone(),
            data_type: self.data_type.clone(),
            nullable: self.nullable,
            metadata: self.metadata.clone(),
        }
    }
}

/// The columns that a list of them stands for.
pub open spec fn fields(v: Seq<Field>) -> Seq<FieldView> {
    v.map_values(|f: Field| f@)
}

/// The columns that a plan returns.
#[derive(Debug)]
pub struct Schema {
    pub fields: Vec<Field>,
    pub metadata: HashMap<String, String>,
}

/// What a [`Schema`] stands for.
#[verifier::ext_equal]
pub struct SchemaView {
    pub fields: Seq<FieldView>,
    pub metadata: Map<String, String>,
}

impl View for Schema {
    type V = SchemaView;

    open spec fn view(&self) -> SchemaView {
        SchemaView { fields: fields(self.fields@), metadata: self.metadata@ }
    }
}

impl Schema {
    /// The columns `fields`, without metadata.
    pub fn new(fields: Vec<Field>) -> (r: Schema)
        ensures
            r@ == (SchemaView { fields: self::fields(fields@), metadata: Map::empty() }),
    {
        Schema { fields, metadata: HashMap::new() }
    }
}

/// The indices of a projection, if there is one.
pub open spec fn indices(projection: Option<Vec<usize>>) -> Option<Seq<usize>> {
    match projection {
        Some(p) => Some(p@),
        None => None,
    }
}

/// Whether an input with the columns `columns` has the column `c`.
pub open spec fn has_column(columns: Seq<FieldView>, c: ColumnView) -> bool {
    c.index < columns.len() && columns[c.index as int].name == c.name
}

/// Whether an input with the columns `columns` has every column that the key `k` reads.
pub open spec fn has_key(columns: Seq<FieldView>, k: KeyView) -> bool {
    forall|i: int| 0 <= i < k.columns.len() ==> has_column(columns, #[trigger] k.columns[i])
}

/// The columns of an input whose rows a join may fill up with nulls.
pub open spec fn padded(columns: Seq<FieldView>) -> Seq<FieldView> {
    columns.map_values(|f: FieldView| FieldView { nullable: true, ..f })
}

/// The column that the mark join `join_type` adds: whether a row has a match.
pub open spec fn mark(join_type: JoinType) -> FieldView {
    FieldView {
        name: "mark"@,
        data_type: mark_type(join_type),
        nullable: false,
        metadata: Map::empty(),
    }
}

/// The columns that a join makes of those of its inputs, before its projection.
pub open spec fn joined_columns(
    left: Seq<FieldView>,
    right: Seq<FieldView>,
    join_type: JoinType,
) -> Seq<FieldView> {
    match join_type {
        JoinType::Inner => left + right,
        JoinType::Left => left + padded(right),
        JoinType::Right => padded(left) + right,
        JoinType::Full => padded(left) + padded(right),
        JoinType::LeftSemi | JoinType::LeftAnti => left,
        JoinType::RightSemi | JoinType::RightAnti => right,
        JoinType::LeftMark => left.push(mark(join_type)),
        JoinType::RightMark => right.push(mark(join_type)),
    }
}

/// The metadata of a join's schema: that of both inputs, and where they disagree that of the right
/// one for a right, right semi or right anti-join, and of the left one for any other.
pub open spec fn joined_metadata(
    left: Map<String, String>,
    right: Map<String, String>,
    join_type: JoinType,
) -> Map<String, String> {
    match join_type {
        JoinType::Right | JoinType::RightSemi | JoinType::RightAnti => left.union_prefer_right(
            right,
        ),
        _ => right.union_prefer_right(left),
    }
}

/// The schema that a join makes of those of its inputs, before its projection.
pub open spec fn joined_schema(
    left: SchemaView,
    right: SchemaView,
    join_type: JoinType,
) -> SchemaView {
    SchemaView {
        fields: joined_columns(left.fields, right.fields, join_type),
        metadata: joined_metadata(left.metadata, right.metadata, join_type),
    }
}

/// Whether a hash join of inputs with the columns `left` and `right` can be made: it has a key,
/// the inputs have every column that the keys read, and the projection stays within the joined
/// columns.
pub open spec fn valid_join(
    left: Seq<FieldView>,
    right: Seq<FieldView>,
    on: Seq<(KeyView, KeyView)>,
    join_type: JoinType,
    projection: Option<Seq<usize>>,
) -> bool {
    &&& on.len() > 0
    &&& forall|i: int|
        0 <= i < on.len() ==> has_key(left, (#[trigger] on[i]).0) && has_key(right, on[i].1)
    &&& projection matches Some(p) ==> forall|i: int|
        0 <= i < p.len() ==> (#[trigger] p[i]) < joined_columns(left, right, join_type).len()
}

/// The schema `schema` with its columns in the order of the projection `projection`; with all of
/// them where there is none.
pub open spec fn projected(schema: SchemaView, projection: Option<Seq<usize>>) -> SchemaView {
    match projection {
        Some(p) => SchemaView {
            fields: Seq::new(p.len(), |i: int| schema.fields[p[i] as int]),
            ..schema
        },
        None => schema,
    }
}

/// The schema of a hash join.
pub open spec fn hash_join_schema(
    left: SchemaView,
    right: SchemaView,
    join_type: JoinType,
    projection: Option<Seq<usize>>,
) -> SchemaView {
    projected(joined_schema(left, right, join_type), projection)
}

/// The schema `schema` with its columns in the order of the projection `projection`; with all of
/// them where there is none.
pub(crate) fn project(schema: Schema, projection: &Option<Vec<usize>>) -> (r: Schema)
    requires
        projection matches Some(p) ==> forall|i: int|
            0 <= i < p@.len() ==> (#[trigger] p@[i]) < schema@.fields.len(),
    ensures
        r@ == projected(schema@, indices(*projection)),
{
    match projection {
        Some(p) => {
            let mut picked: Vec<Field> = Vec::new();
            for i in it: 0..p.len()
                invariant
                    picked@.len() == it.index(),
                    forall|j: int| 0 <= j < p@.len() ==> (#[trigger] p@[j]) < schema@.fields.len(),
                    forall|j: int|
                        0 <= j < picked@.len() ==> (#[trigger] picked@[j])@
                            == schema.fields@[p@[j] as int]@,
            {
                picked.push(schema.fields[p[i]].copy());
            }
            assert(fields(picked@) =~= projected(schema@, Some(p@)).fields);
            Schema { fields: picked, metadata: schema.metadata }
        },
        None => schema,
    }
}

} // verus!
