//! The columns of a molecule record.
use vstd::prelude::*;

verus! {

/// The type of a column's values.
#[derive(Debug, Clone, Copy, PartialEq, Eq, Structural)]
pub enum ColumnType {
    Binary,
    Float64,
    Utf8,
    /// Signed 64-bit integers; dates are held as Unix milliseconds.
    Int64,
    Boolean,
    UInt64,
}

/// A column: its name, the type of its values and whether a value may be
/// missing.
#[derive(Debug, PartialEq, Eq)]
pub struct ColumnSpec {
    pub name: String,
    pub data_type: ColumnType,
    pub nullable: bool,
}

/// The mathematical value of a [`ColumnSpec`].
pub struct Column {
    pub name: Seq<char>,
    pub data_type: ColumnType,
    pub nullable: bool,
}

impl View for ColumnSpec {
    type V = Column;

    open spec fn view(&self) -> Column {
        Column { name: self.name@, data_type: self.data_type, nullable: self.nullable }
    }
}

/// The values of a list of columns.
pub open spec fn columns_of(specs: Seq<ColumnSpec>) -> Seq<Column> {
    Seq::new(specs.len(), |i: int| specs[i]@)
}

/// The schema of a molecule record.
pub struct MoleculeSchema;

impl MoleculeSchema {
    /// The columns of a molecule record, in order.
    pub open spec fn columns() -> Seq<Column> {
        seq![
            Column { name: "coordinate_hash"@, data_type: ColumnType::Binary, nullable: false },
            Column { name: "numeric_value"@, data_type: ColumnType::Float64, nullable: true },
            Column { name: "text_commentary"@, data_type: ColumnType::Utf8, nullable: true },
            Column { name: "embedding_vector"@, data_type: ColumnType::Binary, nullable: true },
            Column { name: "date_value"@, data_type: ColumnType::Int64, nullable: true },
            Column { name: "boolean_value"@, data_type: ColumnType::Boolean, nullable: true },
            Column { name: "error_value"@, data_type: ColumnType::Utf8, nullable: true },
            Column { name: "timestamp"@, data_type: ColumnType::Int64, nullable: false },
            Column { name: "source_system"@, data_type: ColumnType::Utf8, nullable: false },
            Column { name: "security_mask"@, data_type: ColumnType::UInt64, nullable: false },
            Column { name: "causality_clock"@, data_type: ColumnType::Binary, nullable: true },
            Column { name: "is_locked"@, data_type: ColumnType::Boolean, nullable: true },
        ]
    }

    /// One column.
    fn column(name: &str, data_type: ColumnType, nullable: bool) -> (spec: ColumnSpec)
        ensures
            spec@ == (Column { name: name@, data_type, nullable }),
    {
        ColumnSpec { name: name.to_owned(), data_type, nullable }
    }

    /// The columns of a molecule record, in order.
    pub fn schema() -> (specs: Vec<ColumnSpec>)
        ensures
            columns_of(specs@) == MoleculeSchema::columns(),
    {
        let mut specs: Vec<ColumnSpec> = Vec::new();
        specs.push(MoleculeSchema::column("coordinate_hash", ColumnType::Binary, false));
        specs.push(MoleculeSchema::column("numeric_value", ColumnType::Float64, true));
        specs.push(MoleculeSchema::column("text_commentary", ColumnType::Utf8, true));
        specs.push(MoleculeSchema::column("embedding_vector", ColumnType::Binary, true));
        specs.push(MoleculeSchema::column("date_value", ColumnType::Int64, true));
        specs.push(MoleculeSchema::column("boolean_value", ColumnType::Boolean, true));
        specs.push(MoleculeSchema::column("error_value", ColumnType::Utf8, true));
        specs.push(MoleculeSchema::column("timestamp", ColumnType::Int64, false));
        specs.push(MoleculeSchema::column("source_system", ColumnType::Utf8, false));
        specs.push(MoleculeSchema::column("security_mask", ColumnType::UInt64, false));
        specs.push(MoleculeSchema::column("causality_clock", ColumnType::Binary, true));
        specs.push(MoleculeSchema::column("is_locked", ColumnType::Boolean, true));
        assert(columns_of(specs@) =~= MoleculeSchema::columns());
        specs
    }
}

} // verus!
