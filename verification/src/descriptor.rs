//! The entity descriptor: the immediate representation of one record
//! declaration after extraction and key grouping, consumed by synthesis.

use vstd::prelude::*;

use crate::casing::to_snake;
use crate::casing::snake_of;

verus! {

/// One declared field of the record: its identifier, the text of its
/// declared type, and the storage column it maps to.
pub struct FieldColumn {
    pub field_name: String,
    pub field_type: String,
    pub column_name: String,
}

/// The mathematical image of a `FieldColumn`: its strings as character
/// sequences.
pub ghost struct FieldColumnV {
    pub field_name: Seq<char>,
    pub field_type: Seq<char>,
    pub column_name: Seq<char>,
}

impl View for FieldColumn {
    type V = FieldColumnV;

    open spec fn view(&self) -> FieldColumnV {
        FieldColumnV {
            field_name: self.field_name@,
            field_type: self.field_type@,
            column_name: self.column_name@,
        }
    }
}

impl FieldColumn {
    pub fn new(field_name: String, field_type: String, column_name: String) -> (r: Self)
        ensures
            r@ == (FieldColumnV {
                field_name: field_name@,
                field_type: field_type@,
                column_name: column_name@,
            }),
    {
        FieldColumn { field_name, field_type, column_name }
    }
}

impl Clone for FieldColumn {
    fn clone(&self) -> (r: Self)
        ensures
            r@ == self@,
    {
        FieldColumn {
            field_name: self.field_name.clone(),
            field_type: self.field_type.clone(),
            column_name: self.column_name.clone(),
        }
    }
}

/// One named, possibly composite, lookup key: its name, whether any of its
/// components was declared unique, and its component fields in declaration
/// order.
pub struct Key {
    pub name: String,
    pub unique: bool,
    pub components: Vec<FieldColumn>,
}

/// The mathematical image of a `Key`.
pub ghost struct KeyV {
    pub name: Seq<char>,
    pub unique: bool,
    pub components: Seq<FieldColumnV>,
}

/// The views of a sequence of field columns.
pub open spec fn cols_view(s: Seq<FieldColumn>) -> Seq<FieldColumnV> {
    s.map_values(|c: FieldColumn| c@)
}

/// The views of a sequence of keys.
pub open spec fn keys_view(s: Seq<Key>) -> Seq<KeyV> {
    s.map_values(|k: Key| k@)
}

impl View for Key {
    type V = KeyV;

    open spec fn view(&self) -> KeyV {
        KeyV { name: self.name@, unique: self.unique, components: cols_view(self.components@) }
    }
}

impl Key {
    pub fn new(name: String, unique: bool, components: Vec<FieldColumn>) -> (r: Self)
        ensures
            r@ == (KeyV { name: name@, unique: unique, components: cols_view(components@) }),
    {
        Key { name, unique, components }
    }
}

/// The record-level aggregate handed to synthesis: the record's identifier,
/// an optional display-name override, the backing table name, all field
/// columns in declaration order, and the key groups in first-seen order.
pub struct DeriveEntity {
    pub entity: String,
    pub snake_name: Option<String>,
    pub table_name: String,
    pub columns: Vec<FieldColumn>,
    pub keys: Vec<Key>,
}

/// The mathematical image of a `DeriveEntity`.
pub ghost struct EntityV {
    pub entity: Seq<char>,
    pub snake_name: Option<Seq<char>>,
    pub table_name: Seq<char>,
    pub columns: Seq<FieldColumnV>,
    pub keys: Seq<KeyV>,
}

impl View for DeriveEntity {
    type V = EntityV;

    open spec fn view(&self) -> EntityV {
        EntityV {
            entity: self.entity@,
            snake_name: match self.snake_name {
                Some(n) => Some(n@),
                None => None,
            },
            table_name: self.table_name@,
            columns: cols_view(self.columns@),
            keys: keys_view(self.keys@),
        }
    }
}

impl EntityV {
    /// The display name synthesis derives names from: the override when one
    /// was given, else the record's own identifier.
    pub open spec fn display_name(self) -> Seq<char> {
        match self.snake_name {
            Some(n) => n,
            None => self.entity,
        }
    }

    /// The descriptor's invariant: field identifiers are unique, every key
    /// has at least one component, and every key component is one of the
    /// descriptor's own field columns.
    pub open spec fn wf(self) -> bool {
        &&& forall|i: int, j: int|
            0 <= i < j < self.columns.len() ==> self.columns[i].field_name
                != self.columns[j].field_name
        &&& forall|i: int| 0 <= i < self.keys.len() ==> (#[trigger] self.keys[i]).components.len() >= 1
        &&& forall|i: int, j: int|
            0 <= i < self.keys.len() && 0 <= j < (#[trigger] self.keys[i]).components.len()
                ==> self.columns.contains(#[trigger] self.keys[i].components[j])
    }
}

impl DeriveEntity {
    pub fn new(
        entity: String,
        snake_name: Option<String>,
        table_name: String,
        columns: Vec<FieldColumn>,
        keys: Vec<Key>,
    ) -> (r: Self)
        ensures
            r@ == (EntityV {
                entity: entity@,
                snake_name: match snake_name {
                    Some(n) => Some(n@),
                    None => None,
                },
                table_name: table_name@,
                columns: cols_view(columns@),
                keys: keys_view(keys@),
            }),
    {
        DeriveEntity { entity, snake_name, table_name, columns, keys }
    }

    /// The lower-snake form of the display name, used in generated operation
    /// names.
    pub fn entity_snake_name(&self) -> (r: String)
        ensures
            r@ == snake_of(self@.display_name()),
    {
        match &self.snake_name {
            Some(n) => to_snake(n.as_str()),
            None => to_snake(self.entity.as_str()),
        }
    }
}

} // verus!
