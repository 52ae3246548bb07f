//! Input interfaces of configurable fields and the data types they store.

use vstd::prelude::*;

verus! {

/// The type of the data that a field stores.
#[derive(Debug, Clone, Copy, PartialEq, Eq, Structural)]
pub enum DataType {
    String,
    Text,
    UUID,
    Integer,
    BigInteger,
    Float,
    Decimal,
    Boolean,
    JSON,
    CSV,
    DateTime,
    Date,
    Time,
    Timestamp,
}

/// The interface through which a field is edited; each carries a value of the
/// parameter type.
#[derive(Debug, Clone, PartialEq, Eq)]
pub enum InputInterface<T> {
    Input(T),
    InputCode(T),
    InputText(T),
    InputTextarea(T),
    InputTags(T),
    InputString(T),
    Slug(T),
    Boolean(T),
    Decimal(T),
    Float(T),
    Hash(T),
    Integer(T),
    SelectDropdown(T),
    SelectColor(T),
    SelectIcon(T),
    SelectRadioGroup(T),
    File(T),
    FileImage(T),
    Datetime(T),
    EditorBlock(T),
    Csv(T),
}

impl Default for InputInterface<DataType> {
    fn default() -> (r: Self)
        ensures
            r == InputInterface::Input(DataType::String),
    {
        InputInterface::Input(DataType::String)
    }
}

impl InputInterface<DataType> {
    /// The text interfaces: plain input, code, text, text area, tags, string
    /// and slug.
    pub open spec fn text_kind(self) -> bool {
        self is Input || self is InputCode || self is InputText || self is InputTextarea
            || self is InputTags || self is InputString || self is Slug
    }

    /// The selection interfaces: drop-down, colour, icon and radio group.
    pub open spec fn selection_kind(self) -> bool {
        self is SelectDropdown || self is SelectColor || self is SelectIcon
            || self is SelectRadioGroup
    }

    /// The file interfaces: file and image.
    pub open spec fn file_kind(self) -> bool {
        self is File || self is FileImage
    }

    /// The remaining interfaces: block editor and CSV.
    pub open spec fn other_kind(self) -> bool {
        self is EditorBlock || self is Csv
    }

    /// The data type that the interface stores, whatever value it carries:
    /// the type of the same name for boolean, decimal, float and integer,
    /// date-time for the date-time interface, string for all others.
    pub open spec fn stored_type(self) -> DataType {
        if self is Boolean {
            DataType::Boolean
        } else if self is Decimal {
            DataType::Decimal
        } else if self is Float {
            DataType::Float
        } else if self is Integer {
            DataType::Integer
        } else if self is Datetime {
            DataType::DateTime
        } else {
            DataType::String
        }
    }

    /// Whether this is a text interface.
    pub fn is_text(&self) -> (b: bool)
        ensures
            b == self.text_kind(),
    {
        match self {
            InputInterface::Input(_) => true,
            InputInterface::InputCode(_) => true,
            InputInterface::InputText(_) => true,
            InputInterface::InputTextarea(_) => true,
            InputInterface::InputTags(_) => true,
            InputInterface::InputString(_) => true,
            InputInterface::Slug(_) => true,
            _ => false,
        }
    }

    /// Whether this is a selection interface.
    pub fn is_selection(&self) -> (b: bool)
        ensures
            b == self.selection_kind(),
    {
        match self {
            InputInterface::SelectDropdown(_) => true,
            InputInterface::SelectColor(_) => true,
            InputInterface::SelectIcon(_) => true,
            InputInterface::SelectRadioGroup(_) => true,
            _ => false,
        }
    }

    /// Whether this is a relational interface; there is none.
    pub fn is_relational(&self) -> (b: bool)
        ensures
            !b,
    {
        false
    }

    /// Whether this is a file interface.
    pub fn is_file(&self) -> (b: bool)
        ensures
            b == self.file_kind(),
    {
        match self {
            InputInterface::File(_) => true,
            InputInterface::FileImage(_) => true,
            _ => false,
        }
    }

    /// Whether this is the date-time interface.
    pub fn is_date(&self) -> (b: bool)
        ensures
            b == (self is Datetime),
    {
        match self {
            InputInterface::Datetime(_) => true,
            _ => false,
        }
    }

    /// Whether this is a map interface; there is none.
    pub fn is_map(&self) -> (b: bool)
        ensures
            !b,
    {
        false
    }

    /// Whether this is one of the remaining interfaces.
    pub fn is_other(&self) -> (b: bool)
        ensures
            b == self.other_kind(),
    {
        match self {
            InputInterface::EditorBlock(_) => true,
            InputInterface::Csv(_) => true,
            _ => false,
        }
    }

    /// The data type that the interface stores.
    pub fn get_type(&self) -> (t: DataType)
        ensures
            t == self.stored_type(),
    {
        match self {
            InputInterface::Boolean(_) => DataType::Boolean,
            InputInterface::Decimal(_) => DataType::Decimal,
            InputInterface::Float(_) => DataType::Float,
            InputInterface::Integer(_) => DataType::Integer,
            InputInterface::Datetime(_) => DataType::DateTime,
            _ => DataType::String,
        }
    }
}

} // verus!
