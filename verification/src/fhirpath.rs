//! The value model: typed values, the trees of complex values, and ordered
//! collections of values.

pub mod collection;
pub mod data_tree;
pub mod value;

pub use collection::Collection;
pub use data_tree::{DataNode, DataNodeView};
pub use value::{
    OffsetDateTime, Quantity, QuantityView, Type, Value, ValueView, ANY, BOOLEAN, DATE, DATETIME,
    DECIMAL, INTEGER, QUANTITY, STRING, TIME,
};
