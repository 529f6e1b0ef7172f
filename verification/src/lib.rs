//! The property side of a live preview.
//!
//! The library turns what a compiler and a running program know of
//! properties into what a property inspector shows, and keeps what is shown
//! up to date with as few changes as will do.
//!
//! - `projector` makes an editable value (`value`) of a property's binding:
//!   a literal of the shape that the property's type expects becomes a
//!   typed value, and anything else stays source text. The expressions come
//!   as the parser presents them (`syntax_nodes`), and their literals are
//!   read by the language's own literal functions (`literals`).
//! - `flatten` makes a table of a running program's value (`live`): a
//!   struct becomes columns, an array rows, and what no table can hold
//!   becomes one cell of JSON.
//! - `differ` brings a table of rows to the content and order of a newer
//!   one, and leaves alone the rows that did not change.
//! - `grouping` and `table` build the property table of the selected
//!   element from the answer to a property query (`properties`), and
//!   `declarations` records where its properties are declared.
//! - `runtime` builds the tables of a running program's components from
//!   the answer to a query for them (`runtime_properties`), and patches a
//!   shown list with a newer one of the same shape.
//! - `components` lists the components that can be previewed, by where
//!   they come from, and `styles` the widget styles to choose from.
//! - `preview` holds the state of the user interface and the operations
//!   that bring it up to date.
//!
//! Numbers are double-precision values held by their bit pattern
//! (`number`): the library works on them with integer arithmetic alone.

pub mod color;
pub mod components;
pub mod declarations;
pub mod differ;
pub mod expression;
pub mod flatten;
pub mod grouping;
pub mod literals;
pub mod live;
pub mod model;
pub mod number;
pub mod paths;
pub mod preview;
pub mod projector;
pub mod properties;
pub mod runtime;
pub mod runtime_properties;
pub mod styles;
pub mod syntax_nodes;
pub mod table;
pub mod text;
pub mod types;
pub mod units;
pub mod value;
