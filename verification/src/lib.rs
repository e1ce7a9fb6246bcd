//! Templates are used to skip diffing on any static parts of a user interface.
//!
//! A template holds partly static and partly dynamic content in the same nodes. For example
//!
//! ```text
//! div {
//!     color: "{color}",       // attribute index 0
//!     "Hello, world",
//!     "{dynamic_text_1}",     // text index 0
//!     "{dynamic_text_2}",     // text index 1
//!     dynamic_iterator        // node index 0
//! }
//! ```
//!
//! is a template that says how to build `div { "Hello, world" }`. The renderer builds that once
//! ([`create`]) and clones it into place. Every reference to the template then hydrates the clone
//! with the values of its own dynamic context ([`hydrate`] and [`template_ref`]).
//!
//! Each dynamic part is an index into the dynamic context. The template keeps, for each value of the
//! context, which of its nodes depend on it ([`mapping`]), so that hydration finds the dynamic parts
//! without walking through the template: its cost grows with the number of dynamic parts, not with
//! the number of nodes.
//!
//! A template that is written down in the program is made of `'static` references. Hot reloading
//! replaces it with one that is made at run time and owns its parts. Both have the same mathematical
//! view, and all contracts speak of that view ([`storage`], [`node`], [`template`]). What identifies
//! a template is the place in the code where it is written ([`location`]); [`resolver`] gives it an id
//! in the renderer.

pub mod arena;
pub mod context;
pub mod create;
pub mod finite;
pub mod hydrate;
pub mod ids;
pub mod least;
pub mod location;
pub mod mapping;
pub mod mutations;
pub mod node;
pub mod resolver;
pub mod storage;
pub mod template;
pub mod template_ref;
pub mod value;
