//! Normalization of loosely structured JSON formula collections and template
//! libraries, and rendering of formula collections as LaTeX and Markdown.

pub mod json;
pub mod text;
pub mod formulas;
pub mod templates;
pub mod render;

pub use formulas::{normalize_formulas, FormulaEntry, NormalizeError};
pub use json::Json;
pub use render::{format_latex, format_markdown, FormulaItem};
pub use templates::{normalize_templates, TemplateCategory, TemplateItem, TemplateLibrary};
pub use text::escape_latex_text;
