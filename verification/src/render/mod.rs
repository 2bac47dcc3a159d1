//! Rendering of pages: catalogs, annotations and renderers.
pub mod catalog;
pub mod renderer;
pub mod rendered_page;
pub mod annotations;
