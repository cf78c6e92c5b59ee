//! A small text templating engine: `{ name }` placeholders in a template are
//! replaced by the values of named variables, with every step specified and
//! proved.

pub mod text;
pub mod value;
pub mod templater;
pub mod rss;
pub mod rss_service;
