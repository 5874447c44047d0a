//! Core of an annotation-driven documentation generator.
//!
//! Two independent components:
//!
//! * [`doc_comment`] collects documentation text scattered over source
//!   annotations, resolves file-inclusion expressions among them, strips the
//!   common leading indentation and joins the lines into one string.
//! * [`parameter`] parses the comma-separated clause that describes one
//!   request parameter (name, optional type, location, flags, description)
//!   into a validated [`parameter::Parameter`] record.
//!
//! Both work on plain owned values; the host-syntax adapter that produces
//! those values, and the file and environment reads that inclusion
//! expressions need, live outside this crate.

pub mod strutil;

pub mod doc_comment;

pub mod parameter;
