//! A record store for a school: students, teachers, courses and classrooms,
//! each kept in its own stable map and keyed by ids drawn from one shared
//! counter.
//!
//! - [`school`] holds the store and its operations: add, get, update and
//!   delete for each kind of record, enrolling a student in a course,
//!   assigning a teacher to a course, and replacing a classroom's equipment.
//! - [`model`] says what the store is in contracts and what each operation
//!   returns and leaves behind; [`laws`] proves what follows.
//! - [`student`], [`teacher`], [`course`] and [`classroom`] hold the records,
//!   their payloads and their byte layouts, built from the fields in
//!   [`codec`].
//! - [`id_allocator`] and [`entity_store`] are the two parts a store is made
//!   of; [`storage`] is their boundary to stable memory, and [`headers`]
//!   tests what a memory holds before it is opened.
//! - [`error`] holds the errors and their texts.

pub mod classroom;
pub mod codec;
pub mod course;
pub mod entity_store;
pub mod error;
pub mod headers;
pub mod id_allocator;
pub mod laws;
pub mod model;
pub mod school;
pub mod storage;
pub mod student;
pub mod teacher;
