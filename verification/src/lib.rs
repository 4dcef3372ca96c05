//! Small verified library of basic language mechanics: integer casting and
//! wrapping, composite record types, bounds-checked access into fixed buffers,
//! line splitting for text files with classified read errors, and simple
//! arithmetic helpers.

pub mod casting;
pub mod custom_types;
pub mod file_ops;
pub mod functions;
pub mod parse;
pub mod primitives;
