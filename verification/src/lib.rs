//! A small relational query engine over delimited text tables: statements are
//! tokenized, parsed into a typed tree and run against the lines of a table.

pub mod errores;
pub mod texto;
pub mod enteros;
pub mod campos;
pub mod dato;
pub mod operador;
pub mod lexer;
pub mod condicion;
pub mod consultas;
pub mod utils;
pub mod gramatica;
pub mod parser;
pub mod manejo_csv;
pub mod leyes;
pub mod orden;
pub mod executer;
pub mod relaciones;
pub mod leyes_orden;
pub mod leyes_tabla;
pub mod entrada;
pub mod leyes_gramatica;
