use vstd::prelude::*;

pub mod almacen;
pub mod claves;
pub mod consulta;
pub mod error;
pub mod exportacion;
pub mod markdown;
pub mod modelo;
pub mod numeros;
pub mod pantalla;
pub mod render;
pub mod ruta;
pub mod servidor;
pub mod slug;
pub mod texto;
pub mod tiempo;
pub mod vista;

verus! {
}
