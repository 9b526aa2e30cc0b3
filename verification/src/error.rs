use vstd::prelude::*;

use crate::consulta::texto;

verus! {

/// The errors of the diary, with the message each one carries.
#[derive(Debug)]
pub enum AppError {
    /// The entry does not exist.
    NotFound,
    /// A missing or wrong key or token.
    Unauthorized,
    /// A request the diary refuses, with the reason.
    BadRequest(String),
    /// A database error, with its text.
    Db(String),
    /// A connection pool error, with its text.
    Pool(String),
    /// Any other error, with its text.
    Other(String),
}

/// HTTP status and public message of an error: internal errors never show their text.
pub open spec fn respuesta_spec(e: AppError) -> (u16, Seq<char>) {
    match e {
        AppError::NotFound => (404, "no encontrado"@),
        AppError::Unauthorized => (401, "no autorizado"@),
        AppError::BadRequest(m) => (400, m@),
        AppError::Db(_) => (500, "error interno"@),
        AppError::Pool(_) => (500, "error interno"@),
        AppError::Other(_) => (500, "error interno"@),
    }
}

impl AppError {
    /// HTTP status and message of the JSON answer for this error.
    pub fn estado_y_mensaje(&self) -> (r: (u16, String))
        ensures
            (r.0, r.1@) == respuesta_spec(*self),
    {
        match self {
            AppError::NotFound => (404, texto("no encontrado")),
            AppError::Unauthorized => (401, texto("no autorizado")),
            AppError::BadRequest(m) => (400, m.clone()),
            AppError::Db(_) => (500, texto("error interno")),
            AppError::Pool(_) => (500, texto("error interno")),
            AppError::Other(_) => (500, texto("error interno")),
        }
    }
}

}
