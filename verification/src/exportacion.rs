use vstd::prelude::*;

verus! {

/// Where an entry is written.
#[derive(Clone, Debug, PartialEq)]
pub enum Destino {
    /// The `diario-ia` folder of this repository.
    Repositorio(String),
    /// This central directory.
    Central(String),
}

/// The destinations of an entry: its application's repository when it has one, then
/// the central directory when it is set and not empty.
pub fn destinos_de(repo: Option<String>, central: Option<String>) -> (r: Vec<Destino>)
    ensures
        r@.len() == (if repo is Some { 1int } else { 0 }) + (if central matches Some(c) && c@.len() > 0 {
            1int
        } else {
            0
        }),
        repo matches Some(p) ==> r@[0] == Destino::Repositorio(p),
        central matches Some(c) ==> (c@.len() > 0 ==> r@[r@.len() - 1] == Destino::Central(c)),
{
    let mut v: Vec<Destino> = Vec::new();
    if let Some(p) = repo {
        v.push(Destino::Repositorio(p));
    }
    if let Some(c) = central {
        if c.unicode_len() > 0 {
            v.push(Destino::Central(c));
        }
    }
    v
}

/// An entry is marked as exported only when it had somewhere to go and every
/// destination was written; otherwise it stays pending and is retried whole.
pub fn se_marca(escrituras_ok: &Vec<bool>) -> (r: bool)
    ensures
        r == (escrituras_ok@.len() > 0 && forall|i: int| 0 <= i < escrituras_ok@.len() ==> #[trigger] escrituras_ok@[i]),
{
    let n = escrituras_ok.len();
    if n == 0 {
        return false;
    }
    let mut i: usize = 0;
    while i < n
        invariant
            i <= n == escrituras_ok@.len(),
            forall|j: int| 0 <= j < i ==> #[trigger] escrituras_ok@[j],
        decreases n - i,
    {
        if !escrituras_ok[i] {
            return false;
        }
        i = i + 1;
    }
    true
}


/// Where the exporter goes on after a batch of pending entries (their ids, in order):
/// after the last of them; an empty batch means there is nothing left, and it stops.
pub fn cursor_tras_lote(ids: &Vec<i64>) -> (r: Option<i64>)
    ensures
        ids@.len() == 0 ==> r is None,
        ids@.len() > 0 ==> r == Some(ids@.last()),
{
    if ids.len() == 0 {
        None
    } else {
        Some(ids[ids.len() - 1])
    }
}

/// Where the `export` command goes on after a page of entries: with the page's next
/// cursor, unless the page came empty or has no next cursor, when it stops.
pub fn cursor_tras_pagina(entradas_en_pagina: usize, siguiente: Option<i64>) -> (r: Option<i64>)
    ensures
        entradas_en_pagina == 0 ==> r is None,
        entradas_en_pagina > 0 ==> r == siguiente,
{
    if entradas_en_pagina == 0 {
        None
    } else {
        siguiente
    }
}
}
