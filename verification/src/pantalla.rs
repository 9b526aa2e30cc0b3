use vstd::prelude::*;

use crate::consulta::{mismo_texto, texto, EntryQuery};
use crate::modelo::{Entry, EntrySummary};
use crate::numeros::{decimal, decimal_de};
use crate::ruta;
use crate::texto::cadena_de;
use crate::tiempo::{
    fecha_hora, fecha_hora_local, formato_utc, hora_local_posible, hora_minuto, local_posible,
    rfc3339_utc, Instante,
};
use crate::vista::{
    destino_de, destino_spec, hilo_spec, markdown_del_hilo, nombre_del_hilo, nombre_hilo_spec,
    si_no_vacio,
};

verus! {

/// The metadata line of a card of the list: the agent, ` · model` when it is known,
/// and ` · hh:mm` (UTC).
pub open spec fn meta_tarjeta_spec(e: EntrySummary) -> Seq<char> {
    e.agent_name@ + (match e.model {
        Some(m) => " · "@ + m@,
        None => Seq::empty(),
    }) + " · "@ + formato_utc(e.created_at.segundos_spec(), e.created_at.nanos_spec(), "%H:%M"@)
}

/// The metadata line of a card of the list.
pub fn meta_tarjeta(e: &EntrySummary) -> (r: String)
    ensures
        r@ == meta_tarjeta_spec(*e),
{
    let mut s = texto(e.agent_name.as_str());
    let ghost antes = s@;
    match &e.model {
        Some(m) => {
            s.append(" · ");
            s.append(m.as_str());
        },
        None => {
            assert(s@ =~= antes + Seq::<char>::empty());
        },
    }
    s.append(" · ");
    let h = hora_minuto(&e.created_at);
    s.append(h.as_str());
    s
}

/// The model as the detail and the thread show it: `—` when it is not known.
pub open spec fn modelo_visible(m: Option<String>) -> Seq<char> {
    match m {
        Some(x) => x@,
        None => "—"@,
    }
}

/// The metadata line of the detail of an entry: `agent · model`.
pub open spec fn meta_detalle_spec(e: Entry) -> Seq<char> {
    e.agent_name@ + " · "@ + modelo_visible(e.model)
}

/// The metadata line of the detail of an entry.
pub fn meta_detalle(e: &Entry) -> (r: String)
    ensures
        r@ == meta_detalle_spec(*e),
{
    let mut s = texto(e.agent_name.as_str());
    s.append(" · ");
    match &e.model {
        Some(m) => s.append(m.as_str()),
        None => s.append("—"),
    }
    s
}

/// The metadata line of an entry inside a thread: `agent · model · dd/mm/yyyy hh:mm`
/// (UTC).
pub open spec fn meta_bloque_spec(e: Entry) -> Seq<char> {
    meta_detalle_spec(e) + " · "@ + formato_utc(
        e.created_at.segundos_spec(),
        e.created_at.nanos_spec(),
        "%d/%m/%Y %H:%M"@,
    )
}

/// The metadata line of an entry inside a thread.
pub fn meta_bloque(e: &Entry) -> (r: String)
    ensures
        r@ == meta_bloque_spec(*e),
{
    let mut s = meta_detalle(e);
    s.append(" · ");
    let f = fecha_hora(&e.created_at);
    s.append(f.as_str());
    s
}

/// The task summary as the detail and the thread show it: an empty one is no summary.
pub fn resumen_visible(resumen: &Option<String>) -> (r: Option<String>)
    ensures
        r.deep_view() == si_no_vacio(resumen.deep_view()),
{
    match resumen {
        Some(s) => if s.unicode_len() > 0 {
            Some(s.clone())
        } else {
            None
        },
        None => None,
    }
}

/// What the side bar says after forcing an export: how many files were written and
/// how many entries had nowhere to go.
pub open spec fn mensaje_exportacion_spec(escritas: i64, pendientes: i64) -> Seq<char> {
    if pendientes > 0 {
        decimal(escritas as int) + " escrita(s), "@ + decimal(pendientes as int) + " sin destino"@
    } else if escritas > 0 {
        decimal(escritas as int) + " escrita(s)"@
    } else {
        "No quedaba nada"@
    }
}

/// What the side bar says after forcing an export.
pub fn mensaje_exportacion(escritas: i64, pendientes: i64) -> (r: String)
    ensures
        r@ == mensaje_exportacion_spec(escritas, pendientes),
{
    if pendientes > 0 {
        let mut s = cadena_de(&decimal_de(escritas));
        s.append(" escrita(s), ");
        let p = cadena_de(&decimal_de(pendientes));
        s.append(p.as_str());
        s.append(" sin destino");
        s
    } else if escritas > 0 {
        let mut s = cadena_de(&decimal_de(escritas));
        s.append(" escrita(s)");
        s
    } else {
        texto("No quedaba nada")
    }
}

/// The view after the filters change: from the detail the page goes back to the list,
/// where the results are shown; the list and the thread stay. The first run, when the
/// page mounts, changes nothing, so that a direct link to an entry shows it.
pub open spec fn vista_tras_filtrar_spec(ya_montada: bool, v: ruta::View) -> ruta::View {
    if ya_montada && v is Detail {
        ruta::View::List
    } else {
        v
    }
}

/// The view after the filters change.
pub fn vista_tras_filtrar(ya_montada: bool, v: ruta::View) -> (r: ruta::View)
    ensures
        r == vista_tras_filtrar_spec(ya_montada, v),
{
    match v {
        ruta::View::Detail(_) => if ya_montada {
            ruta::View::List
        } else {
            v
        },
        _ => v,
    }
}

/// The address to push onto the browser's history for a view and its filters: none
/// when the browser already shows that address, so that going back does not stack
/// the page it just left.
pub fn entrada_de_historial(view: ruta::View, query: &str, ruta_actual: &str, busqueda_actual: &str) -> (r: Option<String>)
    ensures
        r is None <==> destino_spec(view, query@) == ruta_actual@ + busqueda_actual@,
        r matches Some(d) ==> d@ == destino_spec(view, query@),
{
    let destino = destino_de(view, query);
    let mut actual = texto(ruta_actual);
    actual.append(busqueda_actual);
    if mismo_texto(destino.as_str(), actual.as_str()) {
        None
    } else {
        Some(destino)
    }
}

/// The hand marking of an entry's export state: the state it is set to, the button's
/// label and its warning.
pub open spec fn marcado_spec(exportada: bool) -> (bool, Seq<char>, Seq<char>) {
    if exportada {
        (
            false,
            "Marcar sin exportar"@,
            "Marcarla como no exportada: el exportador la reescribira en la siguiente pasada, respetando el fichero si ya existe"@,
        )
    } else {
        (
            true,
            "Marcar exportada"@,
            "Marcarla como exportada sin escribir el fichero: quedara sin exportar de verdad"@,
        )
    }
}

/// The hand marking of an entry's export state: the new state is the opposite one.
pub fn accion_de_marcado(exportada: bool) -> (r: (bool, &'static str, &'static str))
    ensures
        r.0 == marcado_spec(exportada).0,
        r.1@ == marcado_spec(exportada).1,
        r.2@ == marcado_spec(exportada).2,
{
    if exportada {
        (
            false,
            "Marcar sin exportar",
            "Marcarla como no exportada: el exportador la reescribira en la siguiente pasada, respetando el fichero si ya existe",
        )
    } else {
        (
            true,
            "Marcar exportada",
            "Marcarla como exportada sin escribir el fichero: quedara sin exportar de verdad",
        )
    }
}

/// What the thread says after trying to copy it.
pub fn aviso_de_copia(copiado: bool) -> (r: &'static str)
    ensures
        r@ == (if copiado {
            "Copiado"@
        } else {
            "El navegador no dejo copiar"@
        }),
{
    if copiado {
        "Copiado"
    } else {
        "El navegador no dejo copiar"
    }
}

/// The error shown when the thread cannot be loaded: the server's own message when it
/// gave one (it says how to narrow the search), else a generic one.
pub fn error_del_hilo(mensaje: Option<String>) -> (r: String)
    ensures
        r@ == (match mensaje {
            Some(m) => m@,
            None => "no se pudo cargar el hilo"@,
        }),
{
    match mensaje {
        Some(m) => m,
        None => texto("no se pudo cargar el hilo"),
    }
}

/// What the side bar says while an export it asked for is running.
pub fn texto_exportando() -> (r: &'static str)
    ensures
        r@ == "Exportando…"@,
{
    "Exportando…"
}

/// What the side bar says once an export it asked for has answered: the counts, or
/// `Error: ` and the reason.
pub fn resultado_de_exportacion(resultado: Result<(i64, i64), String>) -> (r: String)
    ensures
        r@ == (match resultado {
            Ok((escritas, pendientes)) => mensaje_exportacion_spec(escritas, pendientes),
            Err(m) => "Error: "@ + m@,
        }),
{
    match resultado {
        Ok((escritas, pendientes)) => mensaje_exportacion(escritas, pendientes),
        Err(m) => {
            let mut s = texto("Error: ");
            s.append(m.as_str());
            s
        },
    }
}

/// What "Copiar markdown" does with a thread.
pub enum CopiaDelHilo {
    /// Copy this markdown to the clipboard.
    AlPortapapeles(String),
    /// There is no clipboard: download this markdown as a file of this name, and show
    /// this notice.
    Descarga { nombre: String, contenido: String, aviso: String },
}

/// The notice shown when the thread was downloaded for want of a clipboard.
pub open spec fn aviso_sin_portapapeles() -> Seq<char> {
    "Sin portapapeles: descargado como fichero"@
}

/// What "Copiar markdown" does: with a clipboard, copy the thread's markdown; without
/// one (no secure context), download it as a file instead of doing nothing.
pub fn copia_del_hilo(hay_portapapeles: bool, q: &EntryQuery, entradas: &Vec<Entry>) -> (r: CopiaDelHilo)
    ensures
        hay_portapapeles ==> (r matches CopiaDelHilo::AlPortapapeles(md) && md@ == hilo_spec(
            q@,
            entradas@,
        )),
        !hay_portapapeles ==> (r matches CopiaDelHilo::Descarga { nombre, contenido, aviso } && contenido@
            == hilo_spec(q@, entradas@) && aviso@ == aviso_sin_portapapeles() && exists|
            hora: Seq<char>,
            segundos: int,
            nanos: int,
        |
            rfc3339_utc(segundos, nanos) is Some && hora_local_posible(segundos, nanos, hora)
                && nombre@ == nombre_hilo_spec(q@, hora)),
{
    let md = markdown_del_hilo(q, entradas);
    if hay_portapapeles {
        CopiaDelHilo::AlPortapapeles(md)
    } else {
        let nombre = nombre_del_hilo(q);
        CopiaDelHilo::Descarga {
            nombre,
            contenido: md,
            aviso: texto("Sin portapapeles: descargado como fichero"),
        }
    }
}

/// What the detail says of an entry's export: when it was exported, in the machine's
/// local day and time, or that it was not.
pub fn estado_exportacion(exportada: &Option<Instante>) -> (r: String)
    ensures
        exportada is None ==> r@ == "Sin exportar"@,
        exportada matches Some(t) ==> exists|hora: Seq<char>|
            local_posible(t.segundos_spec(), t.nanos_spec(), "%d/%m/%Y %H:%M"@, hora) && r@
                == "Exportada el "@ + hora,
{
    match exportada {
        Some(t) => {
            let hora = fecha_hora_local(t);
            let mut s = texto("Exportada el ");
            s.append(hora.as_str());
            s
        },
        None => texto("Sin exportar"),
    }
}

} // verus!
