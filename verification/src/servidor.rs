use vstd::prelude::*;

use crate::consulta::{mismo_texto, texto};
use crate::modelo::{CreatedEntry, GetEntryArgs, KeyInfo, ListEntriesArgs, LogTaskArgs, NewEntry};
use crate::numeros::{decimal, decimal_de};
use crate::texto::{cadena_de, caracteres, recortado, recortar, tramo};
use crate::vista::{empieza_por, quitar_barras_finales, sin_barras_finales};

verus! {

/// Configuration of the server.
#[derive(Clone, Debug)]
pub struct ServerConfig {
    /// Listening address (DIARIO_BIND, 0.0.0.0:8787 by default).
    pub bind: String,
    /// Path of the SQLite file (DIARIO_DB).
    pub db_path: String,
    /// Public base URL for the links to entries (DIARIO_PUBLIC_URL).
    pub public_url: String,
    /// Optional read token (DIARIO_VIEWER_TOKEN); reading is free without it.
    pub viewer_token: Option<String>,
    /// Central directory where the tasks of every application are written
    /// (DIARIO_TAREAS_DIR); empty means no central destination.
    pub tareas_dir: Option<String>,
    /// Operation log mode (DIARIO_LOG_OPS).
    pub log_ops: bool,
    /// Whether marking the export state is open to readers (for local instances).
    pub marcado_abierto: bool,
}

/// The link to an entry: the public URL without trailing slashes, `/entry/` and the id.
pub open spec fn url_entrada_spec(public_url: Seq<char>, id: i64) -> Seq<char> {
    sin_barras_finales(public_url) + "/entry/"@ + decimal(id as int)
}

/// The line an operation leaves in the log: `[origin] operation detail`.
pub open spec fn linea_traza_spec(origen: Seq<char>, operacion: Seq<char>, detalle: Seq<char>) -> Seq<char> {
    "["@ + origen + "] "@ + operacion + " "@ + detalle
}

impl ServerConfig {
    /// The public link to an entry.
    pub fn entry_url(&self, id: i64) -> (r: String)
        ensures
            r@ == url_entrada_spec(self.public_url@, id),
    {
        let base = cadena_de(&quitar_barras_finales(&caracteres(self.public_url.as_str())));
        let mut s = base;
        s.append("/entry/");
        let n = cadena_de(&decimal_de(id));
        s.append(n.as_str());
        s
    }

    /// The line to log for an operation when the log mode is on; `None` when it is
    /// off. Prompts and responses are never given to it, only what says what happened.
    pub fn traza(&self, origen: &str, operacion: &str, detalle: &str) -> (r: Option<String>)
        ensures
            self.log_ops ==> r.deep_view() == Some(linea_traza_spec(origen@, operacion@, detalle@)),
            !self.log_ops ==> r is None,
    {
        if self.log_ops {
            let mut s = texto("[");
            s.append(origen);
            s.append("] ");
            s.append(operacion);
            s.append(" ");
            s.append(detalle);
            Some(s)
        } else {
            None
        }
    }

    /// The central directory, an empty one counting as none.
    pub fn tareas_dir_efectivo(&self) -> (r: Option<String>)
        ensures
            r.deep_view() == match self.tareas_dir {
                Some(t) => if t@.len() > 0 {
                    Some(t@)
                } else {
                    None
                },
                None => None,
            },
    {
        match &self.tareas_dir {
            Some(t) => if t.unicode_len() > 0 {
                Some(t.clone())
            } else {
                None
            },
            None => None,
        }
    }
}

/// `Cache-Control` of an embedded asset: the bundles carry a hash in their name, so
/// `.wasm`, `.js` and `.css` are cached for a year; the rest is revalidated.
pub open spec fn cache_control_spec(path: Seq<char>) -> Seq<char> {
    if path.len() >= ".wasm"@.len() && path.skip(path.len() - ".wasm"@.len()) == ".wasm"@ || path.len()
        >= ".js"@.len() && path.skip(path.len() - ".js"@.len()) == ".js"@ || path.len()
        >= ".css"@.len() && path.skip(path.len() - ".css"@.len()) == ".css"@ {
        "public, max-age=31536000, immutable"@
    } else {
        "no-cache"@
    }
}

/// Whether `a` ends with `b`.
pub fn termina_en(a: &str, b: &str) -> (r: bool)
    ensures
        r == (a@.len() >= b@.len() && a@.skip(a@.len() - b@.len()) == b@),
{
    let x = caracteres(a);
    let y = caracteres(b);
    if y.len() > x.len() {
        return false;
    }
    let fin = tramo(&x, x.len() - y.len(), x.len());
    assert(fin@ =~= x@.skip(x@.len() - y@.len()));
    mismo_texto(cadena_de(&fin).as_str(), b)
}

/// `Cache-Control` of an embedded asset.
pub fn cache_control(path: &str) -> (r: &'static str)
    ensures
        r@ == cache_control_spec(path@),
{
    if termina_en(path, ".wasm") || termina_en(path, ".js") || termina_en(path, ".css") {
        "public, max-age=31536000, immutable"
    } else {
        "no-cache"
    }
}

/// `trim_start_matches('/')`.
pub open spec fn sin_barras_iniciales(s: Seq<char>) -> Seq<char>
    decreases s.len(),
{
    if s.len() > 0 && s[0] == '/' {
        sin_barras_iniciales(s.drop_first())
    } else {
        s
    }
}

/// The embedded asset a request path asks for: the path without its leading slashes,
/// `index.html` when nothing is left.
pub open spec fn asset_spec(path: Seq<char>) -> Seq<char> {
    if sin_barras_iniciales(path).len() == 0 {
        "index.html"@
    } else {
        sin_barras_iniciales(path)
    }
}

/// The embedded asset a request path asks for.
pub fn ruta_de_asset(path: &str) -> (r: String)
    ensures
        r@ == asset_spec(path@),
{
    let cs = caracteres(path);
    let n = cs.len();
    let mut i: usize = 0;
    assert(cs@.subrange(0, n as int) =~= cs@);
    while i < n && cs[i] == '/'
        invariant
            i <= n == cs@.len(),
            sin_barras_iniciales(cs@) == sin_barras_iniciales(cs@.subrange(i as int, n as int)),
        decreases n - i,
    {
        assert(cs@.subrange(i as int, n as int).drop_first() =~= cs@.subrange(i + 1, n as int));
        i = i + 1;
    }
    if i == n {
        assert(cs@.subrange(i as int, n as int) =~= Seq::<char>::empty());
        texto("index.html")
    } else {
        cadena_de(&tramo(&cs, i, n))
    }
}

/// The token of a request: `Authorization: Bearer <t>` first, else `X-API-Key: <t>`,
/// trimmed either way.
pub open spec fn token_spec(autorizacion: Option<Seq<char>>, clave: Option<Seq<char>>) -> Option<Seq<char>> {
    match autorizacion {
        Some(a) if a.len() >= "Bearer "@.len() && a.take("Bearer "@.len() as int) == "Bearer "@ => Some(
            recortado(a.skip("Bearer "@.len() as int)),
        ),
        _ => match clave {
            Some(k) => Some(recortado(k)),
            None => None,
        },
    }
}

/// The token of a request, from the text of its `Authorization` header and of its
/// `X-API-Key` header (each `None` when absent or not visible ASCII).
pub fn bearer_or_apikey(autorizacion: Option<&str>, clave: Option<&str>) -> (r: Option<String>)
    ensures
        r.deep_view() == token_spec(autorizacion.deep_view(), clave.deep_view()),
{
    if let Some(a) = autorizacion {
        let cs = caracteres(a);
        let pre = caracteres("Bearer ");
        if empieza_por(&cs, &pre) {
            let resto = tramo(&cs, pre.len(), cs.len());
            assert(resto@ =~= a@.skip("Bearer "@.len() as int));
            return Some(cadena_de(&recortar(&resto)));
        }
    }
    match clave {
        Some(k) => Some(cadena_de(&recortar(&caracteres(k)))),
        None => None,
    }
}

/// The value of the first `token=` parameter of a query string (split at `&`).
pub open spec fn token_de_query_spec(piezas: Seq<Seq<char>>) -> Option<Seq<char>>
    decreases piezas.len(),
{
    if piezas.len() == 0 {
        None
    } else {
        let p = piezas[0];
        if p.len() >= "token="@.len() && p.take("token="@.len() as int) == "token="@ {
            Some(p.skip("token="@.len() as int))
        } else {
            token_de_query_spec(piezas.drop_first())
        }
    }
}

/// The token a reader gives in the query string (`?token=`).
pub fn token_de_query(query: &str) -> (r: Option<String>)
    ensures
        r.deep_view() == token_de_query_spec(crate::almacen::partir_en(query@, '&')),
{
    let piezas = crate::almacen::split_en(query, '&');
    let pre = caracteres("token=");
    let n = piezas.len();
    let mut k: usize = 0;
    assert(piezas.deep_view().skip(0) =~= piezas.deep_view());
    while k < n
        invariant
            k <= n == piezas@.len(),
            pre@ == "token="@,
            piezas.deep_view() == crate::almacen::partir_en(query@, '&'),
            token_de_query_spec(piezas.deep_view()) == token_de_query_spec(piezas.deep_view().skip(k as int)),
        decreases n - k,
    {
        let cs = caracteres(piezas[k].as_str());
        assert(piezas.deep_view().skip(k as int)[0] == cs@);
        assert(piezas.deep_view().skip(k as int).drop_first() =~= piezas.deep_view().skip(k + 1));
        if empieza_por(&cs, &pre) {
            let resto = tramo(&cs, pre.len(), cs.len());
            assert(resto@ =~= cs@.skip("token="@.len() as int));
            return Some(cadena_de(&resto));
        }
        k = k + 1;
    }
    assert(piezas.deep_view().skip(n as int) =~= Seq::<Seq<char>>::empty());
    None
}

/// Whether a read is let through: always without a viewer token; with one, only
/// when the token given is that one.
pub open spec fn lectura_spec(esperado: Option<Seq<char>>, dado: Option<Seq<char>>) -> bool {
    match esperado {
        None => true,
        Some(e) => dado == Some(e),
    }
}

/// Whether a read is let through.
pub fn lectura_permitida(esperado: &Option<String>, dado: &Option<String>) -> (r: bool)
    ensures
        r == lectura_spec(esperado.deep_view(), dado.deep_view()),
{
    match esperado {
        None => true,
        Some(e) => match dado {
            Some(d) => mismo_texto(d.as_str(), e.as_str()),
            None => false,
        },
    }
}

/// What to do with a write request once the number of active keys is known.
#[derive(Debug)]
pub enum PasoEscritura {
    /// Let it through.
    Seguir,
    /// Answer 401.
    Rechazar,
    /// Check this token against the stored keys.
    Verificar(String),
}

/// Writes are open while no API key is active (bootstrap); after that they need a token.
pub fn paso_escritura(claves_activas: i64, token: Option<String>) -> (r: PasoEscritura)
    ensures
        claves_activas == 0 ==> r is Seguir,
        claves_activas != 0 && token is None ==> r is Rechazar,
        claves_activas != 0 && token is Some ==> (r matches PasoEscritura::Verificar(t) && t == token->0),
{
    if claves_activas == 0 {
        PasoEscritura::Seguir
    } else {
        match token {
            Some(t) => PasoEscritura::Verificar(t),
            None => PasoEscritura::Rechazar,
        }
    }
}

/// A checked token lets the write through only when it matched an active key.
pub fn escritura_autorizada(info: &Option<KeyInfo>) -> (r: bool)
    ensures
        r == info is Some,
{
    info.is_some()
}

/// Where a request comes from, for the log: the MCP bridge says so in a header.
pub fn origen(cabecera: Option<&str>) -> (r: &'static str)
    ensures
        r@ == (if cabecera.deep_view() == Some("mcp"@) {
            "mcp"@
        } else {
            "rest"@
        }),
{
    match cabecera {
        Some(c) => if mismo_texto(c, "mcp") {
            "mcp"
        } else {
            "rest"
        },
        None => "rest",
    }
}

/// The base URL of the central server, without trailing slashes.
pub fn url_base(base_url: &str) -> (r: String)
    ensures
        r@ == sin_barras_finales(base_url@),
{
    cadena_de(&quitar_barras_finales(&caracteres(base_url)))
}

/// The entry a `log_task` call records, for the given agent.
pub fn nueva_entrada_de(a: LogTaskArgs, agente: String) -> (r: NewEntry)
    ensures
        r.application == a.application,
        r.agent == agente,
        r.model == a.model,
        r.title == a.title,
        r.prompt == a.prompt,
        r.task_summary == a.task_summary,
        r.response_markdown == a.response_markdown,
        r.tags == a.tags,
        r.attachments@.len() == 0,
        r.tokens_input is None,
        r.tokens_output is None,
        r.duration_ms is None,
        r.metadata is None,
{
    NewEntry {
        application: a.application,
        agent: agente,
        model: a.model,
        title: a.title,
        prompt: a.prompt,
        task_summary: a.task_summary,
        response_markdown: a.response_markdown,
        tags: a.tags,
        attachments: Vec::new(),
        tokens_input: None,
        tokens_output: None,
        duration_ms: None,
        metadata: None,
    }
}

/// The query pairs of a `list_entries` call: application, from, to and limit, the
/// absent ones left out.
pub open spec fn pares_listado_spec(a: ListEntriesArgs) -> Seq<(Seq<char>, Seq<char>)> {
    crate::consulta::con_par(
        crate::consulta::con_par(
            crate::consulta::con_par(
                crate::consulta::con_par(Seq::empty(), "application"@, a.application.deep_view()),
                "from"@,
                a.from.deep_view(),
            ),
            "to"@,
            a.to.deep_view(),
        ),
        "limit"@,
        crate::consulta::texto_entero(a.limit),
    )
}

fn anadir_par_listado(v: &mut Vec<(String, String)>, clave: &str, valor: String)
    ensures
        final(v).deep_view() == old(v).deep_view().push((clave@, valor@)),
{
    let ghost antes = v.deep_view();
    v.push((texto(clave), valor));
    assert(v.deep_view() =~= antes.push((clave@, valor@)));
}

/// The query pairs of a `list_entries` call.
pub fn consulta_de_listado(a: &ListEntriesArgs) -> (r: Vec<(String, String)>)
    ensures
        r.deep_view() == pares_listado_spec(*a),
{
    let mut v: Vec<(String, String)> = Vec::new();
    assert(v.deep_view() =~= Seq::<(Seq<char>, Seq<char>)>::empty());
    if let Some(x) = &a.application {
        anadir_par_listado(&mut v, "application", x.clone());
    }
    if let Some(x) = &a.from {
        anadir_par_listado(&mut v, "from", x.clone());
    }
    if let Some(x) = &a.to {
        anadir_par_listado(&mut v, "to", x.clone());
    }
    if let Some(n) = a.limit {
        anadir_par_listado(&mut v, "limit", cadena_de(&decimal_de(n)));
    }
    v
}

/// The API path of an entry.
pub fn ruta_de_entrada(a: &GetEntryArgs) -> (r: String)
    ensures
        r@ == "/api/v1/entries/"@ + decimal(a.id as int),
{
    let mut s = texto("/api/v1/entries/");
    let n = cadena_de(&decimal_de(a.id));
    s.append(n.as_str());
    s
}

/// What the `log_task` tool answers once the entry is recorded.
pub fn mensaje_registrada(c: &CreatedEntry) -> (r: String)
    ensures
        r@ == "Entrada #"@ + decimal(c.id as int) + " registrada. Puedes verla en: "@ + c.url@,
{
    let mut s = texto("Entrada #");
    let n = cadena_de(&decimal_de(c.id));
    s.append(n.as_str());
    s.append(" registrada. Puedes verla en: ");
    s.append(c.url.as_str());
    s
}

}
