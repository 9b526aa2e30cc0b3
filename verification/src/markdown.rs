use vstd::prelude::*;

use crate::modelo::Entry;
use crate::numeros::{decimal, decimal_de, lema_decimal_inyectivo};
use crate::texto::cadena_de;
use crate::tiempo::{hora_local_compacta, hora_local_posible, texto_de};

verus! {

/// Texts joined with a separator between each two.
pub open spec fn unir_con(ws: Seq<Seq<char>>, sep: Seq<char>) -> Seq<char>
    decreases ws.len(),
{
    if ws.len() == 0 {
        Seq::empty()
    } else if ws.len() == 1 {
        ws[0]
    } else {
        unir_con(ws.drop_last(), sep) + sep + ws.last()
    }
}

/// Joins texts with a separator (`[String]::join`).
pub fn juntar(ws: &Vec<String>, sep: &str) -> (r: String)
    ensures
        r@ == unir_con(ws.deep_view(), sep@),
{
    let n = ws.len();
    let mut r = String::new();
    let mut k: usize = 0;
    assert(ws.deep_view().take(0) =~= Seq::<Seq<char>>::empty());
    while k < n
        invariant
            k <= n == ws@.len(),
            r@ == unir_con(ws.deep_view().take(k as int), sep@),
        decreases n - k,
    {
        let ghost t = ws.deep_view().take(k + 1);
        assert(t.drop_last() =~= ws.deep_view().take(k as int));
        assert(t.last() == ws@[k as int]@);
        if k > 0 {
            r.append(sep);
        }
        r.append(ws[k].as_str());
        k = k + 1;
    }
    assert(ws.deep_view().take(n as int) =~= ws.deep_view());
    r
}

/// The markdown of an entry, as it is exported to the repositories and downloaded
/// from the web.
pub open spec fn markdown_spec(e: Entry) -> Seq<char> {
    let modelo = match e.model {
        Some(m) => m@,
        None => "-"@,
    };
    let etiquetas = if e.tags@.len() > 0 {
        "- Etiquetas: "@ + unir_con(e.tags.deep_view(), ", "@) + "\n"@
    } else {
        Seq::empty()
    };
    let resumen = match e.task_summary {
        Some(r) => "## Resumen\n\n"@ + r@ + "\n\n"@,
        None => Seq::empty(),
    };
    "# "@ + e.title@ + "\n\n"@ + "- Aplicacion: "@ + e.application_name@ + "\n"@ + "- Agente: "@
        + e.agent_name@ + " ("@ + modelo + ")\n"@ + "- Fecha: "@ + texto_de(e.created_at)
        + "\n"@ + "- Entrada: "@ + decimal(e.id as int) + "\n"@ + etiquetas + "\n"@
        + "## Prompt\n\n"@ + e.prompt@ + "\n\n"@ + resumen + "## Respuesta\n\n"@
        + e.response_markdown@ + "\n"@
}

/// Whether `t` occurs in `s` as a run of consecutive characters.
pub open spec fn contiene_texto(s: Seq<char>, t: Seq<char>) -> bool {
    exists|i: int| 0 <= i && i + t.len() <= s.len() && #[trigger] s.subrange(i, i + t.len()) == t
}

/// An entry with tags lists them all in its markdown: right after its id, a line
/// `- Etiquetas: ` with the tags joined by `, `. One tag is listed as much as several.
pub proof fn ley_etiquetas_en_el_markdown(e: Entry)
    requires
        e.tags@.len() > 0,
    ensures
        contiene_texto(
            markdown_spec(e),
            "- Entrada: "@ + decimal(e.id as int) + "\n"@ + "- Etiquetas: "@ + unir_con(
                e.tags.deep_view(),
                ", "@,
            ) + "\n"@,
        ),
{
    let modelo = match e.model {
        Some(m) => m@,
        None => "-"@,
    };
    let resumen = match e.task_summary {
        Some(r) => "## Resumen\n\n"@ + r@ + "\n\n"@,
        None => Seq::empty(),
    };
    let antes = "# "@ + e.title@ + "\n\n"@ + "- Aplicacion: "@ + e.application_name@ + "\n"@
        + "- Agente: "@ + e.agent_name@ + " ("@ + modelo + ")\n"@ + "- Fecha: "@ + texto_de(
        e.created_at,
    ) + "\n"@;
    let t = "- Entrada: "@ + decimal(e.id as int) + "\n"@ + "- Etiquetas: "@ + unir_con(
        e.tags.deep_view(),
        ", "@,
    ) + "\n"@;
    let despues = "\n"@ + "## Prompt\n\n"@ + e.prompt@ + "\n\n"@ + resumen + "## Respuesta\n\n"@
        + e.response_markdown@ + "\n"@;
    let m = markdown_spec(e);
    assert(m =~= antes + t + despues);
    assert(m.subrange(antes.len() as int, (antes.len() + t.len()) as int) =~= t);
}

/// The markdown of an entry. One definition serves the exporter and the download
/// button, so what is downloaded and what is exported are the same text.
pub fn markdown_de(entry: &Entry) -> (r: String)
    ensures
        r@ == markdown_spec(*entry),
{
    let mut s = String::new();
    s.append("# ");
    s.append(entry.title.as_str());
    s.append("\n\n");
    s.append("- Aplicacion: ");
    s.append(entry.application_name.as_str());
    s.append("\n");
    s.append("- Agente: ");
    s.append(entry.agent_name.as_str());
    s.append(" (");
    match &entry.model {
        Some(m) => s.append(m.as_str()),
        None => s.append("-"),
    }
    s.append(")\n");
    s.append("- Fecha: ");
    let fecha = entry.created_at.rfc3339();
    s.append(fecha.as_str());
    s.append("\n");
    s.append("- Entrada: ");
    let id = cadena_de(&decimal_de(entry.id));
    s.append(id.as_str());
    s.append("\n");
    let ghost hasta_entrada = s@;
    if entry.tags.len() > 0 {
        s.append("- Etiquetas: ");
        let t = juntar(&entry.tags, ", ");
        s.append(t.as_str());
        s.append("\n");
    }
    s.append("\n");
    s.append("## Prompt\n\n");
    s.append(entry.prompt.as_str());
    s.append("\n\n");
    if let Some(resumen) = &entry.task_summary {
        s.append("## Resumen\n\n");
        s.append(resumen.as_str());
        s.append("\n\n");
    }
    s.append("## Respuesta\n\n");
    s.append(entry.response_markdown.as_str());
    s.append("\n");
    assert(s@ =~= markdown_spec(*entry));
    s
}

/// The file name of an entry for a given local date and time:
/// `20260917-125851-redes-ice-netcore-19.md`.
pub open spec fn nombre_spec(hora: Seq<char>, slug: Seq<char>, id: i64) -> Seq<char> {
    hora + "-"@ + slug + "-"@ + decimal(id as int) + ".md"@
}

/// The file name for a given local date and time: date and time first, so that the
/// alphabetical order is the chronological one; then the application; then the id,
/// because several entries fall in the same second.
pub fn nombre_con_hora(hora: &str, slug: &str, id: i64) -> (r: String)
    ensures
        r@ == nombre_spec(hora@, slug@, id),
{
    let mut s = crate::consulta::texto(hora);
    s.append("-");
    s.append(slug);
    s.append("-");
    let n = cadena_de(&decimal_de(id));
    s.append(n.as_str());
    s.append(".md");
    s
}

/// The name of the exported file of an entry, with its creation time in the
/// machine's time zone.
pub fn nombre_fichero(entry: &Entry) -> (r: String)
    ensures
        exists|hora: Seq<char>|
            hora_local_posible(entry.created_at.segundos_spec(), entry.created_at.nanos_spec(), hora)
                && r@ == nombre_spec(hora, entry.application_slug@, entry.id),
{
    let hora = hora_local_compacta(&entry.created_at);
    nombre_con_hora(hora.as_str(), entry.application_slug.as_str(), entry.id)
}

/// Two entries of the same application created in the same second never get the
/// same file name: the id tells them apart.
pub proof fn ley_nombres_no_colisionan(hora: Seq<char>, slug: Seq<char>, a: i64, b: i64)
    requires
        a != b,
    ensures
        nombre_spec(hora, slug, a) != nombre_spec(hora, slug, b),
{
    let p = hora + "-"@ + slug + "-"@;
    let x = nombre_spec(hora, slug, a);
    let y = nombre_spec(hora, slug, b);
    assert(x =~= p + decimal(a as int) + ".md"@);
    assert(y =~= p + decimal(b as int) + ".md"@);
    if x == y {
        let da = decimal(a as int);
        let db = decimal(b as int);
        assert(da.len() == db.len());
        assert(x.subrange(p.len() as int, (p.len() + da.len()) as int) =~= da);
        assert(y.subrange(p.len() as int, (p.len() + db.len()) as int) =~= db);
        lema_decimal_inyectivo(a, b);
    }
}


/// The markdown the `export` command writes for an entry (its own layout: no tags,
/// the summary under "Tarea").
pub open spec fn markdown_exportacion_spec(e: Entry) -> Seq<char> {
    let modelo = match e.model {
        Some(m) => m@,
        None => "-"@,
    };
    let tarea = match e.task_summary {
        Some(t) => "## Tarea\n\n"@ + t@ + "\n\n"@,
        None => Seq::empty(),
    };
    "# "@ + e.title@ + "\n\n"@ + "- Aplicacion: "@ + e.application_name@ + "\n"@ + "- Agente: "@
        + e.agent_name@ + " ("@ + modelo + ")\n"@ + "- Fecha: "@ + texto_de(e.created_at)
        + "\n\n"@ + "## Prompt\n\n"@ + e.prompt@ + "\n\n"@ + tarea + "## Respuesta\n\n"@
        + e.response_markdown@ + "\n\n"@
}

/// The markdown the `export` command writes for an entry.
pub fn markdown_exportacion(entry: &Entry) -> (r: String)
    ensures
        r@ == markdown_exportacion_spec(*entry),
{
    let mut s = crate::consulta::texto("# ");
    s.append(entry.title.as_str());
    s.append("\n\n");
    s.append("- Aplicacion: ");
    s.append(entry.application_name.as_str());
    s.append("\n");
    s.append("- Agente: ");
    s.append(entry.agent_name.as_str());
    s.append(" (");
    match &entry.model {
        Some(m) => s.append(m.as_str()),
        None => s.append("-"),
    }
    s.append(")\n");
    s.append("- Fecha: ");
    let fecha = entry.created_at.rfc3339();
    s.append(fecha.as_str());
    s.append("\n\n");
    s.append("## Prompt\n\n");
    s.append(entry.prompt.as_str());
    s.append("\n\n");
    if let Some(t) = &entry.task_summary {
        s.append("## Tarea\n\n");
        s.append(t.as_str());
        s.append("\n\n");
    }
    s.append("## Respuesta\n\n");
    s.append(entry.response_markdown.as_str());
    s.append("\n\n");
    assert(s@ =~= markdown_exportacion_spec(*entry));
    s
}

/// The file name the `export` command gives an entry inside its application's folder:
/// UTC date and time, then the id.
pub fn nombre_exportacion(entry: &Entry) -> (r: String)
    ensures
        r@ == crate::tiempo::formato_utc(
            entry.created_at.segundos_spec(),
            entry.created_at.nanos_spec(),
            "%Y%m%d-%H%M%S"@,
        ) + "-"@ + decimal(entry.id as int) + ".md"@,
{
    let mut s = crate::tiempo::hora_utc_compacta(&entry.created_at);
    s.append("-");
    let n = cadena_de(&decimal_de(entry.id));
    s.append(n.as_str());
    s.append(".md");
    s
}

}
