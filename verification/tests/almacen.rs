use diario::almacen::{
    etiquetas_limpias, filtros_de_consulta, filtros_de_estadisticas, limite_efectivo, non_empty,
    paginar, patron_like, preparar_entrada, split_tags, Filtro,
};
use diario::claves::{generate_token, hash_key, to_hex, token_desde_bytes};
use diario::consulta::EntryQuery;
use diario::error::AppError;
use diario::modelo::{EntrySummary, NewEntry};
use diario::slug::slugify;
use diario::tiempo::Instante;

fn nueva(app: &str, titulo: &str, tags: Vec<&str>) -> NewEntry {
    NewEntry {
        application: app.to_string(),
        agent: "test".to_string(),
        model: None,
        title: titulo.to_string(),
        prompt: "prompt".to_string(),
        task_summary: None,
        response_markdown: "respuesta".to_string(),
        tags: tags.into_iter().map(|t| t.to_string()).collect(),
        attachments: vec![],
        tokens_input: None,
        tokens_output: None,
        duration_ms: None,
        metadata: None,
    }
}

fn resumen(id: i64) -> EntrySummary {
    EntrySummary {
        id,
        application_slug: "app".into(),
        application_name: "App".into(),
        agent_name: "agente-ia".into(),
        model: None,
        title: format!("t{id}"),
        snippet: String::new(),
        tags: vec![],
        created_at: Instante::nuevo(1_700_000_000, 0).unwrap(),
    }
}

#[test]
fn slugify_works() {
    assert_eq!(slugify("Portal Alumnos"), "portal-alumnos");
    assert_eq!(slugify("  UACloud 2026!! "), "uacloud-2026");
    assert_eq!(slugify("///"), "sin-nombre");
}

#[test]
fn slugify_es_idempotente_e_ignora_mayusculas() {
    for s in ["Portal Alumnos", "  UACloud 2026!! ", "///", "a--b", "Ünïcode y más", "x"] {
        assert_eq!(slugify(&slugify(s)), slugify(s));
    }
    assert_eq!(slugify("Portal Alumnos"), slugify("portal alumnos"));
    assert_eq!(slugify("--Hola__Mundo--"), "hola-mundo");
    assert_eq!(slugify("ñandú 2"), "and-2");
}

#[test]
fn non_empty_recorta_y_descarta_lo_vacio() {
    assert_eq!(non_empty(&Some("  app  ".to_string())), Some("app".to_string()));
    assert_eq!(non_empty(&Some(" \t\n ".to_string())), None);
    assert_eq!(non_empty(&None), None);
}

#[test]
fn el_limite_queda_entre_1_y_200() {
    assert_eq!(limite_efectivo(None), 50);
    assert_eq!(limite_efectivo(Some(0)), 1);
    assert_eq!(limite_efectivo(Some(-7)), 1);
    assert_eq!(limite_efectivo(Some(2)), 2);
    assert_eq!(limite_efectivo(Some(5000)), 200);
}

#[test]
fn el_patron_escapa_comodines() {
    assert_eq!(patron_like("PL/SQL"), "%PL/SQL%");
    assert_eq!(patron_like("50%_x"), "%50\\%\\_x%");
    assert_eq!(patron_like(""), "%%");
}

#[test]
fn filtros_en_orden_y_sin_vacios() {
    let q = EntryQuery {
        application: Some("Portal Alumnos".into()),
        from: Some(" ".into()),
        to: Some("2026-09-18".into()),
        tag: Some(" refactor ".into()),
        q: Some("a_b".into()),
        limit: Some(3),
        cursor: Some(10),
        exported: Some(false),
    };
    assert_eq!(
        filtros_de_consulta(&q),
        vec![
            Filtro::Aplicacion("portal-alumnos".into()),
            Filtro::Hasta("2026-09-18".into()),
            Filtro::Etiqueta("refactor".into()),
            Filtro::Texto("%a\\_b%".into()),
            Filtro::Exportada(false),
            Filtro::Cursor(10),
        ]
    );
    let solo_exportadas = EntryQuery { exported: Some(true), ..EntryQuery::default() };
    assert_eq!(filtros_de_consulta(&solo_exportadas), vec![Filtro::Exportada(true)]);
    assert!(filtros_de_consulta(&EntryQuery::default()).is_empty());
}

#[test]
fn filtros_de_estadisticas_sin_recortar() {
    assert_eq!(
        filtros_de_estadisticas(Some("App A"), Some(""), Some("2026-01-01")),
        vec![Filtro::Aplicacion("app-a".into()), Filtro::Hasta("2026-01-01".into())]
    );
    assert!(filtros_de_estadisticas(None, None, None).is_empty());
}

#[test]
fn paginar_recorta_y_da_el_cursor() {
    let filas: Vec<EntrySummary> = (1..=3).rev().map(resumen).collect();
    let p = paginar(filas.clone(), 2);
    assert_eq!(p.entries.len(), 2);
    assert_eq!(p.next_cursor, Some(2));
    let p2 = paginar(filas, 3);
    assert_eq!(p2.entries.len(), 3);
    assert_eq!(p2.next_cursor, None);
}

#[test]
fn split_tags_usa_el_separador_de_unidad() {
    assert_eq!(split_tags(Some("api\u{1f}refactor".into())), vec!["api", "refactor"]);
    assert_eq!(split_tags(Some("solo".into())), vec!["solo"]);
    assert!(split_tags(Some(String::new())).is_empty());
    assert!(split_tags(None).is_empty());
}

#[test]
fn etiquetas_recortadas_sin_vacias() {
    let t = vec![" api ".to_string(), "  ".to_string(), "refactor".to_string()];
    assert_eq!(etiquetas_limpias(&t), vec!["api", "refactor"]);
}

#[test]
fn preparar_entrada_valida_titulo_y_aplicacion() {
    match preparar_entrada(&nueva("App", "   ", vec![])) {
        Err(AppError::BadRequest(m)) => assert_eq!(m, "title es obligatorio"),
        otro => panic!("{otro:?}"),
    }
    match preparar_entrada(&nueva(" ", "Titulo", vec![])) {
        Err(AppError::BadRequest(m)) => assert_eq!(m, "application es obligatorio"),
        otro => panic!("{otro:?}"),
    }
    let p = preparar_entrada(&nueva("  Portal Alumnos ", " Tarea ", vec!["x", " "])).unwrap();
    assert_eq!(p.slug, "portal-alumnos");
    assert_eq!(p.nombre_aplicacion, "Portal Alumnos");
    assert_eq!(p.titulo, "Tarea");
    assert_eq!(p.etiquetas, vec!["x"]);
}

#[test]
fn errores_a_respuesta() {
    assert_eq!(AppError::NotFound.estado_y_mensaje(), (404, "no encontrado".to_string()));
    assert_eq!(AppError::Unauthorized.estado_y_mensaje(), (401, "no autorizado".to_string()));
    assert_eq!(AppError::BadRequest("x".into()).estado_y_mensaje(), (400, "x".to_string()));
    assert_eq!(AppError::Db("secreto".into()).estado_y_mensaje(), (500, "error interno".to_string()));
}

#[test]
fn hex_y_hash_de_claves() {
    assert_eq!(to_hex(&[0x00, 0x0f, 0xab, 0xff]), "000fabff");
    assert_eq!(
        hash_key("abc"),
        "ba7816bf8f01cfea414140de5dae2223b00361a396177a9cb410ff61f20015ad"
    );
    assert_eq!(hash_key("dk_x"), hash_key("dk_x"));
    assert_ne!(hash_key("dk_x"), hash_key("dk_y"));
}

#[test]
fn los_tokens_tienen_forma_fija() {
    let t = generate_token();
    assert!(t.starts_with("dk_"));
    assert_eq!(t.len(), 51);
    assert!(t[3..].chars().all(|c| c.is_ascii_hexdigit() && !c.is_ascii_uppercase()));
    assert_ne!(generate_token(), t);
    assert_eq!(token_desde_bytes(&[1, 2]), "dk_0102");
}
