use diario::exportacion::{destinos_de, se_marca, Destino};
use diario::modelo::{CreatedEntry, GetEntryArgs, KeyInfo, ListEntriesArgs, LogTaskArgs};
use diario::numeros::{decimal_de, entero_desde};
use diario::render::snippet;
use diario::servidor::{
    bearer_or_apikey, cache_control, consulta_de_listado, escritura_autorizada,
    lectura_permitida, mensaje_registrada, nueva_entrada_de, origen, paso_escritura,
    ruta_de_asset, ruta_de_entrada, token_de_query, url_base, PasoEscritura, ServerConfig,
};

fn config_con(tareas: Option<&str>) -> ServerConfig {
    ServerConfig {
        bind: "127.0.0.1:8787".into(),
        db_path: "diario.db".into(),
        public_url: "http://localhost:8787".into(),
        viewer_token: None,
        tareas_dir: tareas.map(|s| s.to_string()),
        log_ops: false,
        marcado_abierto: false,
    }
}

#[test]
fn snippet_truncates() {
    let s = snippet("# Titulo\n\nEste es un texto largo de ejemplo", 10);
    assert!(s.chars().count() <= 11); // 10 + el caracter de elipsis
}

#[test]
fn snippet_quita_marcas_y_espacios() {
    assert_eq!(
        snippet("# Titulo\n\n> cita  con   espacios\r\n- item\n```rust\ncode", 180),
        "Titulo cita con espacios item rust code"
    );
    assert_eq!(snippet("# Titulo\n\nEste es un texto", 10), "Titulo Est…");
    assert_eq!(snippet("abcdef ghij", 7), "abcdef…");
    assert_eq!(snippet("", 5), "");
    assert_eq!(snippet("***", 5), "");
}

#[test]
fn con_el_modo_log_apagado_no_se_traza() {
    let c = config_con(None);
    assert!(!c.log_ops);
    assert_eq!(c.traza("rest", "crear_entrada", "id=1"), None);
    let mut c2 = config_con(None);
    c2.log_ops = true;
    assert_eq!(
        c2.traza("rest", "crear_entrada", "id=1"),
        Some("[rest] crear_entrada id=1".to_string())
    );
}

#[test]
fn una_cadena_vacia_equivale_a_no_escribir_destino_central() {
    assert_eq!(config_con(Some("")).tareas_dir_efectivo(), None);
    assert_eq!(config_con(None).tareas_dir_efectivo(), None);
    assert_eq!(config_con(Some("C:/x")).tareas_dir_efectivo(), Some("C:/x".to_string()));
}

#[test]
fn enlace_a_una_entrada() {
    let mut c = config_con(None);
    c.public_url = "http://test//".into();
    assert_eq!(c.entry_url(7), "http://test/entry/7");
}

#[test]
fn cache_y_assets() {
    assert_eq!(cache_control("app-1234.wasm"), "public, max-age=31536000, immutable");
    assert_eq!(cache_control("x.js"), "public, max-age=31536000, immutable");
    assert_eq!(cache_control("estilo.css"), "public, max-age=31536000, immutable");
    assert_eq!(cache_control("index.html"), "no-cache");
    assert_eq!(ruta_de_asset("/"), "index.html");
    assert_eq!(ruta_de_asset(""), "index.html");
    assert_eq!(ruta_de_asset("//app.js"), "app.js");
}

#[test]
fn tokens_de_las_peticiones() {
    assert_eq!(bearer_or_apikey(Some("Bearer  dk_1 "), Some("otro")), Some("dk_1".to_string()));
    assert_eq!(bearer_or_apikey(Some("Basic x"), Some(" dk_2 ")), Some("dk_2".to_string()));
    assert_eq!(bearer_or_apikey(None, None), None);
    assert_eq!(token_de_query("a=1&token=abc&token=z"), Some("abc".to_string()));
    assert_eq!(token_de_query("a=1"), None);
    assert!(lectura_permitida(&None, &None));
    assert!(lectura_permitida(&Some("t".into()), &Some("t".into())));
    assert!(!lectura_permitida(&Some("t".into()), &Some("u".into())));
    assert!(!lectura_permitida(&Some("t".into()), &None));
}

#[test]
fn pasos_de_escritura() {
    assert!(matches!(paso_escritura(0, None), PasoEscritura::Seguir));
    assert!(matches!(paso_escritura(1, None), PasoEscritura::Rechazar));
    match paso_escritura(2, Some("dk".into())) {
        PasoEscritura::Verificar(t) => assert_eq!(t, "dk"),
        _ => panic!("deberia verificar"),
    }
    assert!(!escritura_autorizada(&None));
    let k = KeyInfo { id: 1, name: "k".into(), scope: "write".into() };
    assert!(escritura_autorizada(&Some(k)));
    assert_eq!(origen(Some("mcp")), "mcp");
    assert_eq!(origen(Some("web")), "rest");
    assert_eq!(origen(None), "rest");
}

#[test]
fn ayudas_del_puente_mcp() {
    assert_eq!(url_base("http://central:8787///"), "http://central:8787");
    let a = LogTaskArgs {
        application: "Portal Alumnos".into(),
        title: "Tarea via MCP".into(),
        prompt: "haz X".into(),
        response_markdown: "# Resultado".into(),
        task_summary: Some("resumen".into()),
        model: Some("fable-5".into()),
        tags: vec!["mcp".into()],
    };
    let e = nueva_entrada_de(a, "agente-ia".into());
    assert_eq!(e.agent, "agente-ia");
    assert_eq!(e.title, "Tarea via MCP");
    assert!(e.attachments.is_empty() && e.metadata.is_none());
    let l = ListEntriesArgs { application: Some("x".into()), from: None, to: Some("t".into()), limit: Some(5) };
    assert_eq!(
        consulta_de_listado(&l),
        vec![
            ("application".to_string(), "x".to_string()),
            ("to".to_string(), "t".to_string()),
            ("limit".to_string(), "5".to_string())
        ]
    );
    assert_eq!(ruta_de_entrada(&GetEntryArgs { id: 3 }), "/api/v1/entries/3");
    assert_eq!(
        mensaje_registrada(&CreatedEntry { id: 4, url: "http://t/entry/4".into() }),
        "Entrada #4 registrada. Puedes verla en: http://t/entry/4"
    );
}

#[test]
fn destinos_de_exportacion() {
    assert_eq!(
        destinos_de(Some("/repo".into()), Some("/central".into())),
        vec![Destino::Repositorio("/repo".into()), Destino::Central("/central".into())]
    );
    assert_eq!(destinos_de(None, Some(String::new())), vec![]);
    assert!(se_marca(&vec![true, true]));
    assert!(!se_marca(&vec![true, false]));
    assert!(!se_marca(&vec![]));
}

#[test]
fn numeros_decimales() {
    for n in [0i64, 7, -7, 1234567890, i64::MIN, i64::MAX] {
        let d: String = decimal_de(n).into_iter().collect();
        assert_eq!(d, n.to_string());
        assert_eq!(entero_desde(&d.chars().collect()), Some(n));
    }
    assert_eq!(entero_desde(&"9223372036854775808".chars().collect()), None);
    assert_eq!(entero_desde(&"-9223372036854775809".chars().collect()), None);
    assert_eq!(entero_desde(&"+".chars().collect()), None);
    assert_eq!(entero_desde(&"".chars().collect()), None);
    assert_eq!(entero_desde(&"1a".chars().collect()), None);
}
