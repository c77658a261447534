use motor_sql::campos::{juntar, separar};
use motor_sql::condicion::{Evaluar, ExpresionBooleana, OperadorComparacion, Valor};
use motor_sql::consultas::{OrderClause, OrderDirection};
use motor_sql::dato::{Datos, Fila};
use motor_sql::entrada::limpiar_entrada;
use motor_sql::enteros::{escribir_entero, leer_entero};
use motor_sql::errores::ErrorType;
use motor_sql::manejo_csv::{
    agregar_path, comparar_linea, datos_to_row, filtrar_columnas, listar_columnas,
    modificar_linea, ordenar_linea, string_to_columns, where_condition,
};
use motor_sql::operador::Operador;
use motor_sql::utils::{
    dato_to_string, extraer_interno_lista, extraer_interno_lista_valor, operador_to_dato,
    operador_to_single_dato, operador_to_single_valor, string_to_comparacion,
    string_to_direccion, string_to_number,
};

fn textos(v: &[&str]) -> Vec<String> {
    v.iter().map(|s| s.to_string()).collect()
}

fn fila(pares: &[(&str, Datos)]) -> Fila {
    let mut f = Fila::new();
    for (k, v) in pares {
        let copia = match v {
            Datos::Integer(n) => Datos::Integer(*n),
            Datos::String(s) => Datos::String(s.clone()),
        };
        f.insert(k.to_string(), copia);
    }
    f
}

fn t(s: &str) -> Datos {
    Datos::String(s.to_string())
}

#[test]
fn leer_entero_sigue_la_forma_decimal() {
    assert_eq!(leer_entero("0"), Some(0));
    assert_eq!(leer_entero("007"), Some(7));
    assert_eq!(leer_entero("+5"), Some(5));
    assert_eq!(leer_entero("-0"), Some(0));
    assert_eq!(leer_entero("-12"), Some(-12));
    assert_eq!(leer_entero("9223372036854775807"), Some(i64::MAX));
    assert_eq!(leer_entero("-9223372036854775808"), Some(i64::MIN));
    assert_eq!(leer_entero("9223372036854775808"), None);
    assert_eq!(leer_entero("-9223372036854775809"), None);
    assert_eq!(leer_entero("99999999999999999999999999999999999999999999"), None);
    assert_eq!(leer_entero(""), None);
    assert_eq!(leer_entero("-"), None);
    assert_eq!(leer_entero("+"), None);
    assert_eq!(leer_entero("12a"), None);
    assert_eq!(leer_entero(" 1"), None);
    assert_eq!(leer_entero("1.5"), None);
    assert_eq!(leer_entero("--1"), None);
    assert_eq!(leer_entero("١٢"), None);
}

#[test]
fn escribir_entero_no_deja_ceros_delante() {
    assert_eq!(escribir_entero(0), "0");
    assert_eq!(escribir_entero(7), "7");
    assert_eq!(escribir_entero(10), "10");
    assert_eq!(escribir_entero(-305), "-305");
    assert_eq!(escribir_entero(i64::MAX), "9223372036854775807");
    assert_eq!(escribir_entero(i64::MIN), "-9223372036854775808");
}

#[test]
fn escribir_y_leer_devuelve_el_entero() {
    for n in [0i64, 1, -1, 9, 10, 99, 100, -100, 123456789, i64::MAX, i64::MIN] {
        assert_eq!(leer_entero(&escribir_entero(n)), Some(n));
    }
}

#[test]
fn string_to_number_solo_enteros() {
    assert_eq!(string_to_number("42".to_string()).ok(), Some(Datos::Integer(42)));
    match string_to_number("x".to_string()) {
        Err(ErrorType::InvalidSyntax(m)) => assert_eq!(m, "Numero invalido en las listas"),
        r => panic!("unexpected result: {:?}", r),
    }
}

#[test]
fn dato_to_string_de_cada_clase() {
    assert_eq!(dato_to_string(&Datos::Integer(-3)), "-3");
    assert_eq!(dato_to_string(&t("hola, vos")), "hola, vos");
}

#[test]
fn operador_a_dato() {
    let palabra = Operador::String("15".to_string());
    let nombre = Operador::String("quince".to_string());
    let citado = Operador::Texto("15".to_string());
    let grupo = Operador::Lista(vec![Operador::Lista(vec![Operador::String("15".to_string())])]);
    let par = Operador::Lista(vec![
        Operador::String("1".to_string()),
        Operador::String("2".to_string()),
    ]);
    let simbolo = Operador::Comparador("=".to_string());
    assert_eq!(operador_to_dato(&palabra).ok(), Some(Datos::Integer(15)));
    assert_eq!(operador_to_dato(&nombre).ok(), Some(t("quince")));
    assert_eq!(operador_to_dato(&citado).ok(), Some(t("15")));
    assert_eq!(
        operador_to_dato(&grupo).err(),
        Some(ErrorType::InvalidSyntax("Se esperaba una variable".to_string()))
    );
    assert_eq!(operador_to_single_dato(&grupo).ok(), Some(Datos::Integer(15)));
    assert_eq!(operador_to_single_dato(&citado).ok(), Some(t("15")));
    assert_eq!(
        operador_to_single_dato(&par).err(),
        Some(ErrorType::InvalidSyntax("Cantidad de elementos incorrecta".to_string()))
    );
    assert_eq!(
        operador_to_single_dato(&simbolo).err(),
        Some(ErrorType::InvalidSyntax("Comparador inesperado.".to_string()))
    );
    assert_eq!(
        extraer_interno_lista(&[Operador::Texto("a".to_string())]).ok(),
        Some(t("a"))
    );
    assert_eq!(
        extraer_interno_lista(&[]).err(),
        Some(ErrorType::InvalidSyntax("Cantidad de elementos incorrecta".to_string()))
    );
}

#[test]
fn operador_a_valor() {
    let grupo = Operador::Lista(vec![Operador::Texto("x".to_string())]);
    assert_eq!(
        operador_to_single_valor(&Operador::String("a".to_string())).ok(),
        Some(Valor::String("a".to_string()))
    );
    assert_eq!(operador_to_single_valor(&grupo).ok(), Some(Valor::Literal("x".to_string())));
    assert_eq!(
        extraer_interno_lista_valor(&[Operador::String("7".to_string())]).ok(),
        Some(Valor::String("7".to_string()))
    );
    assert_eq!(
        extraer_interno_lista_valor(&[Operador::Comparador("<".to_string())]).err(),
        Some(ErrorType::InvalidSyntax("Comparador inesperado.".to_string()))
    );
    assert_eq!(
        operador_to_single_valor(&Operador::Lista(Vec::new())).err(),
        Some(ErrorType::InvalidSyntax("Cantidad de elementos incorrecta".to_string()))
    );
}

#[test]
fn palabras_del_lenguaje() {
    assert_eq!(string_to_comparacion("=").ok(), Some(OperadorComparacion::Igual));
    assert_eq!(string_to_comparacion(">").ok(), Some(OperadorComparacion::Mayor));
    assert_eq!(string_to_comparacion("<").ok(), Some(OperadorComparacion::Menor));
    assert_eq!(string_to_comparacion(">=").ok(), Some(OperadorComparacion::MayorIgual));
    assert_eq!(string_to_comparacion("<=").ok(), Some(OperadorComparacion::MenorIgual));
    assert_eq!(
        string_to_comparacion("==").err(),
        Some(ErrorType::InvalidSyntax("Operador de comparación no válido".to_string()))
    );
    assert_eq!(string_to_direccion("ASC").ok(), Some(OrderDirection::Asc));
    assert_eq!(string_to_direccion("DESC").ok(), Some(OrderDirection::Desc));
    assert_eq!(
        string_to_direccion("asc").err(),
        Some(ErrorType::InvalidSyntax("Operador de direccion no válido".to_string()))
    );
}

#[test]
fn fila_guarda_un_valor_por_columna() {
    let mut f = Fila::new();
    assert!(f.is_empty());
    assert_eq!(f.len(), 0);
    f.insert("a".to_string(), Datos::Integer(1));
    f.insert("b".to_string(), t("x"));
    f.insert("a".to_string(), Datos::Integer(2));
    assert!(!f.is_empty());
    assert_eq!(f.len(), 2);
    assert_eq!(f.get("a"), Some(&Datos::Integer(2)));
    assert_eq!(f.get("b"), Some(&t("x")));
    assert_eq!(f.get("c"), None);
}

#[test]
fn orden_de_los_datos() {
    assert!(Datos::Integer(-1).menor(&Datos::Integer(0)));
    assert!(!Datos::Integer(5).menor(&Datos::Integer(5)));
    assert!(Datos::Integer(i64::MAX).menor(&t("")));
    assert!(!t("0").menor(&Datos::Integer(1)));
    assert!(t("").menor(&t("a")));
    assert!(t("a").menor(&t("ab")));
    assert!(t("ab").menor(&t("b")));
    assert!(t("Z").menor(&t("a")));
    assert!(t("z").menor(&t("ñ")));
    assert!(!t("b").menor(&t("ab")));
    assert!(!t("a").menor(&t("a")));
    assert!(t("a").igual(&t("a")));
    assert!(!t("1").igual(&Datos::Integer(1)));
    assert!(Datos::Integer(1).igual(&Datos::Integer(1)));
    assert_eq!(t("a").copia(), t("a"));
}

#[test]
fn separar_y_juntar() {
    assert_eq!(separar(""), textos(&[""]));
    assert_eq!(separar("a"), textos(&["a"]));
    assert_eq!(separar(" a , b ,, c d "), textos(&["a", "b", "", "c d"]));
    assert_eq!(separar(","), textos(&["", ""]));
    assert_eq!(juntar(&textos(&[])), "");
    assert_eq!(juntar(&textos(&[""])), "");
    assert_eq!(juntar(&textos(&["", "a", ""])), ",a,");
    assert_eq!(juntar(&textos(&["a", "b"])), "a,b");
    assert_eq!(listar_columnas(" id , nombre,edad "), textos(&["id", "nombre", "edad"]));
}

#[test]
fn leer_una_linea_como_fila() {
    let columnas = textos(&["id", "nombre", "nota"]);
    let f = string_to_columns(" 7 , Ana María ,+3", &columnas).ok().unwrap();
    assert_eq!(f, fila(&[("id", Datos::Integer(7)), ("nombre", t("Ana María")), ("nota", Datos::Integer(3))]));
    let g = string_to_columns("5000000000,,x", &columnas).ok().unwrap();
    assert_eq!(g.get("id"), Some(&Datos::Integer(5000000000)));
    assert_eq!(g.get("nombre"), Some(&t("")));
    assert_eq!(
        string_to_columns("1,2", &columnas).err(),
        Some(ErrorType::InvalidColumn("Error al escribir una linea".to_string()))
    );
    assert_eq!(
        string_to_columns("1,2,3,4", &columnas).err(),
        Some(ErrorType::InvalidColumn("Error al escribir una linea".to_string()))
    );
    assert_eq!(
        string_to_columns("", &[]).err(),
        Some(ErrorType::InvalidColumn("Error al escribir una linea".to_string()))
    );
}

#[test]
fn escribir_una_fila_como_linea() {
    let columnas = textos(&["id", "nombre", "nota"]);
    let f = fila(&[("nombre", t("Ana")), ("id", Datos::Integer(-7)), ("otra", t("x"))]);
    assert_eq!(datos_to_row(&f, &columnas).ok(), Some("-7,Ana,".to_string()));
    let g = fila(&[("nota", Datos::Integer(1))]);
    assert_eq!(datos_to_row(&g, &columnas).ok(), Some(",,1".to_string()));
    assert_eq!(datos_to_row(&g, &Vec::new()).ok(), Some("".to_string()));
}

#[test]
fn escribir_y_leer_devuelve_la_fila() {
    let columnas = textos(&["id", "nombre", "nota"]);
    let f = fila(&[
        ("id", Datos::Integer(i64::MIN)),
        ("nombre", t("Ana María")),
        ("nota", t("")),
    ]);
    let linea = datos_to_row(&f, &columnas).ok().unwrap();
    assert_eq!(linea, "-9223372036854775808,Ana María,");
    assert_eq!(string_to_columns(&linea, &columnas).ok(), Some(f));
}

#[test]
fn un_texto_que_parece_entero_no_vuelve_igual() {
    let columnas = textos(&["a"]);
    let f = fila(&[("a", t("12"))]);
    let linea = datos_to_row(&f, &columnas).ok().unwrap();
    assert_eq!(string_to_columns(&linea, &columnas).ok(), Some(fila(&[("a", Datos::Integer(12))])));
}

#[test]
fn proyeccion_de_columnas() {
    let columnas = textos(&["id", "nombre", "edad"]);
    assert_eq!(
        filtrar_columnas(&textos(&["*"]), &columnas).ok(),
        Some(("id,nombre,edad".to_string(), vec![0, 1, 2]))
    );
    assert_eq!(
        filtrar_columnas(&textos(&["edad", "id"]), &columnas).ok(),
        Some(("edad,id".to_string(), vec![2, 0]))
    );
    assert_eq!(
        filtrar_columnas(&textos(&["id", "id"]), &columnas).ok(),
        Some(("id,id".to_string(), vec![0, 0]))
    );
    assert_eq!(
        filtrar_columnas(&textos(&["id", "peso"]), &columnas).err(),
        Some(ErrorType::InvalidColumn("Esa columna no pertenece a la tabla".to_string()))
    );
    assert_eq!(
        filtrar_columnas(&textos(&["*", "id"]), &columnas).err(),
        Some(ErrorType::InvalidColumn("Esa columna no pertenece a la tabla".to_string()))
    );
    assert_eq!(
        filtrar_columnas(&textos(&["b"]), &textos(&["a", "b", "b"])).ok(),
        Some(("b".to_string(), vec![1]))
    );
    assert_eq!(filtrar_columnas(&Vec::new(), &columnas).ok(), Some(("".to_string(), Vec::new())));
}

#[test]
fn cambiar_campos_de_una_linea() {
    let columnas = textos(&["id", "nombre", "edad"]);
    let cambios = fila(&[("edad", Datos::Integer(31)), ("peso", Datos::Integer(70))]);
    assert_eq!(
        modificar_linea(" 1 , Ana , 30 ", &cambios, &columnas).ok(),
        Some("1,Ana,31".to_string())
    );
    assert_eq!(
        modificar_linea("1,Ana", &cambios, &columnas).err(),
        Some(ErrorType::InvalidColumn("Error al escribir una linea".to_string()))
    );
    let nada = Fila::new();
    assert_eq!(modificar_linea(" 1 ,, 30", &nada, &columnas).ok(), Some("1,,30".to_string()));
}

#[test]
fn reordenar_los_campos_de_una_linea() {
    assert_eq!(ordenar_linea(" a , b ,c", &vec![2, 0]).ok(), Some("c,a".to_string()));
    assert_eq!(ordenar_linea("a,b,c", &vec![1, 1, 1]).ok(), Some("b,b,b".to_string()));
    assert_eq!(ordenar_linea("a,b,c", &Vec::new()).ok(), Some("".to_string()));
    assert_eq!(
        ordenar_linea("a,b", &vec![0, 1, 0]).err(),
        Some(ErrorType::InvalidColumn("Error al escribir una linea".to_string()))
    );
    assert_eq!(
        ordenar_linea("a,b,c", &vec![0, 15, 7]).err(),
        Some(ErrorType::InvalidColumn("Índice fuera de rango: 15".to_string()))
    );
}

#[test]
fn comparar_dos_lineas() {
    let columnas = textos(&["id", "nombre"]);
    let por_id = vec![OrderClause { column: "id".to_string(), direccion: OrderDirection::Asc }];
    let por_id_desc = vec![OrderClause { column: "id".to_string(), direccion: OrderDirection::Desc }];
    let por_nada = vec![OrderClause { column: "peso".to_string(), direccion: OrderDirection::Asc }];
    assert_eq!(comparar_linea("2,a", "1,b", &por_id, &columnas).ok(), Some(true));
    assert_eq!(comparar_linea("1,a", "2,b", &por_id, &columnas).ok(), Some(false));
    assert_eq!(comparar_linea("1,a", "1,b", &por_id, &columnas).ok(), Some(true));
    assert_eq!(comparar_linea("2,a", "1,b", &por_id_desc, &columnas).ok(), Some(false));
    assert_eq!(comparar_linea("1,a", "2,b", &por_id_desc, &columnas).ok(), Some(true));
    assert_eq!(comparar_linea("1,a", "2,b", &por_nada, &columnas).ok(), Some(true));
    assert_eq!(comparar_linea("x,a", "2,b", &por_id, &columnas).ok(), Some(true));
    assert_eq!(comparar_linea("2,a", "x,b", &por_id, &columnas).ok(), Some(false));
    assert_eq!(comparar_linea("10,a", "9,b", &por_id, &columnas).ok(), Some(true));
    assert_eq!(
        comparar_linea("1", "2,b", &por_id, &columnas).err(),
        Some(ErrorType::InvalidColumn("Error al escribir una linea".to_string()))
    );
    assert_eq!(
        comparar_linea("1,a", "2", &por_id, &columnas).err(),
        Some(ErrorType::InvalidColumn("Error al escribir una linea".to_string()))
    );
}

fn comp(izq: Valor, operador: OperadorComparacion, der: Valor) -> ExpresionBooleana {
    ExpresionBooleana::Comparacion { izq, operador, der }
}

fn col(s: &str) -> Valor {
    Valor::String(s.to_string())
}

fn lit(s: &str) -> Valor {
    Valor::Literal(s.to_string())
}

#[test]
fn evaluar_comparaciones() {
    let f = fila(&[("id", Datos::Integer(9)), ("nombre", t("b")), ("7", Datos::Integer(1))]);
    assert_eq!(comp(col("id"), OperadorComparacion::Mayor, col("5")).evaluar(&f).ok(), Some(true));
    assert_eq!(comp(col("id"), OperadorComparacion::Menor, col("5")).evaluar(&f).ok(), Some(false));
    assert_eq!(comp(col("id"), OperadorComparacion::Igual, col("9")).evaluar(&f).ok(), Some(true));
    assert_eq!(comp(col("id"), OperadorComparacion::MenorIgual, col("9")).evaluar(&f).ok(), Some(true));
    assert_eq!(comp(col("id"), OperadorComparacion::MayorIgual, col("10")).evaluar(&f).ok(), Some(false));
    assert_eq!(comp(col("nombre"), OperadorComparacion::Igual, lit("b")).evaluar(&f).ok(), Some(true));
    assert_eq!(comp(lit("id"), OperadorComparacion::Igual, col("id")).evaluar(&f).ok(), Some(false));
    assert_eq!(comp(col("id"), OperadorComparacion::Menor, lit("0")).evaluar(&f).ok(), Some(true));
    assert_eq!(comp(col("7"), OperadorComparacion::Igual, col("1")).evaluar(&f).ok(), Some(true));
    assert_eq!(
        comp(col("peso"), OperadorComparacion::Igual, col("1")).evaluar(&f).err(),
        Some(ErrorType::InvalidSyntax(
            "El valor 'peso' no existe como columna ni es un numero.".to_string()
        ))
    );
}

#[test]
fn evaluar_and_or_not() {
    let f = fila(&[("id", Datos::Integer(9))]);
    let si = || comp(col("id"), OperadorComparacion::Igual, col("9"));
    let no = || comp(col("id"), OperadorComparacion::Igual, col("8"));
    let mal = || comp(col("peso"), OperadorComparacion::Igual, col("8"));
    let y = |a, b| ExpresionBooleana::And(Box::new(a), Box::new(b));
    let o = |a, b| ExpresionBooleana::Or(Box::new(a), Box::new(b));
    assert_eq!(y(si(), si()).evaluar(&f).ok(), Some(true));
    assert_eq!(y(si(), no()).evaluar(&f).ok(), Some(false));
    assert_eq!(y(no(), mal()).evaluar(&f).ok(), Some(false));
    assert!(y(si(), mal()).evaluar(&f).is_err());
    assert!(y(mal(), no()).evaluar(&f).is_err());
    assert_eq!(o(no(), si()).evaluar(&f).ok(), Some(true));
    assert_eq!(o(no(), no()).evaluar(&f).ok(), Some(false));
    assert_eq!(o(si(), mal()).evaluar(&f).ok(), Some(true));
    assert!(o(no(), mal()).evaluar(&f).is_err());
    assert_eq!(ExpresionBooleana::Not(Box::new(si())).evaluar(&f).ok(), Some(false));
    assert!(ExpresionBooleana::Not(Box::new(mal())).evaluar(&f).is_err());
    assert_eq!(where_condition(&None, &f).ok(), Some(true));
    assert_eq!(where_condition(&Some(no()), &f).ok(), Some(false));
}

#[test]
fn ruta_de_una_tabla() {
    assert_eq!(agregar_path("datos/tablas", &"clientes".to_string()), "datos/tablas/clientes.csv");
    assert_eq!(agregar_path("", &"".to_string()), "/.csv");
}

#[test]
fn sentencias_de_una_entrada() {
    assert_eq!(
        limpiar_entrada(&"  SELECT a\nFROM t ; ;\n DELETE FROM t;".to_string()),
        textos(&["SELECT a FROM t", "DELETE FROM t"])
    );
    assert_eq!(limpiar_entrada(&"".to_string()), Vec::<String>::new());
    assert_eq!(limpiar_entrada(&" ;\n; ".to_string()), Vec::<String>::new());
    assert_eq!(limpiar_entrada(&"a".to_string()), textos(&["a"]));
}
