use motor_sql::errores::ErrorType;
use motor_sql::lexer::lexer;
use motor_sql::operador::Operador;

fn palabra(s: &str) -> Operador {
    Operador::String(s.to_string())
}

fn texto(s: &str) -> Operador {
    Operador::Texto(s.to_string())
}

fn comparador(s: &str) -> Operador {
    Operador::Comparador(s.to_string())
}

fn tokens(s: &str) -> Vec<Operador> {
    match lexer(&s.to_string()) {
        Ok(v) => v,
        Err(e) => panic!("unexpected failure: {}", e.to_string()),
    }
}

fn fallo(s: &str) -> String {
    match lexer(&s.to_string()) {
        Ok(v) => panic!("unexpected tokens: {:?}", v),
        Err(ErrorType::InvalidSyntax(m)) => m,
        Err(e) => panic!("unexpected kind of failure: {}", e.to_string()),
    }
}

#[test]
fn lexer_insert_con_texto_de_dos_palabras() {
    assert_eq!(
        tokens("INSERT INTO t (id, name) VALUES (1, 'Ann Lee')"),
        vec![
            palabra("INSERT"),
            palabra("INTO"),
            palabra("t"),
            Operador::Lista(vec![palabra("id"), palabra("name")]),
            palabra("VALUES"),
            Operador::Lista(vec![palabra("1"), texto("Ann Lee")]),
        ]
    );
}

#[test]
fn lexer_texto_vacio_no_da_tokens() {
    assert_eq!(tokens(""), Vec::<Operador>::new());
    assert_eq!(tokens("  , ,\t\n "), Vec::<Operador>::new());
}

#[test]
fn lexer_comparadores_pegados() {
    assert_eq!(tokens("a<=b"), vec![palabra("a"), comparador("<="), palabra("b")]);
    assert_eq!(tokens("a>=b"), vec![palabra("a"), comparador(">="), palabra("b")]);
    assert_eq!(tokens("a<b"), vec![palabra("a"), comparador("<"), palabra("b")]);
    assert_eq!(tokens("a>b"), vec![palabra("a"), comparador(">"), palabra("b")]);
    assert_eq!(tokens("a=b"), vec![palabra("a"), comparador("="), palabra("b")]);
}

#[test]
fn lexer_comparador_toma_un_solo_igual() {
    assert_eq!(tokens("<=="), vec![comparador("<="), comparador("=")]);
    assert_eq!(tokens("=<"), vec![comparador("="), comparador("<")]);
    assert_eq!(tokens("<"), vec![comparador("<")]);
    assert_eq!(tokens("> ="), vec![comparador(">"), comparador("=")]);
}

#[test]
fn lexer_espacios_de_todo_tipo_separan() {
    assert_eq!(
        tokens("SELECT\ta\n,b\r\nFROM\u{a0}t"),
        vec![palabra("SELECT"), palabra("a"), palabra("b"), palabra("FROM"), palabra("t")]
    );
}

#[test]
fn lexer_texto_citado_se_compacta() {
    assert_eq!(tokens("'  Ivan \t  Maximoff  '"), vec![texto("Ivan Maximoff")]);
    assert_eq!(tokens("''"), vec![texto("")]);
    assert_eq!(tokens("'   '"), vec![texto("")]);
    assert_eq!(tokens("'a,b (c) = d'"), vec![texto("a,b (c) = d")]);
}

#[test]
fn lexer_palabra_pegada_a_comilla_se_pierde() {
    assert_eq!(tokens("x'y'"), vec![texto("y")]);
    assert_eq!(tokens("a x'y' b"), vec![palabra("a"), texto("y"), palabra("b")]);
}

#[test]
fn lexer_palabra_pegada_a_parentesis() {
    assert_eq!(
        tokens("f(a)g"),
        vec![palabra("f"), Operador::Lista(vec![palabra("a")]), palabra("g")]
    );
}

#[test]
fn lexer_grupos_anidados() {
    assert_eq!(
        tokens("((a) (b c))"),
        vec![Operador::Lista(vec![
            Operador::Lista(vec![palabra("a")]),
            Operador::Lista(vec![palabra("b"), palabra("c")]),
        ])]
    );
}

#[test]
fn lexer_caracteres_no_ascii() {
    assert_eq!(
        tokens("SELECT año FROM 'niños  ñandú'"),
        vec![palabra("SELECT"), palabra("año"), palabra("FROM"), texto("niños ñandú")]
    );
}

#[test]
fn lexer_parentesis_vacio_en_cualquier_lugar() {
    assert_eq!(fallo("()"), "Paréntesis sin nada adentro");
    assert_eq!(fallo("SELECT a FROM t WHERE ()"), "Paréntesis sin nada adentro");
    assert_eq!(fallo("(a (  ) b)"), "Paréntesis sin nada adentro");
    assert_eq!(fallo("( , )"), "Paréntesis sin nada adentro");
}

#[test]
fn lexer_parentesis_sin_cerrar() {
    assert_eq!(fallo("(a"), "Falta cerrar parentesis.");
    assert_eq!(fallo("(a (b)"), "Falta cerrar parentesis.");
    assert_eq!(fallo("("), "Falta cerrar parentesis.");
}

#[test]
fn lexer_parentesis_sin_abrir() {
    assert_eq!(fallo(")"), "Paréntesis de cierre sin haber uno de apertura.");
    assert_eq!(fallo("(a))"), "Paréntesis de cierre sin haber uno de apertura.");
}

#[test]
fn lexer_comilla_sin_cerrar() {
    assert_eq!(fallo("'abc"), "Comilla simple sin cerrar.");
    assert_eq!(fallo("a = 'b' 'c"), "Comilla simple sin cerrar.");
    assert_eq!(fallo("'"), "Comilla simple sin cerrar.");
}

#[test]
fn lexer_gana_el_primer_error() {
    assert_eq!(fallo("() )"), "Paréntesis sin nada adentro");
    assert_eq!(fallo(") ()"), "Paréntesis de cierre sin haber uno de apertura.");
    assert_eq!(fallo("('a"), "Comilla simple sin cerrar.");
}

#[test]
fn error_to_string_lleva_etiqueta() {
    assert_eq!(ErrorType::InvalidTable("a".to_string()).to_string(), "[INVALID_TABLE]: a");
    assert_eq!(ErrorType::InvalidColumn("b".to_string()).to_string(), "[INVALID_COLUMN]: b");
    assert_eq!(ErrorType::InvalidSyntax("c".to_string()).to_string(), "[INVALID_SYNTAX]: c");
    assert_eq!(ErrorType::Error("d".to_string()).to_string(), "[ERROR]: d");
}
