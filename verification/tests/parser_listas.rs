use motor_sql::condicion::{ExpresionBooleana, OperadorComparacion, Valor};
use motor_sql::consultas::{
    DeleteQuery, InsertQuery, OrderClause, OrderDirection, SQLQuery, SelectQuery, UpdateQuery,
};
use motor_sql::dato::{Datos, Fila};
use motor_sql::operador::Operador;
use motor_sql::parser::parser;

// Checks the statement that a list of tokens must parse into.
fn probar_exitoso(caso: &Vec<Operador>, esperado: SQLQuery) {
    let resultado = parser(caso);
    match resultado {
        Ok(query) => assert_eq!(query, esperado, "Resultado inesperado para el caso: {:?}", caso),
        Err(e) => panic!("Parser devolvió un error inesperado: {} para el caso: {:?}", e.to_string(), caso),
    }
}

// Checks the message of a list of tokens that must be refused.
fn probar_error(caso: &Vec<Operador>, mensaje_error_esperado: &str) {
    let resultado = parser(caso);
    match resultado {
        Ok(_) => panic!("Se esperaba un error para el caso: {:?}", caso),
        Err(e) => assert!(e.to_string().contains(mensaje_error_esperado),
                        "Se esperaba un error que contenga '{}', pero se obtuvo: '{}' para el caso: {:?}",
                        mensaje_error_esperado,
                        e.to_string(),
                        caso),
    }
}

#[test]
fn test_parser_insert_simple() {
    let input = vec![
        Operador::String("INSERT".to_string()),
        Operador::String("INTO".to_string()),
        Operador::String("users".to_string()),
        Operador::Lista(vec![
            Operador::String("id".to_string()),
            Operador::String("name".to_string()),
        ]),
        Operador::String("VALUES".to_string()),
        Operador::Lista(vec![
            Operador::String("1".to_string()),
            Operador::Texto("Ivan".to_string()),
        ]),
    ];
    let mut values_map = Fila::new();
    values_map.insert("id".to_string(), Datos::Integer(1));
    values_map.insert("name".to_string(), Datos::String("Ivan".to_string()));

    let esperado = SQLQuery::Insert(InsertQuery {
        table: "users".to_string(),
        columns: vec!["id".to_string(), "name".to_string()],
        values: vec![values_map],
    });
    probar_exitoso(&input, esperado);
    println!("Parser insert simple ejecutado correctamente!");
}

#[test]
fn test_parser_insert_complejo() {
    let input = vec![
        Operador::String("INSERT".to_string()),
        Operador::String("INTO".to_string()),
        Operador::String("users".to_string()),
        Operador::Lista(vec![
            Operador::String("id".to_string()),
            Operador::String("name".to_string()),
        ]),
        Operador::String("VALUES".to_string()),
        Operador::Lista(vec![
            Operador::Lista(vec![
                Operador::Lista(vec![
                    Operador::String("1".to_string()),
                ]),
            ]),
            Operador::Texto("Ivan Maximoff".to_string()),
        ]),
        Operador::Lista(vec![
            Operador::Lista(vec![
                Operador::String("2".to_string()),
            ]),
            Operador::Lista(vec![
                Operador::Lista(vec![
                    Operador::Texto("Alexis".to_string()),
                ]),
            ]),
        ]),
    ];
    let mut values1 = Fila::new();
    values1.insert("id".to_string(), Datos::Integer(1));
    values1.insert("name".to_string(), Datos::String("Ivan Maximoff".to_string()));

    let mut values2 = Fila::new();
    values2.insert("id".to_string(), Datos::Integer(2));
    values2.insert("name".to_string(), Datos::String("Alexis".to_string()));

    let esperado = SQLQuery::Insert(InsertQuery {
        table: "users".to_string(),
        columns: vec!["id".to_string(), "name".to_string()],
        values: vec![values1, values2],
    });

    probar_exitoso(&input, esperado);
    println!("Parser insert complejo ejecutado correctamente!");
}

#[test]
fn test_parser_select_simple() {
    let input = vec![
        Operador::String("SELECT".to_string()),
        Operador::String("id".to_string()),
        Operador::String("name".to_string()),
        Operador::String("FROM".to_string()),
        Operador::String("users".to_string()),
        Operador::String("WHERE".to_string()),
        Operador::String("age".to_string()),
        Operador::Comparador(">".to_string()),
        Operador::String("30".to_string()),
    ];

    let esperado = SQLQuery::Select(SelectQuery {
        columns_select: vec!["id".to_string(), "name".to_string()],
        table: "users".to_string(),
        where_clause: Some(ExpresionBooleana::Comparacion {
            izq: Valor::String("age".to_string()),
            operador: OperadorComparacion::Mayor,
            der: Valor::String("30".to_string()),
        }),
        order_by: None,
    });

    probar_exitoso(&input, esperado);
    println!("Parser select simple ejecutado correctamente!");
}

#[test]
fn test_parser_select_complejo() {
    let input = vec![
        Operador::String("SELECT".to_string()),
        Operador::String("id".to_string()),
        Operador::String("name".to_string()),
        Operador::String("FROM".to_string()),
        Operador::Texto("users".to_string()),
        Operador::String("WHERE".to_string()),
        Operador::Lista(vec![
            Operador::Texto("age".to_string()),
            Operador::Comparador(">".to_string()),
            Operador::String("30".to_string()),
        ]),
        Operador::String("AND".to_string()),
        Operador::Lista(vec![
            Operador::String("status".to_string()),
            Operador::Comparador("=".to_string()),
            Operador::Texto("active".to_string()),
        ]),
        Operador::String("ORDER".to_string()),
        Operador::String("BY".to_string()),
        Operador::String("name".to_string()),
        Operador::String("DESC".to_string()),
    ];

    let esperado = SQLQuery::Select(SelectQuery {
        columns_select: vec!["id".to_string(), "name".to_string()],
        table: "users".to_string(),
        where_clause: Some(ExpresionBooleana::And(
            Box::new(ExpresionBooleana::Comparacion {
                izq: Valor::Literal("age".to_string()),
                operador: OperadorComparacion::Mayor,
                der: Valor::String("30".to_string()),
            }),
            Box::new(ExpresionBooleana::Comparacion {
                izq: Valor::String("status".to_string()),
                operador: OperadorComparacion::Igual,
                der: Valor::Literal("active".to_string()),
            }),
        )),
        order_by: Some(vec![OrderClause {
            column: "name".to_string(),
            direccion: OrderDirection::Desc,
        }]),
    });

    probar_exitoso(&input, esperado);
    println!("Parser select complejo ejecutado correctamente!");
}

#[test]
fn test_parser_update_simple() {
    let input = vec![
        Operador::String("UPDATE".to_string()),
        Operador::String("users".to_string()),
        Operador::String("SET".to_string()),
        Operador::String("name".to_string()),
        Operador::Comparador("=".to_string()),
        Operador::Texto("Ivan".to_string()),
        Operador::String("WHERE".to_string()),
        Operador::String("id".to_string()),
        Operador::Comparador("=".to_string()),
        Operador::String("1".to_string()),
    ];

    let mut changes = Fila::new();
    changes.insert("name".to_string(), Datos::String("Ivan".to_string()));

    let where_condition: Option<ExpresionBooleana> = Some(ExpresionBooleana::Comparacion {
        izq: Valor::String("id".to_string()),
        operador: OperadorComparacion::Igual,
        der: Valor::String("1".to_string()),
    });

    let esperado = SQLQuery::Update(UpdateQuery {
        table: "users".to_string(),
        changes,
        where_condition,
    });
    probar_exitoso(&input, esperado);
    println!("Parser update simple ejecutado correctamente!");
}

#[test]
fn test_parser_update_complejo() {
    let input = vec![
        Operador::String("UPDATE".to_string()),
        Operador::String("users".to_string()),
        Operador::String("SET".to_string()),
        Operador::String("name".to_string()),
        Operador::Comparador("=".to_string()),
        Operador::Texto("Ivan".to_string()),
        Operador::String("age".to_string()),
        Operador::Comparador("=".to_string()),
        Operador::String("30".to_string()),
        Operador::String("WHERE".to_string()),
        Operador::String("id".to_string()),
        Operador::Comparador("=".to_string()),
        Operador::String("1".to_string()),
        Operador::String("AND".to_string()),
        Operador::String("status".to_string()),
        Operador::Comparador("=".to_string()),
        Operador::Texto("active".to_string()),
    ];

    let mut changes = Fila::new();
    changes.insert("name".to_string(), Datos::String("Ivan".to_string()));
    changes.insert("age".to_string(), Datos::Integer(30));

    let where_condition = Some(ExpresionBooleana::And(
        Box::new(ExpresionBooleana::Comparacion {
            izq: Valor::String("id".to_string()),
            operador: OperadorComparacion::Igual,
            der: Valor::String("1".to_string()),
        }),
        Box::new(ExpresionBooleana::Comparacion {
            izq: Valor::String("status".to_string()),
            operador: OperadorComparacion::Igual,
            der: Valor::Literal("active".to_string()),
        }),
    ));

    let esperado = SQLQuery::Update(UpdateQuery {
        table: "users".to_string(),
        changes,
        where_condition,
    });
    probar_exitoso(&input, esperado);
    println!("Parser update complejo ejecutado correctamente!");
}

#[test]
fn test_parser_delete_simple() {
    let input = vec![
        Operador::String("DELETE".to_string()),
        Operador::String("FROM".to_string()),
        Operador::String("users".to_string()),
        Operador::String("WHERE".to_string()),
        Operador::String("id".to_string()),
        Operador::Comparador("=".to_string()),
        Operador::String("1".to_string()),
    ];
    let where_clause = Some(ExpresionBooleana::Comparacion {
        izq: Valor::String("id".to_string()),
        operador: OperadorComparacion::Igual,
        der: Valor::String("1".to_string()),
    });
    let esperado = SQLQuery::Delete(DeleteQuery {
        table: "users".to_string(),
        where_clause,
    });
    probar_exitoso(&input, esperado);
}

#[test]
fn test_parser_delete_complejo() {
    let input = vec![
        Operador::String("DELETE".to_string()),
        Operador::String("FROM".to_string()),
        Operador::String("users".to_string()),
        Operador::String("WHERE".to_string()),
        Operador::Lista(vec![
            Operador::String("id".to_string()),
            Operador::Comparador("=".to_string()),
            Operador::String("1".to_string()),
            Operador::String("OR".to_string()),
            Operador::String("id".to_string()),
            Operador::Comparador("=".to_string()),
            Operador::String("2".to_string()),
        ]),
        Operador::String("AND".to_string()),
        Operador::String("status".to_string()),
        Operador::Comparador("=".to_string()),
        Operador::Texto("inactive".to_string()),
    ];
    let where_clause = Some(
        ExpresionBooleana::And(
            Box::new(
                ExpresionBooleana::Or(
                    Box::new(
                        ExpresionBooleana::Comparacion {
                            izq: Valor::String("id".to_string()),
                            operador: OperadorComparacion::Igual,
                            der: Valor::String("1".to_string()),
                        }
                    ),
                    Box::new(
                        ExpresionBooleana::Comparacion {
                            izq: Valor::String("id".to_string()),
                            operador: OperadorComparacion::Igual,
                            der: Valor::String("2".to_string()),
                        }
                    )
                )
            ),
            Box::new(
                ExpresionBooleana::Comparacion {
                    izq: Valor::String("status".to_string()),
                    operador: OperadorComparacion::Igual,
                    der: Valor::Literal("inactive".to_string()),
                }
            )
        )
    );
    let esperado = SQLQuery::Delete(DeleteQuery {
        table: "users".to_string(),
        where_clause,
    });
    probar_exitoso(&input, esperado);
}

#[test]
fn test_parser_error_insert_falta_values() {
    let input = vec![
        Operador::String("INSERT".to_string()),
        Operador::String("INTO".to_string()),
        Operador::String("users".to_string()),
        Operador::Lista(vec![
            Operador::String("id".to_string()),
            Operador::String("name".to_string()),
        ]),
        Operador::Lista(vec![
            Operador::String("4".to_string()),
            Operador::String("Ivan".to_string()),
        ]),
    ];
    let error = "Falta 'VALUES' en la consulta INSERT.".to_string();
    probar_error(&input, &error);
}

#[test]
fn test_parser_error_update_falta_set() {
    let input = vec![
        Operador::String("UPDATE".to_string()),
        Operador::String("users".to_string()),
    ];
    let error = "Falta 'SET' en la consulta UPDATE.".to_string();
    probar_error(&input, &error);
}
