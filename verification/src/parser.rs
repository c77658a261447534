//! From tokens to a statement, following the grammar.

use vstd::prelude::*;
use crate::campos::textos;
use crate::condicion::{BooleanExpr, ExpresionBooleana};
use crate::consultas::{
    claves,
    condicion_de,
    filas,
    orden_de,
    DeleteQuery,
    InsertQuery,
    OrderClause,
    OrderDirection,
    OrderKey,
    SQLQuery,
    SelectQuery,
    Statement,
    UpdateQuery,
};
use crate::dato::{Fila, Value};
use crate::errores::{error_columna, error_sintaxis, ErrorType, Failure};
use crate::gramatica::{
    Parcial,
    analizar,
    analizar_delete,
    analizar_insert,
    analizar_select,
    analizar_update,
    cambios_desde,
    claves_desde,
    columnas_desde,
    comparacion,
    condicion_desde,
    conjuncion,
    disyuncion,
    expresion,
    fila_de,
    fila_desde,
    filas_desde,
    largo_condicion,
    nombre,
    nombres,
    orden_desde,
    palabra,
    primario,
    resto_conjuncion,
    resto_disyuncion,
};
use crate::operador::{lema_grupo, tokens, Operador, Token};
use crate::texto::mismo_texto;
use crate::utils::{
    operador_to_dato,
    operador_to_single_dato,
    operador_to_single_valor,
    string_to_comparacion,
};

verus! {

/// Tells whether the token is the bare word `clave`.
fn es_clave(o: &Operador, clave: &str) -> (r: bool)
    ensures
        r == (o@ == palabra(clave)),
{
    match o {
        Operador::String(s) => mismo_texto(s.as_str(), clave),
        _ => false,
    }
}

/// The name that the token gives, where it is a bare word or a quoted text.
fn nombre_de(o: &Operador) -> (r: Option<&String>)
    ensures
        match r {
            Some(s) => nombre(o@) == Some(s@),
            None => nombre(o@) is None,
        },
{
    match o {
        Operador::String(s) => Some(s),
        Operador::Texto(s) => Some(s),
        _ => None,
    }
}

/// The executable condition and position agree with the mathematical ones.
pub open spec fn mismo_parcial(r: Result<(ExpresionBooleana, usize), ErrorType>, m: Parcial) -> bool {
    match r {
        Ok((e, j)) => m == Ok::<(BooleanExpr, int), Failure>((e@, j as int)),
        Err(e) => m == Err::<(BooleanExpr, int), Failure>(e@),
    }
}

/// The comparison that three tokens write.
fn crear_comparacion(izq: &Operador, comparador: &str, der: &Operador) -> (r: Result<
    ExpresionBooleana,
    ErrorType,
>)
    ensures
        match r {
            Ok(e) => comparacion(izq@, comparador@, der@) == Ok::<BooleanExpr, Failure>(e@),
            Err(e) => comparacion(izq@, comparador@, der@) == Err::<BooleanExpr, Failure>(e@),
        },
{
    let i = operador_to_single_valor(izq)?;
    let operador = string_to_comparacion(comparador)?;
    let d = operador_to_single_valor(der)?;
    Ok(ExpresionBooleana::Comparacion { izq: i, operador, der: d })
}

/// One comparison, one group or one `NOT` with what it negates.
fn where_cases(ts: &Vec<Operador>, i: usize, fin: usize) -> (r: Result<
    (ExpresionBooleana, usize),
    ErrorType,
>)
    requires
        fin <= ts@.len(),
    ensures
        mismo_parcial(r, primario(tokens(ts@), i as int, fin as int)),
        r is Ok ==> i < r->Ok_0.1 <= fin,
    decreases ts@, fin - i, 0int,
{
    if i >= fin {
        return Err(error_sintaxis("Sintaxis inválida en el WHERE."));
    }
    if fin - i > 2 {
        if let Operador::Comparador(simbolo) = &ts[i + 1] {
            let c = crear_comparacion(&ts[i], simbolo.as_str(), &ts[i + 2])?;
            return Ok((c, i + 3));
        }
    }
    match &ts[i] {
        Operador::Lista(g) => {
            proof {
                lema_grupo(ts@[i as int]);
            }
            let e = where_clause_rec(g, 0, g.len())?;
            Ok((e, i + 1))
        },
        Operador::String(w) => {
            if mismo_texto(w.as_str(), "NOT") {
                let (e, j) = where_cases(ts, i + 1, fin)?;
                Ok((ExpresionBooleana::Not(Box::new(e)), j))
            } else {
                Err(error_sintaxis("Sintaxis inválida en el WHERE."))
            }
        },
        _ => Err(error_sintaxis("Sintaxis inválida en el WHERE.")),
    }
}

/// A chain of one or more primaries joined by `AND`, grouped to the left.
fn where_and(ts: &Vec<Operador>, i: usize, fin: usize) -> (r: Result<
    (ExpresionBooleana, usize),
    ErrorType,
>)
    requires
        fin <= ts@.len(),
    ensures
        mismo_parcial(r, conjuncion(tokens(ts@), i as int, fin as int)),
        r is Ok ==> i < r->Ok_0.1 <= fin,
    decreases ts@, fin - i, 2int,
{
    let (primero, despues) = where_cases(ts, i, fin)?;
    let mut izq = primero;
    let mut j: usize = despues;
    while j < fin && es_clave(&ts[j], "AND")
        invariant
            i < j <= fin <= ts@.len(),
            conjuncion(tokens(ts@), i as int, fin as int) == resto_conjuncion(
                tokens(ts@),
                j as int,
                fin as int,
                izq@,
            ),
        decreases fin - j,
    {
        match where_cases(ts, j + 1, fin) {
            Err(e) => {
                return Err(e);
            },
            Ok((d, k)) => {
                izq = ExpresionBooleana::And(Box::new(izq), Box::new(d));
                j = k;
            },
        }
    }
    Ok((izq, j))
}

/// A chain of one or more conjunctions joined by `OR`, grouped to the left.
fn where_or(ts: &Vec<Operador>, i: usize, fin: usize) -> (r: Result<
    (ExpresionBooleana, usize),
    ErrorType,
>)
    requires
        fin <= ts@.len(),
    ensures
        mismo_parcial(r, disyuncion(tokens(ts@), i as int, fin as int)),
        r is Ok ==> i < r->Ok_0.1 <= fin,
    decreases ts@, fin - i, 4int,
{
    let (primero, despues) = where_and(ts, i, fin)?;
    let mut izq = primero;
    let mut j: usize = despues;
    while j < fin && es_clave(&ts[j], "OR")
        invariant
            i < j <= fin <= ts@.len(),
            disyuncion(tokens(ts@), i as int, fin as int) == resto_disyuncion(
                tokens(ts@),
                j as int,
                fin as int,
                izq@,
            ),
        decreases fin - j,
    {
        match where_and(ts, j + 1, fin) {
            Err(e) => {
                return Err(e);
            },
            Ok((d, k)) => {
                izq = ExpresionBooleana::Or(Box::new(izq), Box::new(d));
                j = k;
            },
        }
    }
    Ok((izq, j))
}

/// The condition that the tokens from `i` up to `fin` write, all of them.
fn where_clause_rec(ts: &Vec<Operador>, i: usize, fin: usize) -> (r: Result<
    ExpresionBooleana,
    ErrorType,
>)
    requires
        fin <= ts@.len(),
    ensures
        match r {
            Ok(e) => expresion(tokens(ts@), i as int, fin as int) == Ok::<BooleanExpr, Failure>(e@),
            Err(e) => expresion(tokens(ts@), i as int, fin as int) == Err::<BooleanExpr, Failure>(
                e@,
            ),
        },
    decreases ts@, fin - i, 5int,
{
    let (e, j) = where_or(ts, i, fin)?;
    if j == fin {
        Ok(e)
    } else {
        Err(error_sintaxis("Operador lógico inválido o sintaxis incorrecta."))
    }
}

/// The condition that starts at position `i`, if `WHERE` stands there, and the
/// position after it.
fn where_clause(ts: &Vec<Operador>, i: usize) -> (r: Result<
    (Option<ExpresionBooleana>, usize),
    ErrorType,
>)
    requires
        i <= ts@.len(),
    ensures
        match r {
            Ok((c, j)) => condicion_desde(tokens(ts@), i as int) == Ok::<
                (Option<BooleanExpr>, int),
                Failure,
            >((condicion_de(c), j as int)) && i <= j <= ts@.len(),
            Err(e) => condicion_desde(tokens(ts@), i as int) == Err::<
                (Option<BooleanExpr>, int),
                Failure,
            >(e@),
        },
{
    if i < ts.len() && es_clave(&ts[i], "WHERE") {
        if i + 1 >= ts.len() {
            return Err(error_sintaxis("Faltan valores despues del WHERE"));
        }
        let mut fin: usize = i + 1;
        while fin < ts.len() && !es_clave(&ts[fin], "ORDER")
            invariant
                i + 1 <= fin <= ts@.len(),
                i + 1 + largo_condicion(tokens(ts@), i + 1) == fin + largo_condicion(
                    tokens(ts@),
                    fin as int,
                ),
            decreases ts@.len() - fin,
        {
            fin += 1;
        }
        let e = where_clause_rec(ts, i + 1, fin)?;
        Ok((Some(e), fin))
    } else {
        Ok((None, i))
    }
}

/// The keys that the tokens from `i` to the end write.
fn order_by_rec(ts: &Vec<Operador>, i: usize) -> (r: Result<Vec<OrderClause>, ErrorType>)
    requires
        i <= ts@.len(),
    ensures
        match r {
            Ok(v) => claves_desde(tokens(ts@), i as int, Seq::empty()) == Ok::<
                Seq<OrderKey>,
                Failure,
            >(claves(v@)),
            Err(e) => claves_desde(tokens(ts@), i as int, Seq::empty()) == Err::<
                Seq<OrderKey>,
                Failure,
            >(e@),
        },
{
    let mut v: Vec<OrderClause> = Vec::new();
    let mut k: usize = i;
    assert(claves(v@) =~= Seq::<OrderKey>::empty());
    while k < ts.len()
        invariant
            i <= k <= ts@.len(),
            claves_desde(tokens(ts@), i as int, Seq::empty()) == claves_desde(
                tokens(ts@),
                k as int,
                claves(v@),
            ),
        decreases ts@.len() - k,
    {
        let ghost antes = claves(v@);
        match nombre_de(&ts[k]) {
            None => {
                return Err(error_sintaxis("Variables invalidas en ORDER BY"));
            },
            Some(columna) => {
                let mut direccion = OrderDirection::Asc;
                let mut paso: usize = 1;
                if k + 1 < ts.len() {
                    if es_clave(&ts[k + 1], "ASC") {
                        paso = 2;
                    } else if es_clave(&ts[k + 1], "DESC") {
                        direccion = OrderDirection::Desc;
                        paso = 2;
                    }
                }
                v.push(OrderClause { column: columna.clone(), direccion });
                assert(claves(v@) =~= antes.push(
                    OrderKey { column: columna@, direction: direccion },
                ));
                k += paso;
            },
        }
    }
    Ok(v)
}

/// The ordering that starts at position `i`, if `ORDER BY` stands there.
fn order_by(ts: &Vec<Operador>, i: usize) -> (r: Result<
    (Option<Vec<OrderClause>>, usize),
    ErrorType,
>)
    requires
        i <= ts@.len(),
    ensures
        match r {
            Ok((o, j)) => orden_desde(tokens(ts@), i as int) == Ok::<
                (Option<Seq<OrderKey>>, int),
                Failure,
            >((orden_de(o), j as int)) && i <= j <= ts@.len(),
            Err(e) => orden_desde(tokens(ts@), i as int) == Err::<
                (Option<Seq<OrderKey>>, int),
                Failure,
            >(e@),
        },
{
    if ts.len() - i >= 2 && es_clave(&ts[i], "ORDER") && es_clave(&ts[i + 1], "BY") {
        if ts.len() - i == 2 {
            return Err(error_sintaxis("Faltan valores despues del ORDER BY "));
        }
        let v = order_by_rec(ts, i + 2)?;
        Ok((Some(v), ts.len()))
    } else {
        Ok((None, i))
    }
}

/// The names that a list of tokens gives.
fn columns_to_string(lista: &Vec<Operador>) -> (r: Result<Vec<String>, ErrorType>)
    ensures
        match r {
            Ok(v) => nombres(tokens(lista@)) == Ok::<Seq<Seq<char>>, Failure>(textos(v@)),
            Err(e) => nombres(tokens(lista@)) == Err::<Seq<Seq<char>>, Failure>(e@),
        },
{
    let mut v: Vec<String> = Vec::new();
    let mut k: usize = 0;
    while k < lista.len()
        invariant
            k <= lista@.len(),
            v@.len() == k,
            forall|j: int|
                0 <= j < k ==> nombre(#[trigger] tokens(lista@)[j]) == Some(v@[j]@),
        decreases lista@.len() - k,
    {
        match nombre_de(&lista[k]) {
            None => {
                assert(nombre(tokens(lista@)[k as int]) is None);
                return Err(
                    error_sintaxis(
                        "Se ingresaron Parentesis o caracteres especiales a las columnas",
                    ),
                );
            },
            Some(s) => {
                v.push(s.clone());
            },
        }
        k += 1;
    }
    assert(textos(v@) =~= Seq::new(
        tokens(lista@).len(),
        |i: int| nombre(tokens(lista@)[i])->0,
    ));
    Ok(v)
}

/// Tells whether a name occurs twice in the list.
fn columnas_repetidas(columnas: &Vec<String>) -> (r: bool)
    ensures
        r == !textos(columnas@).no_duplicates(),
{
    let mut i: usize = 0;
    while i < columnas.len()
        invariant
            i <= columnas@.len(),
            forall|a: int, b: int|
                0 <= a < i && 0 <= b < columnas@.len() && a != b ==> textos(columnas@)[a]
                    != textos(columnas@)[b],
        decreases columnas@.len() - i,
    {
        let mut j: usize = 0;
        while j < columnas.len()
            invariant
                i < columnas@.len(),
                j <= columnas@.len(),
                forall|b: int|
                    0 <= b < j && b != i ==> textos(columnas@)[i as int] != textos(
                        columnas@,
                    )[b],
            decreases columnas@.len() - j,
        {
            if j != i && mismo_texto(columnas[i].as_str(), columnas[j].as_str()) {
                assert(textos(columnas@)[i as int] == textos(columnas@)[j as int]);
                return true;
            }
            j += 1;
        }
        i += 1;
    }
    false
}

/// The executable row agrees with the mathematical one.
pub open spec fn misma_fila(r: Result<Fila, ErrorType>, m: Result<Map<Seq<char>, Value>, Failure>) -> bool {
    match r {
        Ok(f) => m == Ok::<Map<Seq<char>, Value>, Failure>(f@),
        Err(e) => m == Err::<Map<Seq<char>, Value>, Failure>(e@),
    }
}

/// The row that a group of values gives to the columns.
fn operador_to_value(lista: &Vec<Operador>, columnas: &Vec<String>) -> (r: Result<
    Fila,
    ErrorType,
>)
    ensures
        misma_fila(r, fila_de(Token::Group(tokens(lista@)), textos(columnas@))),
{
    if lista.len() != columnas.len() {
        return Err(error_sintaxis("El número de columnas y valores no coincide."));
    }
    let mut fila = Fila::new();
    let mut k: usize = 0;
    while k < lista.len()
        invariant
            k <= lista@.len() == columnas@.len(),
            fila_desde(tokens(lista@), textos(columnas@), 0, Map::empty()) == fila_desde(
                tokens(lista@),
                textos(columnas@),
                k as int,
                fila@,
            ),
        decreases lista@.len() - k,
    {
        let item = operador_to_single_dato(&lista[k])?;
        fila.insert(columnas[k].clone(), item);
        k += 1;
    }
    Ok(fila)
}

/// The rows that the tokens from `desde` to the end write.
fn operador_to_values(ts: &Vec<Operador>, desde: usize, columnas: &Vec<String>) -> (r: Result<
    Vec<Fila>,
    ErrorType,
>)
    requires
        desde <= ts@.len(),
    ensures
        match r {
            Ok(v) => filas_desde(tokens(ts@), desde as int, textos(columnas@), Seq::empty())
                == Ok::<Seq<Map<Seq<char>, Value>>, Failure>(filas(v@)),
            Err(e) => filas_desde(tokens(ts@), desde as int, textos(columnas@), Seq::empty())
                == Err::<Seq<Map<Seq<char>, Value>>, Failure>(e@),
        },
{
    let mut v: Vec<Fila> = Vec::new();
    let mut k: usize = desde;
    assert(filas(v@) =~= Seq::<Map<Seq<char>, Value>>::empty());
    while k < ts.len()
        invariant
            desde <= k <= ts@.len(),
            filas_desde(tokens(ts@), desde as int, textos(columnas@), Seq::empty())
                == filas_desde(tokens(ts@), k as int, textos(columnas@), filas(v@)),
        decreases ts@.len() - k,
    {
        let ghost antes = filas(v@);
        match &ts[k] {
            Operador::Lista(lista) => {
                proof {
                    lema_grupo(ts@[k as int]);
                }
                let fila = operador_to_value(lista, columnas)?;
                let ghost f = fila@;
                v.push(fila);
                assert(filas(v@) =~= antes.push(f));
            },
            _ => {
                return Err(error_sintaxis("Faltan valores en la consulta INSERT."));
            },
        }
        k += 1;
    }
    Ok(v)
}

/// The executable statement agrees with the mathematical one.
pub open spec fn misma_consulta(r: Result<SQLQuery, ErrorType>, m: Result<Statement, Failure>) -> bool {
    match r {
        Ok(q) => m == Ok::<Statement, Failure>(q@),
        Err(e) => m == Err::<Statement, Failure>(e@),
    }
}

/// The statement `INSERT INTO table (columns) ts[4] ts[5] ..`.
fn parser_insert(table: &String, columns: &Vec<Operador>, ts: &Vec<Operador>) -> (r: Result<
    SQLQuery,
    ErrorType,
>)
    requires
        ts@.len() >= 5,
    ensures
        misma_consulta(r, analizar_insert(table@, tokens(columns@), tokens(ts@))),
{
    if !es_clave(&ts[4], "VALUES") {
        return Err(error_sintaxis("Falta 'VALUES' en la consulta INSERT."));
    }
    let columns_parsed = columns_to_string(columns)?;
    if columnas_repetidas(&columns_parsed) {
        return Err(error_columna("Columnas repetidas en INSERT"));
    }
    let values_parsed = operador_to_values(ts, 5, &columns_parsed)?;
    Ok(SQLQuery::Insert(InsertQuery::new(table, columns_parsed, values_parsed)))
}

/// The changes that the tokens from `i` on write, and where they end.
fn changes_rec(ts: &Vec<Operador>, i: usize) -> (r: Result<(Fila, usize), ErrorType>)
    requires
        i <= ts@.len(),
    ensures
        match r {
            Ok((f, j)) => cambios_desde(tokens(ts@), i as int, Map::empty()) == Ok::<
                (Map<Seq<char>, Value>, int),
                Failure,
            >((f@, j as int)) && i <= j <= ts@.len(),
            Err(e) => cambios_desde(tokens(ts@), i as int, Map::empty()) == Err::<
                (Map<Seq<char>, Value>, int),
                Failure,
            >(e@),
        },
{
    let mut cambios = Fila::new();
    let mut k: usize = i;
    loop
        invariant
            i <= k <= ts@.len(),
            cambios_desde(tokens(ts@), i as int, Map::empty()) == cambios_desde(
                tokens(ts@),
                k as int,
                cambios@,
            ),
        decreases ts@.len() - k,
    {
        if k >= ts.len() || es_clave(&ts[k], "WHERE") {
            return Ok((cambios, k));
        }
        if ts.len() - k < 3 {
            return Err(
                error_sintaxis("Error de sintaxis en el seteo de columnas = value en UPDATE "),
            );
        }
        let es_igual: bool = match &ts[k + 1] {
            Operador::Comparador(c) => mismo_texto(c.as_str(), "="),
            _ => false,
        };
        match nombre_de(&ts[k]) {
            Some(columna) if es_igual => {
                let valor = operador_to_dato(&ts[k + 2])?;
                cambios.insert(columna.clone(), valor);
                k += 3;
            },
            _ => {
                return Err(
                    error_sintaxis(
                        "Error de sintaxis en el seteo de columnas = value en UPDATE ",
                    ),
                );
            },
        }
    }
}

/// The statement `UPDATE table ts[2] ..`.
fn parser_update(table: &String, ts: &Vec<Operador>) -> (r: Result<SQLQuery, ErrorType>)
    requires
        ts@.len() >= 2,
    ensures
        misma_consulta(r, analizar_update(table@, tokens(ts@))),
{
    if ts.len() < 3 || !es_clave(&ts[2], "SET") {
        return Err(error_sintaxis("Falta 'SET' en la consulta UPDATE."));
    }
    let (changes, i) = changes_rec(ts, 3)?;
    if changes.is_empty() {
        return Err(error_sintaxis("Faltan columnas y valores en la consulta UPDATE."));
    }
    let (where_condition, j) = where_clause(ts, i)?;
    if j != ts.len() {
        return Err(error_sintaxis("Sintaxis invalida en UPDATE"));
    }
    Ok(SQLQuery::Update(UpdateQuery::new(table.clone(), changes, where_condition)))
}

/// The statement `DELETE FROM table ts[3] ..`.
fn parser_delete(table: &str, ts: &Vec<Operador>) -> (r: Result<SQLQuery, ErrorType>)
    requires
        ts@.len() >= 3,
    ensures
        misma_consulta(r, analizar_delete(table@, tokens(ts@))),
{
    let (where_condition, j) = where_clause(ts, 3)?;
    if j != ts.len() {
        return Err(error_sintaxis("Sintaxis invalida en DELETE"));
    }
    Ok(SQLQuery::Delete(DeleteQuery::new(table, where_condition)))
}

/// The columns that the tokens from `i` on name, up to `FROM`, and the
/// position after that word.
fn columns_select_rec(ts: &Vec<Operador>, i: usize) -> (r: Result<(Vec<String>, usize), ErrorType>)
    requires
        i <= ts@.len(),
    ensures
        match r {
            Ok((v, j)) => columnas_desde(tokens(ts@), i as int, Seq::empty()) == Ok::<
                (Seq<Seq<char>>, int),
                Failure,
            >((textos(v@), j as int)) && i < j <= ts@.len(),
            Err(e) => columnas_desde(tokens(ts@), i as int, Seq::empty()) == Err::<
                (Seq<Seq<char>>, int),
                Failure,
            >(e@),
        },
{
    let mut v: Vec<String> = Vec::new();
    let mut k: usize = i;
    assert(textos(v@) =~= Seq::<Seq<char>>::empty());
    loop
        invariant
            i <= k <= ts@.len(),
            columnas_desde(tokens(ts@), i as int, Seq::empty()) == columnas_desde(
                tokens(ts@),
                k as int,
                textos(v@),
            ),
        decreases ts@.len() - k,
    {
        if k >= ts.len() {
            return Err(error_sintaxis("Se esperaba 'FROM' luego de las columnas en SELECT"));
        }
        if es_clave(&ts[k], "FROM") {
            return Ok((v, k + 1));
        }
        let ghost antes = textos(v@);
        match nombre_de(&ts[k]) {
            Some(s) => {
                v.push(s.clone());
                assert(textos(v@) =~= antes.push(s@));
                k += 1;
            },
            None => {
                return Err(
                    error_sintaxis("Se esperaba 'FROM' luego de las columnas en SELECT"),
                );
            },
        }
    }
}

/// The statement `SELECT ts[1] ..`.
fn parser_select(ts: &Vec<Operador>) -> (r: Result<SQLQuery, ErrorType>)
    requires
        ts@.len() >= 1,
    ensures
        misma_consulta(r, analizar_select(tokens(ts@))),
{
    let (columns, i) = columns_select_rec(ts, 1)?;
    if columns.len() == 0 {
        return Err(error_sintaxis("Sin columnas seleccionadas en SELECT"));
    }
    if i >= ts.len() {
        return Err(error_sintaxis("Se esperaba el nombre de la tabla en SELECT"));
    }
    let table = match nombre_de(&ts[i]) {
        Some(t) => t,
        None => {
            return Err(error_sintaxis("Se esperaba el nombre de la tabla en SELECT"));
        },
    };
    let (where_condition, j) = where_clause(ts, i + 1)?;
    let (orden, k) = order_by(ts, j)?;
    if k != ts.len() {
        return Err(error_sintaxis("Sintaxis invalida en SELECT"));
    }
    Ok(SQLQuery::Select(SelectQuery::new(columns, table.clone(), where_condition, orden)))
}

/// Builds the statement that the tokens write.
///
/// The first words decide the kind: `INSERT INTO`, `UPDATE`, `DELETE FROM` or
/// `SELECT`. Anything that the grammar does not allow is a syntax error, but
/// for a column named twice in an `INSERT`, which is a column error.
pub fn parser(query: &Vec<Operador>) -> (r: Result<SQLQuery, ErrorType>)
    ensures
        misma_consulta(r, analizar(tokens(query@))),
{
    let n: usize = query.len();
    if n >= 5 && es_clave(&query[0], "INSERT") && es_clave(&query[1], "INTO") {
        if let Some(table) = nombre_de(&query[2]) {
            if let Operador::Lista(columns) = &query[3] {
                proof {
                    lema_grupo(query@[3]);
                }
                return parser_insert(table, columns, query);
            }
        }
    }
    if n >= 2 && es_clave(&query[0], "UPDATE") {
        if let Operador::String(table) = &query[1] {
            return parser_update(table, query);
        }
    }
    if n >= 3 && es_clave(&query[0], "DELETE") && es_clave(&query[1], "FROM") {
        if let Some(table) = nombre_de(&query[2]) {
            return parser_delete(table.as_str(), query);
        }
    }
    if n >= 1 && es_clave(&query[0], "SELECT") {
        return parser_select(query);
    }
    Err(error_sintaxis("Query invalida"))
}

} // verus!
