//! The grammar of statements, as functions from tokens to the tree they
//! stand for.
//!
//! In a condition `NOT` binds tighter than `AND`, and `AND` tighter than `OR`;
//! `AND` and `OR` group to the left. A comparison is recognized before a group
//! or a `NOT`, so a group of one thing can be the left side of a comparison.

use vstd::prelude::*;
use crate::condicion::BooleanExpr;
use crate::consultas::{OrderDirection, OrderKey, Statement};
use crate::dato::Value;
use crate::errores::Failure;
use crate::operador::Token;
use crate::utils::{comparacion_de, dato_de, escalar, operando};

verus! {

/// The bare word `clave` as a token.
pub open spec fn palabra(clave: &str) -> Token {
    Token::Word(clave@)
}

/// The name that a token gives, where it is a bare word or a quoted text.
pub open spec fn nombre(t: Token) -> Option<Seq<char>> {
    match t {
        Token::Word(s) => Some(s),
        Token::QuotedText(s) => Some(s),
        _ => None,
    }
}

/// The failure of a condition that lacks a comparison where one must stand.
pub open spec fn sintaxis_where() -> Failure {
    Failure::InvalidSyntax("Sintaxis inválida en el WHERE."@)
}

/// The failure of a condition with tokens left after its last comparison.
pub open spec fn operador_logico_invalido() -> Failure {
    Failure::InvalidSyntax("Operador lógico inválido o sintaxis incorrecta."@)
}

/// The failure of a `WHERE` with nothing after it.
pub open spec fn faltan_valores_where() -> Failure {
    Failure::InvalidSyntax("Faltan valores despues del WHERE"@)
}

/// The failure of an `ORDER BY` with nothing after it.
pub open spec fn faltan_valores_order() -> Failure {
    Failure::InvalidSyntax("Faltan valores despues del ORDER BY "@)
}

/// The failure of an ordering with a group or a comparator for a column.
pub open spec fn variables_invalidas_order() -> Failure {
    Failure::InvalidSyntax("Variables invalidas en ORDER BY"@)
}

/// The failure of a column list with a group or a comparator in it.
pub open spec fn columnas_invalidas() -> Failure {
    Failure::InvalidSyntax("Se ingresaron Parentesis o caracteres especiales a las columnas"@)
}

/// The failure of an `INSERT` that names a column twice.
pub open spec fn columnas_repetidas_insert() -> Failure {
    Failure::InvalidColumn("Columnas repetidas en INSERT"@)
}

/// The failure of a group of values that is not as long as the column list.
pub open spec fn cantidad_no_coincide() -> Failure {
    Failure::InvalidSyntax("El número de columnas y valores no coincide."@)
}

/// The failure of a token after `VALUES` that is not a group.
pub open spec fn faltan_valores_insert() -> Failure {
    Failure::InvalidSyntax("Faltan valores en la consulta INSERT."@)
}

/// The failure of an `INSERT` without `VALUES` after its columns.
pub open spec fn falta_values() -> Failure {
    Failure::InvalidSyntax("Falta 'VALUES' en la consulta INSERT."@)
}

/// The failure of an `UPDATE` without `SET` after its table.
pub open spec fn falta_set() -> Failure {
    Failure::InvalidSyntax("Falta 'SET' en la consulta UPDATE."@)
}

/// The failure of a change that is not a column, `=` and a value.
pub open spec fn sintaxis_set() -> Failure {
    Failure::InvalidSyntax("Error de sintaxis en el seteo de columnas = value en UPDATE "@)
}

/// The failure of an `UPDATE` that changes nothing.
pub open spec fn faltan_cambios() -> Failure {
    Failure::InvalidSyntax("Faltan columnas y valores en la consulta UPDATE."@)
}

/// The failure of an `UPDATE` with tokens left after its condition.
pub open spec fn sobra_en_update() -> Failure {
    Failure::InvalidSyntax("Sintaxis invalida en UPDATE"@)
}

/// The failure of a `DELETE` with tokens left after its condition.
pub open spec fn sobra_en_delete() -> Failure {
    Failure::InvalidSyntax("Sintaxis invalida en DELETE"@)
}

/// The failure of a `SELECT` with tokens left after its last clause.
pub open spec fn sobra_en_select() -> Failure {
    Failure::InvalidSyntax("Sintaxis invalida en SELECT"@)
}

/// The failure of a `SELECT` whose columns do not end in `FROM`.
pub open spec fn falta_from() -> Failure {
    Failure::InvalidSyntax("Se esperaba 'FROM' luego de las columnas en SELECT"@)
}

/// The failure of a `SELECT` with `FROM` right after it.
pub open spec fn sin_columnas() -> Failure {
    Failure::InvalidSyntax("Sin columnas seleccionadas en SELECT"@)
}

/// The failure of a `SELECT` without the name of a table after `FROM`.
pub open spec fn falta_tabla() -> Failure {
    Failure::InvalidSyntax("Se esperaba el nombre de la tabla en SELECT"@)
}

/// The failure of tokens that begin none of the four statements.
pub open spec fn query_invalida() -> Failure {
    Failure::InvalidSyntax("Query invalida"@)
}

/// A condition that was read, with the position after it.
pub type Parcial = Result<(BooleanExpr, int), Failure>;

/// The comparison that three tokens write. The left side is looked at first,
/// then the symbol, then the right side.
pub open spec fn comparacion(izq: Token, simbolo: Seq<char>, der: Token) -> Result<
    BooleanExpr,
    Failure,
> {
    match operando(izq) {
        Err(e) => Err(e),
        Ok(l) => match comparacion_de(simbolo) {
            Err(e) => Err(e),
            Ok(op) => match operando(der) {
                Err(e) => Err(e),
                Ok(r) => Ok(BooleanExpr::Comparison { left: l, operator: op, right: r }),
            },
        },
    }
}

/// One comparison, one group or one `NOT` with what it negates, read from
/// position `i` of the tokens before `fin`.
pub open spec fn primario(ts: Seq<Token>, i: int, fin: int) -> Parcial
    decreases ts, fin - i, 0int,
{
    if !(0 <= i < fin <= ts.len()) {
        Err(sintaxis_where())
    } else if i + 2 < fin && ts[i + 1] is Comparator {
        match comparacion(ts[i], ts[i + 1]->Comparator_0, ts[i + 2]) {
            Err(e) => Err(e),
            Ok(c) => Ok((c, i + 3)),
        }
    } else {
        match ts[i] {
            Token::Group(g) => match expresion(g, 0, g.len() as int) {
                Err(e) => Err(e),
                Ok(e) => Ok((e, i + 1)),
            },
            Token::Word(w) => if w == "NOT"@ {
                match primario(ts, i + 1, fin) {
                    Err(e) => Err(e),
                    Ok((e, j)) => Ok((BooleanExpr::Not(Box::new(e)), j)),
                }
            } else {
                Err(sintaxis_where())
            },
            _ => Err(sintaxis_where()),
        }
    }
}

/// The rest of a chain of `AND`, with `izq` for what was read of it so far.
/// The test on `j` only bounds the recursion: what `primario` reads is never
/// empty.
pub open spec fn resto_conjuncion(ts: Seq<Token>, i: int, fin: int, izq: BooleanExpr) -> Parcial
    decreases ts, fin - i, 1int,
{
    if 0 <= i < fin <= ts.len() && ts[i] == palabra("AND") {
        match primario(ts, i + 1, fin) {
            Err(e) => Err(e),
            Ok((d, j)) => if i < j <= fin {
                resto_conjuncion(ts, j, fin, BooleanExpr::And(Box::new(izq), Box::new(d)))
            } else {
                Err(sintaxis_where())
            },
        }
    } else {
        Ok((izq, i))
    }
}

/// A chain of one or more primaries joined by `AND`.
pub open spec fn conjuncion(ts: Seq<Token>, i: int, fin: int) -> Parcial
    decreases ts, fin - i, 2int,
{
    match primario(ts, i, fin) {
        Err(e) => Err(e),
        Ok((e, j)) => if i < j <= fin {
            resto_conjuncion(ts, j, fin, e)
        } else {
            Err(sintaxis_where())
        },
    }
}

/// The rest of a chain of `OR`, with `izq` for what was read of it so far.
pub open spec fn resto_disyuncion(ts: Seq<Token>, i: int, fin: int, izq: BooleanExpr) -> Parcial
    decreases ts, fin - i, 3int,
{
    if 0 <= i < fin <= ts.len() && ts[i] == palabra("OR") {
        match conjuncion(ts, i + 1, fin) {
            Err(e) => Err(e),
            Ok((d, j)) => if i < j <= fin {
                resto_disyuncion(ts, j, fin, BooleanExpr::Or(Box::new(izq), Box::new(d)))
            } else {
                Err(sintaxis_where())
            },
        }
    } else {
        Ok((izq, i))
    }
}

/// A chain of one or more conjunctions joined by `OR`.
pub open spec fn disyuncion(ts: Seq<Token>, i: int, fin: int) -> Parcial
    decreases ts, fin - i, 4int,
{
    match conjuncion(ts, i, fin) {
        Err(e) => Err(e),
        Ok((e, j)) => if i < j <= fin {
            resto_disyuncion(ts, j, fin, e)
        } else {
            Err(sintaxis_where())
        },
    }
}

/// The condition that the tokens from `i` up to `fin` write, all of them.
pub open spec fn expresion(ts: Seq<Token>, i: int, fin: int) -> Result<BooleanExpr, Failure>
    decreases ts, fin - i, 5int,
{
    match disyuncion(ts, i, fin) {
        Err(e) => Err(e),
        Ok((e, j)) => if j == fin {
            Ok(e)
        } else {
            Err(operador_logico_invalido())
        },
    }
}

/// The number of tokens from position `i` on that stand before the next bare
/// word `ORDER`, or before the end.
pub open spec fn largo_condicion(ts: Seq<Token>, i: int) -> nat
    decreases ts.len() - i,
{
    if i < 0 || i >= ts.len() || ts[i] == palabra("ORDER") {
        0
    } else {
        1 + largo_condicion(ts, i + 1)
    }
}

/// The condition that starts at position `i`, if `WHERE` stands there, and the
/// position after it. The condition runs up to the bare word `ORDER` or to the
/// end.
pub open spec fn condicion_desde(ts: Seq<Token>, i: int) -> Result<
    (Option<BooleanExpr>, int),
    Failure,
> {
    if 0 <= i < ts.len() && ts[i] == palabra("WHERE") {
        if i + 1 >= ts.len() {
            Err(faltan_valores_where())
        } else {
            let fin = i + 1 + largo_condicion(ts, i + 1);
            match expresion(ts, i + 1, fin) {
                Err(e) => Err(e),
                Ok(e) => Ok((Some(e), fin)),
            }
        }
    } else {
        Ok((None, i))
    }
}

/// The keys that the tokens from `i` to the end write, after those in `acc`.
/// A column may be followed by `ASC` or `DESC`; without either it is ascending.
pub open spec fn claves_desde(ts: Seq<Token>, i: int, acc: Seq<OrderKey>) -> Result<
    Seq<OrderKey>,
    Failure,
>
    decreases ts.len() - i,
{
    if i < 0 || i >= ts.len() {
        Ok(acc)
    } else if nombre(ts[i]) is None {
        Err(variables_invalidas_order())
    } else if i + 1 < ts.len() && ts[i + 1] == palabra("ASC") {
        claves_desde(
            ts,
            i + 2,
            acc.push(OrderKey { column: nombre(ts[i])->0, direction: OrderDirection::Asc }),
        )
    } else if i + 1 < ts.len() && ts[i + 1] == palabra("DESC") {
        claves_desde(
            ts,
            i + 2,
            acc.push(OrderKey { column: nombre(ts[i])->0, direction: OrderDirection::Desc }),
        )
    } else {
        claves_desde(
            ts,
            i + 1,
            acc.push(OrderKey { column: nombre(ts[i])->0, direction: OrderDirection::Asc }),
        )
    }
}

/// The ordering that starts at position `i`, if `ORDER BY` stands there. It
/// takes all the tokens that are left.
pub open spec fn orden_desde(ts: Seq<Token>, i: int) -> Result<
    (Option<Seq<OrderKey>>, int),
    Failure,
> {
    if 0 <= i && i + 1 < ts.len() && ts[i] == palabra("ORDER") && ts[i + 1] == palabra("BY") {
        if i + 2 >= ts.len() {
            Err(faltan_valores_order())
        } else {
            match claves_desde(ts, i + 2, Seq::empty()) {
                Err(e) => Err(e),
                Ok(ks) => Ok((Some(ks), ts.len() as int)),
            }
        }
    } else {
        Ok((None, i))
    }
}

/// The names that a list of tokens gives, all of which must be bare words or
/// quoted texts.
pub open spec fn nombres(cols: Seq<Token>) -> Result<Seq<Seq<char>>, Failure> {
    if forall|i: int| 0 <= i < cols.len() ==> nombre(#[trigger] cols[i]) is Some {
        Ok(Seq::new(cols.len(), |i: int| nombre(cols[i])->0))
    } else {
        Err(columnas_invalidas())
    }
}

/// The row that the values of a group give to the columns, from the `k`-th on,
/// added to `acc`.
pub open spec fn fila_desde(
    g: Seq<Token>,
    columnas: Seq<Seq<char>>,
    k: int,
    acc: Map<Seq<char>, Value>,
) -> Result<Map<Seq<char>, Value>, Failure>
    decreases g.len() - k,
{
    if k < 0 || k >= g.len() || k >= columnas.len() {
        Ok(acc)
    } else {
        match escalar(g[k]) {
            Err(e) => Err(e),
            Ok(v) => fila_desde(g, columnas, k + 1, acc.insert(columnas[k], v)),
        }
    }
}

/// The row that one token after `VALUES` writes: a group with one value for
/// each column.
pub open spec fn fila_de(t: Token, columnas: Seq<Seq<char>>) -> Result<
    Map<Seq<char>, Value>,
    Failure,
> {
    match t {
        Token::Group(g) => if g.len() != columnas.len() {
            Err(cantidad_no_coincide())
        } else {
            fila_desde(g, columnas, 0, Map::empty())
        },
        _ => Err(faltan_valores_insert()),
    }
}

/// The rows that the tokens from `i` to the end write, after those in `acc`.
pub open spec fn filas_desde(
    ts: Seq<Token>,
    i: int,
    columnas: Seq<Seq<char>>,
    acc: Seq<Map<Seq<char>, Value>>,
) -> Result<Seq<Map<Seq<char>, Value>>, Failure>
    decreases ts.len() - i,
{
    if i < 0 || i >= ts.len() {
        Ok(acc)
    } else {
        match fila_de(ts[i], columnas) {
            Err(e) => Err(e),
            Ok(f) => filas_desde(ts, i + 1, columnas, acc.push(f)),
        }
    }
}

/// The statement `INSERT INTO tabla (cols) ts[4] ts[5] ..`, where `ts[4]` must
/// be `VALUES`.
pub open spec fn analizar_insert(tabla: Seq<char>, cols: Seq<Token>, ts: Seq<Token>) -> Result<
    Statement,
    Failure,
> {
    if ts[4] != palabra("VALUES") {
        Err(falta_values())
    } else {
        match nombres(cols) {
            Err(e) => Err(e),
            Ok(columnas) => if !columnas.no_duplicates() {
                Err(columnas_repetidas_insert())
            } else {
                match filas_desde(ts, 5, columnas, Seq::empty()) {
                    Err(e) => Err(e),
                    Ok(rows) => Ok(Statement::Insert { table: tabla, columns: columnas, rows }),
                }
            },
        }
    }
}

/// The changes that the tokens from `i` on write, added to `acc`, and the
/// position at which they end: the end of the tokens or the bare word `WHERE`.
/// Of two changes to one column the later one stays.
pub open spec fn cambios_desde(ts: Seq<Token>, i: int, acc: Map<Seq<char>, Value>) -> Result<
    (Map<Seq<char>, Value>, int),
    Failure,
>
    decreases ts.len() - i,
{
    if i < 0 || i >= ts.len() {
        Ok((acc, i))
    } else if ts[i] == palabra("WHERE") {
        Ok((acc, i))
    } else if i + 2 < ts.len() && nombre(ts[i]) is Some && ts[i + 1] == Token::Comparator("="@) {
        match dato_de(ts[i + 2]) {
            Err(e) => Err(e),
            Ok(v) => cambios_desde(ts, i + 3, acc.insert(nombre(ts[i])->0, v)),
        }
    } else {
        Err(sintaxis_set())
    }
}

/// The statement `UPDATE tabla ts[2] ..`, where `ts[2]` must be `SET`.
pub open spec fn analizar_update(tabla: Seq<char>, ts: Seq<Token>) -> Result<Statement, Failure> {
    if ts.len() < 3 || ts[2] != palabra("SET") {
        Err(falta_set())
    } else {
        match cambios_desde(ts, 3, Map::empty()) {
            Err(e) => Err(e),
            Ok((cambios, i)) => if cambios == Map::<Seq<char>, Value>::empty() {
                Err(faltan_cambios())
            } else {
                match condicion_desde(ts, i) {
                    Err(e) => Err(e),
                    Ok((condicion, j)) => if j != ts.len() {
                        Err(sobra_en_update())
                    } else {
                        Ok(Statement::Update { table: tabla, changes: cambios, condition: condicion })
                    },
                }
            },
        }
    }
}

/// The statement `DELETE FROM tabla ts[3] ..`.
pub open spec fn analizar_delete(tabla: Seq<char>, ts: Seq<Token>) -> Result<Statement, Failure> {
    match condicion_desde(ts, 3) {
        Err(e) => Err(e),
        Ok((condicion, j)) => if j != ts.len() {
            Err(sobra_en_delete())
        } else {
            Ok(Statement::Delete { table: tabla, condition: condicion })
        },
    }
}

/// The columns that the tokens from `i` on name, after those in `acc`, up to
/// the bare word `FROM`, and the position after that word.
pub open spec fn columnas_desde(ts: Seq<Token>, i: int, acc: Seq<Seq<char>>) -> Result<
    (Seq<Seq<char>>, int),
    Failure,
>
    decreases ts.len() - i,
{
    if i < 0 || i >= ts.len() {
        Err(falta_from())
    } else if ts[i] == palabra("FROM") {
        Ok((acc, i + 1))
    } else if nombre(ts[i]) is Some {
        columnas_desde(ts, i + 1, acc.push(nombre(ts[i])->0))
    } else {
        Err(falta_from())
    }
}

/// The statement `SELECT ts[1] ..`.
pub open spec fn analizar_select(ts: Seq<Token>) -> Result<Statement, Failure> {
    match columnas_desde(ts, 1, Seq::empty()) {
        Err(e) => Err(e),
        Ok((columnas, i)) => if columnas.len() == 0 {
            Err(sin_columnas())
        } else if i >= ts.len() || nombre(ts[i]) is None {
            Err(falta_tabla())
        } else {
            match condicion_desde(ts, i + 1) {
                Err(e) => Err(e),
                Ok((condicion, j)) => match orden_desde(ts, j) {
                    Err(e) => Err(e),
                    Ok((orden, k)) => if k != ts.len() {
                        Err(sobra_en_select())
                    } else {
                        Ok(
                            Statement::Select {
                                columns: columnas,
                                table: nombre(ts[i])->0,
                                condition: condicion,
                                order: orden,
                            },
                        )
                    },
                },
            }
        },
    }
}

/// The statement that the tokens write, or the reason why they write none.
pub open spec fn analizar(ts: Seq<Token>) -> Result<Statement, Failure> {
    if ts.len() >= 5 && ts[0] == palabra("INSERT") && ts[1] == palabra("INTO") && nombre(ts[2])
        is Some && ts[3] is Group {
        analizar_insert(nombre(ts[2])->0, ts[3]->Group_0, ts)
    } else if ts.len() >= 2 && ts[0] == palabra("UPDATE") && ts[1] is Word {
        analizar_update(ts[1]->Word_0, ts)
    } else if ts.len() >= 3 && ts[0] == palabra("DELETE") && ts[1] == palabra("FROM") && nombre(
        ts[2],
    ) is Some {
        analizar_delete(nombre(ts[2])->0, ts)
    } else if ts.len() >= 1 && ts[0] == palabra("SELECT") {
        analizar_select(ts)
    } else {
        Err(query_invalida())
    }
}

} // verus!
