//! Laws of the grammar: what holds of every statement that tokens can write.

use vstd::prelude::*;
use crate::consultas::{OrderDirection, OrderKey, Statement};
use crate::dato::Value;
use crate::gramatica::{
    analizar,
    claves_desde,
    columnas_desde,
    condicion_desde,
    fila_de,
    fila_desde,
    filas_desde,
    nombre,
};
use crate::operador::Token;
use crate::utils::escalar;

verus! {

/// The row has a value for each of the columns and for nothing else.
pub open spec fn cubre(fila: Map<Seq<char>, Value>, columnas: Seq<Seq<char>>) -> bool {
    forall|c: Seq<char>| fila.contains_key(c) <==> columnas.contains(c)
}

/// A statement as the grammar makes them. An `INSERT` names no column twice,
/// and each of its rows has a value for each of its columns and for nothing
/// else. An `UPDATE` changes at least one column. A `SELECT` selects at least
/// one column, and an ordering, where it has one, has at least one clause.
pub open spec fn consulta_bien_formada(s: Statement) -> bool {
    match s {
        Statement::Insert { columns, rows, .. } => columns.no_duplicates() && forall|i: int|
            0 <= i < rows.len() ==> cubre(#[trigger] rows[i], columns),
        Statement::Update { changes, .. } => changes != Map::<Seq<char>, Value>::empty(),
        Statement::Delete { .. } => true,
        Statement::Select { columns, order, .. } => columns.len() > 0 && (order matches Some(ks)
            ==> ks.len() > 0),
    }
}

/// The row that values give to columns has the keys that it had and the
/// columns that were still to come.
proof fn lema_fila_desde(
    g: Seq<Token>,
    columnas: Seq<Seq<char>>,
    k: int,
    acc: Map<Seq<char>, Value>,
)
    requires
        0 <= k <= g.len(),
        g.len() == columnas.len(),
    ensures
        match fila_desde(g, columnas, k, acc) {
            Ok(m) => forall|c: Seq<char>|
                m.contains_key(c) <==> acc.contains_key(c) || exists|j: int|
                    k <= j < columnas.len() && #[trigger] columnas[j] == c,
            Err(_) => true,
        },
    decreases g.len() - k,
{
    if k < g.len() {
        if let Ok(v) = escalar(g[k]) {
            let acc2 = acc.insert(columnas[k], v);
            lema_fila_desde(g, columnas, k + 1, acc2);
            if let Ok(m) = fila_desde(g, columnas, k + 1, acc2) {
                assert forall|c: Seq<char>|
                    m.contains_key(c) <==> acc.contains_key(c) || exists|j: int|
                        k <= j < columnas.len() && #[trigger] columnas[j] == c by {
                    if m.contains_key(c) && !acc.contains_key(c) {
                        if acc2.contains_key(c) {
                            assert(columnas[k] == c);
                        } else {
                            let j = choose|j: int|
                                k + 1 <= j < columnas.len() && #[trigger] columnas[j] == c;
                            assert(k <= j < columnas.len() && columnas[j] == c);
                        }
                    }
                    if exists|j: int| k <= j < columnas.len() && #[trigger] columnas[j] == c {
                        let j = choose|j: int| k <= j < columnas.len() && #[trigger] columnas[j] == c;
                        if j == k {
                            assert(acc2.contains_key(c));
                        } else {
                            assert(k + 1 <= j < columnas.len() && columnas[j] == c);
                        }
                    }
                }
            }
        }
    }
}

/// The rows that tokens write each have a value for each column and for
/// nothing else.
proof fn lema_filas_desde(
    ts: Seq<Token>,
    i: int,
    columnas: Seq<Seq<char>>,
    acc: Seq<Map<Seq<char>, Value>>,
)
    requires
        0 <= i <= ts.len(),
        forall|j: int| 0 <= j < acc.len() ==> cubre(#[trigger] acc[j], columnas),
    ensures
        match filas_desde(ts, i, columnas, acc) {
            Ok(rows) => forall|j: int| 0 <= j < rows.len() ==> cubre(#[trigger] rows[j], columnas),
            Err(_) => true,
        },
    decreases ts.len() - i,
{
    if i < ts.len() {
        if let Ok(f) = fila_de(ts[i], columnas) {
            let g = ts[i]->Group_0;
            lema_fila_desde(g, columnas, 0, Map::empty());
            assert forall|c: Seq<char>| f.contains_key(c) <==> columnas.contains(c) by {
                if columnas.contains(c) {
                    let j = choose|j: int| 0 <= j < columnas.len() && columnas[j] == c;
                    assert(0 <= j < columnas.len() && columnas[j] == c);
                }
            }
            let acc2 = acc.push(f);
            assert forall|j: int| 0 <= j < acc2.len() implies cubre(#[trigger] acc2[j], columnas) by {
                if j < acc.len() {
                    assert(acc2[j] == acc[j]);
                }
            }
            lema_filas_desde(ts, i + 1, columnas, acc2);
        }
    }
}

/// The clauses that tokens write are at least those that were there, and one
/// more where a token was left to read.
proof fn lema_claves_desde(ts: Seq<Token>, i: int, acc: Seq<OrderKey>)
    requires
        0 <= i,
    ensures
        match claves_desde(ts, i, acc) {
            Ok(ks) => ks.len() >= acc.len() && (i < ts.len() ==> ks.len() > acc.len()),
            Err(_) => true,
        },
    decreases ts.len() - i,
{
    if i < ts.len() {
        if nombre(ts[i]) is Some {
            let columna = nombre(ts[i])->0;
            let asc = OrderKey { column: columna, direction: OrderDirection::Asc };
            let desc = OrderKey { column: columna, direction: OrderDirection::Desc };
            if i + 1 < ts.len() {
                lema_claves_desde(ts, i + 2, acc.push(asc));
                lema_claves_desde(ts, i + 2, acc.push(desc));
            }
            lema_claves_desde(ts, i + 1, acc.push(asc));
        }
    }
}

/// Every statement that tokens write is well formed.
pub proof fn ley_consulta_bien_formada(ts: Seq<Token>)
    ensures
        match analizar(ts) {
            Ok(s) => consulta_bien_formada(s),
            Err(_) => true,
        },
{
    if let Ok(s) = analizar(ts) {
        match s {
            Statement::Insert { columns, rows, .. } => {
                lema_filas_desde(ts, 5, columns, Seq::empty());
            },
            Statement::Update { .. } => {},
            Statement::Delete { .. } => {},
            Statement::Select { order, .. } => {
                if let Ok((_, i)) = columnas_desde(ts, 1, Seq::empty()) {
                    if let Ok((_, j)) = condicion_desde(ts, i + 1) {
                        if 0 <= j {
                            lema_claves_desde(ts, j + 2, Seq::empty());
                        }
                    }
                }
            },
        }
    }
}

} // verus!
