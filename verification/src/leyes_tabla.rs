//! Laws of the statements: what an update leaves alone, what is left after a
//! delete, and that a select changes nothing.

use vstd::prelude::*;
use crate::campos::{campos_limpios, unir};
use crate::condicion::BooleanExpr;
use crate::consultas::{OrderKey, Statement};
use crate::dato::Value;
use crate::errores::Failure;
use crate::executer::{
    actualizadas,
    columnas_de,
    con_resultado,
    cumple,
    efecto_de,
    filas_de,
    filtradas,
    linea_nueva,
    mostrar_desde,
    primer_fallo,
    sanas,
    seleccion,
    Effect,
};
use crate::manejo_csv::{
    campos_cambiados,
    decodificar,
    proyeccion,
    reordenar,
    validas,
};
use crate::utils::texto_de_valor;

verus! {

/// The condition fails on no row that stands before the first failure.
pub proof fn lema_sanas(
    fs: Seq<Seq<char>>,
    columnas: Seq<Seq<char>>,
    cond: Option<BooleanExpr>,
    i: int,
    j: int,
)
    requires
        0 <= i <= j < i + sanas(fs, columnas, cond, i),
    ensures
        j < fs.len(),
        cumple(fs[j], columnas, cond) is Ok,
    decreases j - i,
{
    if i < j {
        lema_sanas(fs, columnas, cond, i + 1, j);
    }
}

/// Where the condition fails on no row from the `i`-th on, there is no first
/// failure.
pub proof fn lema_todas_sanas(
    fs: Seq<Seq<char>>,
    columnas: Seq<Seq<char>>,
    cond: Option<BooleanExpr>,
    i: int,
)
    requires
        0 <= i <= fs.len(),
        forall|j: int| i <= j < fs.len() ==> cumple(#[trigger] fs[j], columnas, cond) is Ok,
    ensures
        i + sanas(fs, columnas, cond, i) == fs.len(),
    decreases fs.len() - i,
{
    if i < fs.len() {
        lema_todas_sanas(fs, columnas, cond, i + 1);
    }
}

/// An update keeps the number of lines and the line of the column names. A
/// row that does not meet the condition stays as it was. A row that meets it
/// keeps, trimmed, the fields of the columns that have no change, and takes
/// the text of the new value in the others.
pub proof fn ley_update(
    tabla: Seq<Seq<char>>,
    nombre: Seq<char>,
    cambios: Map<Seq<char>, Value>,
    cond: Option<BooleanExpr>,
    i: int,
)
    requires
        efecto_de(
            Statement::Update { table: nombre, changes: cambios, condition: cond },
            tabla,
        ) is Ok,
        1 <= i < tabla.len(),
    ensures
        ({
            let efecto = efecto_de(
                Statement::Update { table: nombre, changes: cambios, condition: cond },
                tabla,
            )->Ok_0;
            let columnas = columnas_de(tabla);
            let antes = campos_limpios(tabla[i]);
            &&& efecto is Table
            &&& efecto->Table_0.len() == tabla.len()
            &&& efecto->Table_0[0] == tabla[0]
            &&& cumple(tabla[i], columnas, cond) is Ok
            &&& cumple(tabla[i], columnas, cond) == Ok::<bool, Failure>(false)
                ==> efecto->Table_0[i] == tabla[i]
            &&& cumple(tabla[i], columnas, cond) == Ok::<bool, Failure>(true) ==> {
                let despues = campos_cambiados(antes, cambios, columnas);
                &&& efecto->Table_0[i] == unir(despues)
                &&& despues.len() == columnas.len()
                &&& forall|j: int|
                    0 <= j < columnas.len() ==> #[trigger] despues[j] == (if cambios.contains_key(
                        columnas[j],
                    ) {
                        texto_de_valor(cambios[columnas[j]])
                    } else {
                        antes[j]
                    })
            }
        }),
{
    let columnas = columnas_de(tabla);
    let fs = filas_de(tabla);
    assert(primer_fallo(fs, columnas, cond) is None);
    lema_sanas(fs, columnas, cond, 0, i - 1);
    assert(fs[i - 1] == tabla[i]);
    let nuevas = actualizadas(fs, columnas, cambios, cond)->Ok_0;
    assert(nuevas[i - 1] == linea_nueva(fs[i - 1], columnas, cambios, cond));
    let despues = seq![tabla[0]] + nuevas;
    assert(despues[i] == nuevas[i - 1]);
}

/// Rows that all meet a condition are all chosen by it.
proof fn lema_filtro_completo(fs: Seq<Seq<char>>, p: spec_fn(Seq<char>) -> bool)
    requires
        forall|i: int| 0 <= i < fs.len() ==> p(#[trigger] fs[i]),
    ensures
        fs.filter(p) == fs,
    decreases fs.len(),
{
    reveal(Seq::filter);
    if fs.len() > 0 {
        let antes = fs.drop_last();
        assert forall|i: int| 0 <= i < antes.len() implies p(#[trigger] antes[i]) by {
            assert(antes[i] == fs[i]);
        }
        lema_filtro_completo(antes, p);
        assert(p(fs[fs.len() - 1]));
        assert(antes.push(fs.last()) =~= fs);
    }
}

/// Every position of a line is one that the line has a field for.
proof fn lema_todas_validas(n: int, k: int)
    requires
        0 <= k <= n,
    ensures
        k + validas(Seq::new(n as nat, |i: int| i), n, k) == n,
    decreases n - k,
{
    if k < n {
        lema_todas_validas(n, k + 1);
    }
}

/// The lines shown for rows that all have one field for each column, with
/// every column selected: each row with its fields trimmed.
proof fn lema_mostrar_todo(fs: Seq<Seq<char>>, n: int, i: int, acc: Seq<Seq<char>>)
    requires
        0 <= i <= fs.len(),
        0 <= n,
        forall|j: int| 0 <= j < fs.len() ==> campos_limpios(#[trigger] fs[j]).len() == n,
    ensures
        mostrar_desde(fs, Seq::new(n as nat, |k: int| k), i, acc) == Ok::<
            Seq<Seq<char>>,
            Failure,
        >(acc + Seq::new((fs.len() - i) as nat, |j: int| unir(campos_limpios(fs[i + j])))),
    decreases fs.len() - i,
{
    let pos = Seq::new(n as nat, |k: int| k);
    if i >= fs.len() {
        assert(acc + Seq::new(0nat, |j: int| unir(campos_limpios(fs[i + j]))) =~= acc);
    } else {
        let campos = campos_limpios(fs[i]);
        lema_todas_validas(n, 0);
        assert(Seq::new(pos.len(), |k: int| campos[pos[k]]) =~= campos);
        assert(reordenar(fs[i], pos) == Ok::<Seq<char>, Failure>(unir(campos)));
        lema_mostrar_todo(fs, n, i + 1, acc.push(unir(campos)));
        assert(acc.push(unir(campos)) + Seq::new(
            (fs.len() - (i + 1)) as nat,
            |j: int| unir(campos_limpios(fs[i + 1 + j])),
        ) =~= acc + Seq::new((fs.len() - i) as nat, |j: int| unir(campos_limpios(fs[i + j]))));
    }
}

/// The lines that show a whole table: the names of its columns joined by
/// commas, then each row with its fields trimmed.
pub open spec fn tabla_mostrada(tabla: Seq<Seq<char>>) -> Seq<Seq<char>> {
    seq![unir(columnas_de(tabla))] + Seq::new(
        filas_de(tabla).len(),
        |j: int| unir(campos_limpios(filas_de(tabla)[j])),
    )
}

/// `SELECT * FROM t`, without a condition and without an ordering, shows the
/// whole table, when each row has one field for each column.
pub proof fn ley_select_todo(tabla: Seq<Seq<char>>, nombre: Seq<char>)
    requires
        tabla.len() >= 1,
        forall|j: int|
            1 <= j < tabla.len() ==> campos_limpios(#[trigger] tabla[j]).len() == columnas_de(
                tabla,
            ).len(),
    ensures
        efecto_de(
            Statement::Select { columns: seq!["*"@], table: nombre, condition: None, order: None },
            tabla,
        ) == Ok::<Effect, Failure>(Effect::Output(tabla_mostrada(tabla))),
{
    let columnas = columnas_de(tabla);
    let fs = filas_de(tabla);
    let todo = con_resultado(columnas, None, true);
    assert forall|j: int| 0 <= j < fs.len() implies cumple(#[trigger] fs[j], columnas, None) is Ok
        && todo(fs[j]) && campos_limpios(fs[j]).len() == columnas.len() by {
        assert(fs[j] == tabla[j + 1]);
        assert(decodificar(fs[j], columnas) is Ok);
    }
    lema_todas_sanas(fs, columnas, None, 0);
    lema_filtro_completo(fs, todo);
    assert(filtradas(fs, columnas, None, true) == Ok::<Seq<Seq<char>>, Failure>(fs));
    let sel = seq!["*"@];
    let pos = Seq::new(columnas.len(), |i: int| i);
    assert(proyeccion(sel, columnas) == Ok::<(Seq<char>, Seq<int>), Failure>(
        (unir(columnas), pos),
    ));
    lema_mostrar_todo(fs, columnas.len() as int, 0, seq![unir(columnas)]);
    assert(Seq::new((fs.len() - 0) as nat, |j: int| unir(campos_limpios(fs[0 + j]))) =~= Seq::new(
        fs.len(),
        |j: int| unir(campos_limpios(fs[j])),
    ));
    assert(seleccion(tabla, sel, None, None) == Ok::<Seq<Seq<char>>, Failure>(
        tabla_mostrada(tabla),
    ));
}

/// After `DELETE FROM t WHERE c`, `SELECT * FROM t` shows the names of the
/// columns and then, in their order and with their fields trimmed, exactly the
/// rows that the table had on which `c` was false.
pub proof fn ley_delete_select(tabla: Seq<Seq<char>>, nombre: Seq<char>, cond: Option<BooleanExpr>)
    requires
        efecto_de(Statement::Delete { table: nombre, condition: cond }, tabla) is Ok,
    ensures
        ({
            let efecto = efecto_de(Statement::Delete { table: nombre, condition: cond }, tabla)->Ok_0;
            let columnas = columnas_de(tabla);
            let quedan = filas_de(tabla).filter(con_resultado(columnas, cond, false));
            &&& efecto is Table
            &&& efecto_de(
                Statement::Select {
                    columns: seq!["*"@],
                    table: nombre,
                    condition: None,
                    order: None,
                },
                efecto->Table_0,
            ) == Ok::<Effect, Failure>(
                Effect::Output(
                    seq![unir(columnas)] + Seq::new(
                        quedan.len(),
                        |j: int| unir(campos_limpios(quedan[j])),
                    ),
                ),
            )
        }),
{
    let columnas = columnas_de(tabla);
    let p = con_resultado(columnas, cond, false);
    let quedan = filas_de(tabla).filter(p);
    let t2 = seq![tabla[0]] + quedan;
    assert(efecto_de(Statement::Delete { table: nombre, condition: cond }, tabla)->Ok_0
        == Effect::Table(t2));
    assert(columnas_de(t2) == columnas);
    assert(filas_de(t2) =~= quedan);
    assert forall|j: int| 1 <= j < t2.len() implies campos_limpios(#[trigger] t2[j]).len()
        == columnas.len() by {
        assert(t2[j] == quedan[j - 1]);
        filas_de(tabla).lemma_filter_pred(p, j - 1);
        assert(p(quedan[j - 1]));
        assert(decodificar(quedan[j - 1], columnas) is Ok);
    }
    ley_select_todo(t2, nombre);
    assert(tabla_mostrada(t2) =~= seq![unir(columnas)] + Seq::new(
        quedan.len(),
        |j: int| unir(campos_limpios(quedan[j])),
    ));
}

/// A `SELECT` only shows: where it succeeds it gives lines to show and never
/// new lines for the table. What it shows depends on the statement and on the
/// lines of the table alone, so asking again shows the same.
pub proof fn ley_select_no_cambia(
    tabla: Seq<Seq<char>>,
    nombre: Seq<char>,
    sel: Seq<Seq<char>>,
    cond: Option<BooleanExpr>,
    orden: Option<Seq<OrderKey>>,
)
    ensures
        match efecto_de(
            Statement::Select { columns: sel, table: nombre, condition: cond, order: orden },
            tabla,
        ) {
            Ok(e) => e is Output,
            Err(_) => true,
        },
{
}

} // verus!
