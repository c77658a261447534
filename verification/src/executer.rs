//! Running a statement against the lines of a table.
//!
//! A table is a list of lines: the first holds the names of the columns, each
//! other line is a row. A statement either gives the table new lines or gives
//! lines to show; it never does both.

use vstd::prelude::*;
use crate::campos::{campos_limpios, textos};
use crate::condicion::{mismo_resultado, BooleanExpr, ExpresionBooleana};
use crate::consultas::{
    condicion_de,
    filas,
    DeleteQuery,
    InsertQuery,
    SQLQuery,
    SelectQuery,
    Statement,
    UpdateQuery,
};
use crate::dato::{Fila, Value};
use crate::errores::{ErrorType, Failure};
use crate::gramatica::analizar;
use crate::lexer::{lexer, tokenizar};
use crate::parser::parser;
use crate::manejo_csv::{
    codificar,
    condicion_en,
    datos_to_row,
    decodificar,
    filtrar_columnas,
    indices,
    listar_columnas,
    modificar,
    modificar_linea,
    ordenar_linea,
    proyeccion,
    reordenar,
    string_to_columns,
    where_condition,
};
use crate::orden::{mismas_lineas, ordenar, ordenar_archivo};

verus! {

/// What a statement asks of the one who holds the table.
#[derive(Debug, PartialEq)]
pub enum Resultado {
    /// The table has these lines from now on.
    Tabla(Vec<String>),
    /// These lines are to be shown; the table stays as it is.
    Salida(Vec<String>),
}

/// The mathematical value of a [`Resultado`].
pub enum Effect {
    Table(Seq<Seq<char>>),
    Output(Seq<Seq<char>>),
}

impl View for Resultado {
    type V = Effect;

    open spec fn view(&self) -> Effect {
        match self {
            Resultado::Tabla(v) => Effect::Table(textos(v@)),
            Resultado::Salida(v) => Effect::Output(textos(v@)),
        }
    }
}

/// The failure of a table that lacks even the line of the column names.
pub open spec fn tabla_vacia() -> Failure {
    Failure::InvalidTable("El archivo está vacío"@)
}

/// The names of the columns of a table.
pub open spec fn columnas_de(tabla: Seq<Seq<char>>) -> Seq<Seq<char>> {
    campos_limpios(tabla[0])
}

/// The rows of a table: its lines but the first.
pub open spec fn filas_de(tabla: Seq<Seq<char>>) -> Seq<Seq<char>> {
    tabla.subrange(1, tabla.len() as int)
}

/// Whether a row, given as a line, meets a condition. The line is read as a
/// row even where there is no condition to test.
pub open spec fn cumple(linea: Seq<char>, columnas: Seq<Seq<char>>, cond: Option<BooleanExpr>) -> Result<
    bool,
    Failure,
> {
    match decodificar(linea, columnas) {
        Err(e) => Err(e),
        Ok(f) => condicion_en(cond, f),
    }
}

/// The number of rows from the `i`-th on that stand before the first one on
/// which the condition fails, or before the end.
pub open spec fn sanas(
    fs: Seq<Seq<char>>,
    columnas: Seq<Seq<char>>,
    cond: Option<BooleanExpr>,
    i: int,
) -> nat
    decreases fs.len() - i,
{
    if i < 0 || i >= fs.len() || cumple(fs[i], columnas, cond) is Err {
        0
    } else {
        1 + sanas(fs, columnas, cond, i + 1)
    }
}

/// The failure of the first row on which the condition fails, if there is one.
pub open spec fn primer_fallo(fs: Seq<Seq<char>>, columnas: Seq<Seq<char>>, cond: Option<BooleanExpr>) -> Option<
    Failure,
> {
    let k = sanas(fs, columnas, cond, 0) as int;
    if k < fs.len() {
        Some(cumple(fs[k], columnas, cond)->Err_0)
    } else {
        None
    }
}

/// The rows on which the condition is worth `b`.
pub open spec fn con_resultado(columnas: Seq<Seq<char>>, cond: Option<BooleanExpr>, b: bool) -> spec_fn(
    Seq<char>,
) -> bool {
    |l: Seq<char>| cumple(l, columnas, cond) == Ok::<bool, Failure>(b)
}

/// The rows on which the condition is worth `b`, in their order; the failure
/// of the first row on which it fails, if there is one.
pub open spec fn filtradas(
    fs: Seq<Seq<char>>,
    columnas: Seq<Seq<char>>,
    cond: Option<BooleanExpr>,
    b: bool,
) -> Result<Seq<Seq<char>>, Failure> {
    match primer_fallo(fs, columnas, cond) {
        Some(e) => Err(e),
        None => Ok(fs.filter(con_resultado(columnas, cond, b))),
    }
}

/// A row after an update: changed where it meets the condition, as it was
/// where it does not.
pub open spec fn linea_nueva(
    l: Seq<char>,
    columnas: Seq<Seq<char>>,
    cambios: Map<Seq<char>, Value>,
    cond: Option<BooleanExpr>,
) -> Seq<char> {
    if cumple(l, columnas, cond) == Ok::<bool, Failure>(true) {
        match modificar(l, cambios, columnas) {
            Ok(n) => n,
            Err(_) => l,
        }
    } else {
        l
    }
}

/// The rows after an update, each in its place; the failure of the first row
/// on which the condition fails, if there is one.
pub open spec fn actualizadas(
    fs: Seq<Seq<char>>,
    columnas: Seq<Seq<char>>,
    cambios: Map<Seq<char>, Value>,
    cond: Option<BooleanExpr>,
) -> Result<Seq<Seq<char>>, Failure> {
    match primer_fallo(fs, columnas, cond) {
        Some(e) => Err(e),
        None => Ok(Seq::new(fs.len(), |i: int| linea_nueva(fs[i], columnas, cambios, cond))),
    }
}

/// The lines that write the new rows, for a table with these columns.
pub open spec fn agregadas(nuevas: Seq<Map<Seq<char>, Value>>, columnas: Seq<Seq<char>>) -> Seq<
    Seq<char>,
> {
    Seq::new(nuevas.len(), |i: int| codificar(nuevas[i], columnas))
}

/// The lines to show for the rows from the `i`-th on, after those in `acc`:
/// of each row the fields at the positions `pos`.
pub open spec fn mostrar_desde(fs: Seq<Seq<char>>, pos: Seq<int>, i: int, acc: Seq<Seq<char>>) -> Result<
    Seq<Seq<char>>,
    Failure,
>
    decreases fs.len() - i,
{
    if i < 0 || i >= fs.len() {
        Ok(acc)
    } else {
        match reordenar(fs[i], pos) {
            Err(e) => Err(e),
            Ok(l) => mostrar_desde(fs, pos, i + 1, acc.push(l)),
        }
    }
}

/// The lines that a `SELECT` shows: the heading, then the chosen rows in the
/// order asked for, cut down to the selected columns. The rows are chosen
/// first and put in order next; the selected columns are looked up last.
pub open spec fn seleccion(
    tabla: Seq<Seq<char>>,
    sel: Seq<Seq<char>>,
    cond: Option<BooleanExpr>,
    orden: Option<Seq<crate::consultas::OrderKey>>,
) -> Result<Seq<Seq<char>>, Failure> {
    let columnas = columnas_de(tabla);
    match filtradas(filas_de(tabla), columnas, cond, true) {
        Err(e) => Err(e),
        Ok(elegidas) => match ordenar(elegidas, orden, columnas) {
            Err(e) => Err(e),
            Ok(ordenadas) => match proyeccion(sel, columnas) {
                Err(e) => Err(e),
                Ok((encabezado, pos)) => mostrar_desde(ordenadas, pos, 0, seq![encabezado]),
            },
        },
    }
}

/// What a statement does to a table. A table without a first line is no
/// table. `INSERT` adds the new rows after the old ones, which it does not
/// read. `DELETE` keeps the rows on which the condition is false. `UPDATE`
/// rewrites the rows on which it is true. `SELECT` shows rows and leaves the
/// table alone.
pub open spec fn efecto_de(s: Statement, tabla: Seq<Seq<char>>) -> Result<Effect, Failure> {
    if tabla.len() == 0 {
        Err(tabla_vacia())
    } else {
        let columnas = columnas_de(tabla);
        match s {
            Statement::Insert { rows, .. } => Ok(Effect::Table(tabla + agregadas(rows, columnas))),
            Statement::Delete { condition, .. } => match filtradas(
                filas_de(tabla),
                columnas,
                condition,
                false,
            ) {
                Err(e) => Err(e),
                Ok(quedan) => Ok(Effect::Table(seq![tabla[0]] + quedan)),
            },
            Statement::Update { changes, condition, .. } => match actualizadas(
                filas_de(tabla),
                columnas,
                changes,
                condition,
            ) {
                Err(e) => Err(e),
                Ok(nuevas) => Ok(Effect::Table(seq![tabla[0]] + nuevas)),
            },
            Statement::Select { columns, condition, order, .. } => match seleccion(
                tabla,
                columns,
                condition,
                order,
            ) {
                Err(e) => Err(e),
                Ok(salida) => Ok(Effect::Output(salida)),
            },
        }
    }
}

/// The executable effect agrees with the mathematical one.
pub open spec fn mismo_efecto(r: Result<Resultado, ErrorType>, m: Result<Effect, Failure>) -> bool {
    match r {
        Ok(x) => m == Ok::<Effect, Failure>(x@),
        Err(e) => m == Err::<Effect, Failure>(e@),
    }
}

/// Tells whether the row that a line holds meets the condition.
///
/// Fails with a column error where the line does not have one field for each
/// column, and with a syntax error where the condition names something that
/// is neither a column nor a number.
pub fn fila_cumple(linea: &str, columnas: &[String], cond: &Option<ExpresionBooleana>) -> (r: Result<
    bool,
    ErrorType,
>)
    ensures
        mismo_resultado(r, cumple(linea@, textos(columnas@), condicion_de(*cond))),
{
    let fila = string_to_columns(linea, columnas)?;
    where_condition(cond, &fila)
}

/// The rows of the table on which the condition is worth `conservar`.
pub fn filtrar_filas(
    tabla: &Vec<String>,
    columnas: &[String],
    cond: &Option<ExpresionBooleana>,
    conservar: bool,
) -> (r: Result<Vec<String>, ErrorType>)
    requires
        tabla@.len() >= 1,
    ensures
        mismas_lineas(
            r,
            filtradas(
                filas_de(textos(tabla@)),
                textos(columnas@),
                condicion_de(*cond),
                conservar,
            ),
        ),
{
    let ghost fs = filas_de(textos(tabla@));
    let ghost cols = textos(columnas@);
    let ghost c = condicion_de(*cond);
    let ghost p = con_resultado(cols, c, conservar);
    let mut salida: Vec<String> = Vec::new();
    let mut i: usize = 1;
    proof {
        reveal(Seq::filter);
        assert(fs.take(0) =~= Seq::<Seq<char>>::empty());
        assert(textos(salida@) =~= fs.take(0).filter(p));
    }
    while i < tabla.len()
        invariant
            1 <= i <= tabla@.len(),
            fs == filas_de(textos(tabla@)),
            cols == textos(columnas@),
            c == condicion_de(*cond),
            p == con_resultado(cols, c, conservar),
            sanas(fs, cols, c, 0) == (i - 1) + sanas(fs, cols, c, i - 1),
            textos(salida@) == fs.take(i - 1).filter(p),
        decreases tabla@.len() - i,
    {
        assert(fs[i - 1] == tabla@[i as int]@);
        let ghost antes = textos(salida@);
        let b = fila_cumple(tabla[i].as_str(), columnas, cond)?;
        proof {
            reveal(Seq::filter);
            assert(fs.take(i as int).drop_last() =~= fs.take(i - 1));
            assert(fs.take(i as int).last() == fs[i - 1]);
        }
        if b == conservar {
            salida.push(tabla[i].clone());
            assert(textos(salida@) =~= antes.push(fs[i - 1]));
        }
        i += 1;
    }
    assert(fs.take(fs.len() as int) =~= fs);
    Ok(salida)
}

/// A row after an update: changed where it meets the condition, as it was
/// where it does not.
///
/// Fails where `fila_cumple` does.
pub fn actualizar_linea(
    linea: &String,
    columnas: &[String],
    cambios: &Fila,
    cond: &Option<ExpresionBooleana>,
) -> (r: Result<String, ErrorType>)
    ensures
        match r {
            Ok(n) => cumple(linea@, textos(columnas@), condicion_de(*cond)) is Ok && n@
                == linea_nueva(linea@, textos(columnas@), cambios@, condicion_de(*cond)),
            Err(e) => cumple(linea@, textos(columnas@), condicion_de(*cond)) == Err::<
                bool,
                Failure,
            >(e@),
        },
{
    if fila_cumple(linea.as_str(), columnas, cond)? {
        modificar_linea(linea.as_str(), cambios, columnas)
    } else {
        Ok(linea.clone())
    }
}

/// The rows of the table after the changes: changed where they meet the
/// condition, as they were where they do not.
pub fn actualizar_filas(
    tabla: &Vec<String>,
    columnas: &[String],
    cambios: &Fila,
    cond: &Option<ExpresionBooleana>,
) -> (r: Result<Vec<String>, ErrorType>)
    requires
        tabla@.len() >= 1,
    ensures
        mismas_lineas(
            r,
            actualizadas(
                filas_de(textos(tabla@)),
                textos(columnas@),
                cambios@,
                condicion_de(*cond),
            ),
        ),
{
    let ghost fs = filas_de(textos(tabla@));
    let ghost cols = textos(columnas@);
    let ghost c = condicion_de(*cond);
    let mut salida: Vec<String> = Vec::new();
    let mut i: usize = 1;
    while i < tabla.len()
        invariant
            1 <= i <= tabla@.len(),
            fs == filas_de(textos(tabla@)),
            cols == textos(columnas@),
            c == condicion_de(*cond),
            sanas(fs, cols, c, 0) == (i - 1) + sanas(fs, cols, c, i - 1),
            salida@.len() == i - 1,
            forall|j: int|
                0 <= j < i - 1 ==> (#[trigger] salida@[j])@ == linea_nueva(
                    fs[j],
                    cols,
                    cambios@,
                    c,
                ),
        decreases tabla@.len() - i,
    {
        assert(fs[i - 1] == tabla@[i as int]@);
        let nueva = actualizar_linea(&tabla[i], columnas, cambios, cond)?;
        salida.push(nueva);
        i += 1;
    }
    assert(textos(salida@) =~= Seq::new(
        fs.len(),
        |i: int| linea_nueva(fs[i], cols, cambios@, c),
    ));
    Ok(salida)
}

/// The lines that write the new rows, for a table with these columns.
pub fn codificar_filas(nuevas: &Vec<Fila>, columnas: &Vec<String>) -> (r: Result<
    Vec<String>,
    ErrorType,
>)
    ensures
        r is Ok,
        textos(r->Ok_0@) == agregadas(filas(nuevas@), textos(columnas@)),
{
    let mut salida: Vec<String> = Vec::new();
    let mut i: usize = 0;
    while i < nuevas.len()
        invariant
            i <= nuevas@.len(),
            salida@.len() == i,
            forall|j: int|
                0 <= j < i ==> (#[trigger] salida@[j])@ == codificar(
                    nuevas@[j]@,
                    textos(columnas@),
                ),
        decreases nuevas@.len() - i,
    {
        let linea = datos_to_row(&nuevas[i], columnas)?;
        salida.push(linea);
        i += 1;
    }
    assert(textos(salida@) =~= agregadas(filas(nuevas@), textos(columnas@)));
    Ok(salida)
}

/// The lines to show for the rows: of each the fields at the positions given,
/// after the lines in `salida`.
pub fn mostrar_filas(filas: &Vec<String>, posiciones: &Vec<usize>, previas: Vec<String>) -> (r: Result<
    Vec<String>,
    ErrorType,
>)
    ensures
        mismas_lineas(
            r,
            mostrar_desde(textos(filas@), indices(posiciones@), 0, textos(previas@)),
        ),
{
    let ghost inicial = textos(previas@);
    let mut salida = previas;
    let mut i: usize = 0;
    while i < filas.len()
        invariant
            i <= filas@.len(),
            inicial == textos(previas@),
            mostrar_desde(textos(filas@), indices(posiciones@), 0, inicial) == mostrar_desde(
                textos(filas@),
                indices(posiciones@),
                i as int,
                textos(salida@),
            ),
        decreases filas@.len() - i,
    {
        let ghost antes = textos(salida@);
        let linea = ordenar_linea(filas[i].as_str(), posiciones)?;
        let ghost l = linea@;
        salida.push(linea);
        assert(textos(salida@) =~= antes.push(l));
        i += 1;
    }
    Ok(salida)
}

/// A copy of the lines.
pub fn copiar_lineas(lineas: &Vec<String>) -> (r: Vec<String>)
    ensures
        textos(r@) == textos(lineas@),
{
    let mut salida: Vec<String> = Vec::new();
    let mut i: usize = 0;
    while i < lineas.len()
        invariant
            i <= lineas@.len(),
            salida@.len() == i,
            forall|j: int| 0 <= j < i ==> (#[trigger] salida@[j])@ == lineas@[j]@,
        decreases lineas@.len() - i,
    {
        salida.push(lineas[i].clone());
        i += 1;
    }
    assert(textos(salida@) =~= textos(lineas@));
    salida
}

/// Puts `primera` in front of `resto`.
fn con_encabezado(primera: String, resto: Vec<String>) -> (r: Vec<String>)
    ensures
        textos(r@) == seq![primera@] + textos(resto@),
{
    let mut salida: Vec<String> = Vec::new();
    salida.push(primera);
    let mut resto = resto;
    let ghost antes = textos(salida@);
    let ghost cola = textos(resto@);
    salida.append(&mut resto);
    assert(textos(salida@) =~= seq![primera@] + cola);
    salida
}

/// A statement that can be run against a table.
pub trait Execute {
    /// What `execute` does to a table.
    spec fn efecto(&self, tabla: Seq<Seq<char>>) -> Result<Effect, Failure>;

    /// Runs the statement against the lines of a table, the line of the
    /// column names first.
    fn execute(&self, tabla: &Vec<String>) -> (r: Result<Resultado, ErrorType>)
        ensures
            mismo_efecto(r, self.efecto(textos(tabla@))),
    ;
}

impl Execute for InsertQuery {
    open spec fn efecto(&self, tabla: Seq<Seq<char>>) -> Result<Effect, Failure> {
        efecto_de(self@, tabla)
    }

    fn execute(&self, tabla: &Vec<String>) -> (r: Result<Resultado, ErrorType>) {
        if tabla.len() == 0 {
            return Err(ErrorType::InvalidTable("El archivo está vacío".to_string()));
        }
        let columnas = listar_columnas(tabla[0].as_str());
        let mut salida = copiar_lineas(tabla);
        let mut nuevas = codificar_filas(&self.values, &columnas)?;
        let ghost a = textos(salida@);
        let ghost b = textos(nuevas@);
        salida.append(&mut nuevas);
        assert(textos(salida@) =~= a + b);
        Ok(Resultado::Tabla(salida))
    }
}

impl Execute for DeleteQuery {
    open spec fn efecto(&self, tabla: Seq<Seq<char>>) -> Result<Effect, Failure> {
        efecto_de(self@, tabla)
    }

    fn execute(&self, tabla: &Vec<String>) -> (r: Result<Resultado, ErrorType>) {
        if tabla.len() == 0 {
            return Err(ErrorType::InvalidTable("El archivo está vacío".to_string()));
        }
        let columnas = listar_columnas(tabla[0].as_str());
        let quedan = filtrar_filas(tabla, columnas.as_slice(), &self.where_clause, false)?;
        Ok(Resultado::Tabla(con_encabezado(tabla[0].clone(), quedan)))
    }
}

impl Execute for UpdateQuery {
    open spec fn efecto(&self, tabla: Seq<Seq<char>>) -> Result<Effect, Failure> {
        efecto_de(self@, tabla)
    }

    fn execute(&self, tabla: &Vec<String>) -> (r: Result<Resultado, ErrorType>) {
        if tabla.len() == 0 {
            return Err(ErrorType::InvalidTable("El archivo está vacío".to_string()));
        }
        let columnas = listar_columnas(tabla[0].as_str());
        let nuevas = actualizar_filas(
            tabla,
            columnas.as_slice(),
            &self.changes,
            &self.where_condition,
        )?;
        Ok(Resultado::Tabla(con_encabezado(tabla[0].clone(), nuevas)))
    }
}

impl Execute for SelectQuery {
    open spec fn efecto(&self, tabla: Seq<Seq<char>>) -> Result<Effect, Failure> {
        efecto_de(self@, tabla)
    }

    fn execute(&self, tabla: &Vec<String>) -> (r: Result<Resultado, ErrorType>) {
        if tabla.len() == 0 {
            return Err(ErrorType::InvalidTable("El archivo está vacío".to_string()));
        }
        let columnas = listar_columnas(tabla[0].as_str());
        let elegidas = filtrar_filas(tabla, columnas.as_slice(), &self.where_clause, true)?;
        let ordenadas = ordenar_archivo(elegidas, columnas.as_slice(), &self.order_by)?;
        let (encabezado, posiciones) = filtrar_columnas(
            &self.columns_select,
            columnas.as_slice(),
        )?;
        let mut salida: Vec<String> = Vec::new();
        salida.push(encabezado);
        assert(textos(salida@) =~= seq![encabezado@]);
        let salida = mostrar_filas(&ordenadas, &posiciones, salida)?;
        Ok(Resultado::Salida(salida))
    }
}

impl Execute for SQLQuery {
    open spec fn efecto(&self, tabla: Seq<Seq<char>>) -> Result<Effect, Failure> {
        efecto_de(self@, tabla)
    }

    fn execute(&self, tabla: &Vec<String>) -> (r: Result<Resultado, ErrorType>) {
        match self {
            SQLQuery::Select(query) => query.execute(tabla),
            SQLQuery::Insert(query) => query.execute(tabla),
            SQLQuery::Update(query) => query.execute(tabla),
            SQLQuery::Delete(query) => query.execute(tabla),
        }
    }
}

/// What the text of a statement does to a table: the text is cut into tokens,
/// the tokens are parsed, and the statement is run.
pub open spec fn procesar(consulta: Seq<char>, tabla: Seq<Seq<char>>) -> Result<Effect, Failure> {
    match tokenizar(consulta) {
        Err(e) => Err(e),
        Ok(ts) => match analizar(ts) {
            Err(e) => Err(e),
            Ok(s) => efecto_de(s, tabla),
        },
    }
}

/// Runs the statement that `query` writes against the lines of a table.
///
/// A text that is no statement fails before the table is looked at.
pub fn procesar_consulta(query: &String, tabla: &Vec<String>) -> (r: Result<Resultado, ErrorType>)
    ensures
        mismo_efecto(r, procesar(query@, textos(tabla@))),
{
    let query_lexer = lexer(query)?;
    let query_parser = parser(&query_lexer)?;
    query_parser.execute(tabla)
}

} // verus!
