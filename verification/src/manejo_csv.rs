//! Rows as lines of text: reading a line into a row, writing a row as a line,
//! changing some fields of a line and picking the fields to show.

use vstd::prelude::*;
use vstd::string::StringExecFns;
use crate::campos::{campos_limpios, juntar, separar, textos, unir};
use crate::condicion::{evaluar_en, mismo_resultado, BooleanExpr, Evaluar, ExpresionBooleana};
use crate::consultas::{claves, condicion_de, OrderClause, OrderDirection, OrderKey};
use crate::dato::{valor_menor, Datos, Fila, Value};
use crate::enteros::{digitos, escribir_natural, leer_entero};
use crate::errores::{error_columna, ErrorType, Failure};
use crate::texto::mismo_texto;
use crate::utils::{dato_de_palabra, dato_to_string, texto_de_valor};

verus! {

/// The failure of a line that does not have one field for each column.
pub open spec fn linea_invalida() -> Failure {
    Failure::InvalidColumn("Error al escribir una linea"@)
}

/// The failure of a selected column that the table does not have.
pub open spec fn columna_ajena() -> Failure {
    Failure::InvalidColumn("Esa columna no pertenece a la tabla"@)
}

/// The failure of a position that a line has no field for.
pub open spec fn fuera_de_rango(indice: nat) -> Failure {
    Failure::InvalidColumn("Índice fuera de rango: "@ + digitos(indice))
}

/// The path of the file of a table: the directory, a slash, the name of the
/// table and the extension.
pub open spec fn ruta_de(directorio: Seq<char>, tabla: Seq<char>) -> Seq<char> {
    directorio + "/"@ + tabla + ".csv"@
}

/// The path of the file that holds `agregado` in the directory `path`.
pub fn agregar_path(path: &str, agregado: &String) -> (r: String)
    ensures
        r@ == ruta_de(path@, agregado@),
{
    String::from_str(path).concat("/").concat(agregado.as_str()).concat(".csv")
}

/// The names of the columns that the first line of a table gives.
pub fn listar_columnas(encabezado: &str) -> (r: Vec<String>)
    ensures
        textos(r@) == campos_limpios(encabezado@),
{
    separar(encabezado)
}

/// The row that the first `n` fields give to the first `n` columns. A field
/// that writes an integer is that integer; any other is a text. Of two columns
/// with one name the later one stays.
pub open spec fn fila_de_campos(columnas: Seq<Seq<char>>, fs: Seq<Seq<char>>, n: int) -> Map<
    Seq<char>,
    Value,
>
    decreases n,
{
    if n <= 0 {
        Map::empty()
    } else {
        fila_de_campos(columnas, fs, n - 1).insert(columnas[n - 1], dato_de_palabra(fs[n - 1]))
    }
}

/// The row that a line holds, for a table with these columns: the line must
/// have as many fields as there are columns.
pub open spec fn decodificar(linea: Seq<char>, columnas: Seq<Seq<char>>) -> Result<
    Map<Seq<char>, Value>,
    Failure,
> {
    let fs = campos_limpios(linea);
    if fs.len() != columnas.len() {
        Err(linea_invalida())
    } else {
        Ok(fila_de_campos(columnas, fs, fs.len() as int))
    }
}

/// The text that a row has for a column: empty where it has none.
pub open spec fn campo_de(fila: Map<Seq<char>, Value>, columna: Seq<char>) -> Seq<char> {
    if fila.contains_key(columna) {
        texto_de_valor(fila[columna])
    } else {
        Seq::empty()
    }
}

/// The fields of a row, in the order of the columns.
pub open spec fn valores_en(fila: Map<Seq<char>, Value>, columnas: Seq<Seq<char>>) -> Seq<
    Seq<char>,
> {
    Seq::new(columnas.len(), |i: int| campo_de(fila, columnas[i]))
}

/// The line that writes a row, for a table with these columns.
pub open spec fn codificar(fila: Map<Seq<char>, Value>, columnas: Seq<Seq<char>>) -> Seq<char> {
    unir(valores_en(fila, columnas))
}

/// Writes a row as a line: the text of its value for each column, in the
/// order of the columns, and an empty field where it has no value. Never
/// fails.
pub fn datos_to_row(datos: &Fila, columnas: &Vec<String>) -> (r: Result<String, ErrorType>)
    ensures
        r is Ok,
        r->Ok_0@ == codificar(datos@, textos(columnas@)),
{
    let mut valores: Vec<String> = Vec::new();
    let mut i: usize = 0;
    while i < columnas.len()
        invariant
            i <= columnas@.len(),
            valores@.len() == i,
            forall|j: int|
                0 <= j < i ==> (#[trigger] valores@[j])@ == campo_de(
                    datos@,
                    textos(columnas@)[j],
                ),
        decreases columnas@.len() - i,
    {
        let valor = match datos.get(columnas[i].as_str()) {
            Some(d) => dato_to_string(d),
            None => String::new(),
        };
        valores.push(valor);
        i += 1;
    }
    assert(textos(valores@) =~= valores_en(datos@, textos(columnas@)));
    Ok(juntar(&valores))
}

/// Reads a line as a row. Fails with a column error where the line does not
/// have one field for each column.
pub fn string_to_columns(line: &str, columnas: &[String]) -> (r: Result<Fila, ErrorType>)
    ensures
        match r {
            Ok(f) => decodificar(line@, textos(columnas@)) == Ok::<
                Map<Seq<char>, Value>,
                Failure,
            >(f@),
            Err(e) => decodificar(line@, textos(columnas@)) == Err::<
                Map<Seq<char>, Value>,
                Failure,
            >(e@),
        },
{
    let values = separar(line);
    if values.len() != columnas.len() {
        return Err(error_columna("Error al escribir una linea"));
    }
    let mut result = Fila::new();
    let mut i: usize = 0;
    while i < columnas.len()
        invariant
            i <= columnas@.len() == values@.len(),
            textos(values@) == campos_limpios(line@),
            result@ == fila_de_campos(textos(columnas@), textos(values@), i as int),
        decreases columnas@.len() - i,
    {
        let dato = match leer_entero(values[i].as_str()) {
            Some(n) => Datos::Integer(n),
            None => Datos::String(values[i].clone()),
        };
        result.insert(columnas[i].clone(), dato);
        i += 1;
    }
    Ok(result)
}

/// What a condition that may be absent is worth on a row: an absent condition
/// holds of every row.
pub open spec fn condicion_en(c: Option<BooleanExpr>, fila: Map<Seq<char>, Value>) -> Result<
    bool,
    Failure,
> {
    match c {
        Some(e) => evaluar_en(e, fila),
        None => Ok(true),
    }
}

/// Tells whether the condition holds of the row; an absent condition does.
pub fn where_condition(condition: &Option<ExpresionBooleana>, fila: &Fila) -> (r: Result<
    bool,
    ErrorType,
>)
    ensures
        mismo_resultado(r, condicion_en(condicion_de(*condition), fila@)),
{
    match condition {
        Some(cond) => cond.evaluar(fila),
        None => Ok(true),
    }
}

/// The fields of a line after the changes: the new text where the column has a
/// change, the old field where it has none.
pub open spec fn campos_cambiados(
    fs: Seq<Seq<char>>,
    cambios: Map<Seq<char>, Value>,
    columnas: Seq<Seq<char>>,
) -> Seq<Seq<char>> {
    Seq::new(
        fs.len(),
        |i: int|
            if cambios.contains_key(columnas[i]) {
                texto_de_valor(cambios[columnas[i]])
            } else {
                fs[i]
            },
    )
}

/// The line after the changes, for a table with these columns.
pub open spec fn modificar(
    linea: Seq<char>,
    cambios: Map<Seq<char>, Value>,
    columnas: Seq<Seq<char>>,
) -> Result<Seq<char>, Failure> {
    let fs = campos_limpios(linea);
    if fs.len() != columnas.len() {
        Err(linea_invalida())
    } else {
        Ok(unir(campos_cambiados(fs, cambios, columnas)))
    }
}

/// The executable line agrees with the mathematical one.
pub open spec fn misma_linea(r: Result<String, ErrorType>, m: Result<Seq<char>, Failure>) -> bool {
    match r {
        Ok(s) => m == Ok::<Seq<char>, Failure>(s@),
        Err(e) => m == Err::<Seq<char>, Failure>(e@),
    }
}

/// Rewrites the fields of a line whose columns have a change and keeps the
/// others, in their places. Fails with a column error where the line does not
/// have one field for each column.
pub fn modificar_linea(linea: &str, cambios: &Fila, columnas: &[String]) -> (r: Result<
    String,
    ErrorType,
>)
    ensures
        misma_linea(r, modificar(linea@, cambios@, textos(columnas@))),
{
    let mut values = separar(linea);
    if values.len() != columnas.len() {
        return Err(error_columna("Error al escribir una linea"));
    }
    let ghost fs = textos(values@);
    let mut i: usize = 0;
    while i < columnas.len()
        invariant
            i <= columnas@.len() == values@.len() == fs.len(),
            fs == campos_limpios(linea@),
            forall|j: int|
                0 <= j < i ==> (#[trigger] values@[j])@ == campos_cambiados(
                    fs,
                    cambios@,
                    textos(columnas@),
                )[j],
            forall|j: int| i <= j < values@.len() ==> (#[trigger] values@[j])@ == fs[j],
        decreases columnas@.len() - i,
    {
        match cambios.get(columnas[i].as_str()) {
            Some(cambio) => {
                let nuevo = dato_to_string(cambio);
                values.set(i, nuevo);
            },
            None => {},
        }
        i += 1;
    }
    assert(textos(values@) =~= campos_cambiados(fs, cambios@, textos(columnas@)));
    Ok(juntar(&values))
}

/// The number of columns from the `i`-th on that stand before the first one
/// named `c`, or before the end.
pub open spec fn saltos(columnas: Seq<Seq<char>>, c: Seq<char>, i: int) -> nat
    decreases columnas.len() - i,
{
    if i < 0 || i >= columnas.len() || columnas[i] == c {
        0
    } else {
        1 + saltos(columnas, c, i + 1)
    }
}

/// The position of the first column named `c`; the number of columns where
/// there is none.
pub open spec fn posicion_de(columnas: Seq<Seq<char>>, c: Seq<char>) -> int {
    saltos(columnas, c, 0) as int
}

/// The selection that stands for every column.
pub open spec fn es_todo(sel: Seq<Seq<char>>) -> bool {
    sel.len() == 1 && sel[0] == "*"@
}

/// The positions that a list holds.
pub open spec fn indices(v: Seq<usize>) -> Seq<int> {
    Seq::new(v.len(), |i: int| v[i] as int)
}

/// The heading and the positions to show for a selection of columns. `*`
/// gives every column, in the order of the table. Any other selection gives
/// its own columns in its own order, each at the first place that the table
/// has for its name, and fails where the table lacks one of them.
pub open spec fn proyeccion(sel: Seq<Seq<char>>, columnas: Seq<Seq<char>>) -> Result<
    (Seq<char>, Seq<int>),
    Failure,
> {
    if es_todo(sel) {
        Ok((unir(columnas), Seq::new(columnas.len(), |i: int| i)))
    } else if forall|k: int| 0 <= k < sel.len() ==> columnas.contains(#[trigger] sel[k]) {
        Ok((unir(sel), Seq::new(sel.len(), |k: int| posicion_de(columnas, sel[k]))))
    } else {
        Err(columna_ajena())
    }
}

/// The position of the first column named `c`, or the number of columns.
fn primera_posicion(columnas: &[String], c: &str) -> (r: usize)
    ensures
        r == posicion_de(textos(columnas@), c@),
        r <= columnas@.len(),
        r < columnas@.len() ==> textos(columnas@)[r as int] == c@,
        r == columnas@.len() ==> !textos(columnas@).contains(c@),
{
    let mut k: usize = 0;
    while k < columnas.len() && !mismo_texto(columnas[k].as_str(), c)
        invariant
            k <= columnas@.len(),
            saltos(textos(columnas@), c@, 0) == k + saltos(textos(columnas@), c@, k as int),
            forall|j: int| 0 <= j < k ==> textos(columnas@)[j] != c@,
        decreases columnas@.len() - k,
    {
        k += 1;
    }
    k
}

/// The heading and the positions to show for the selected columns.
///
/// Fails with a column error where a selected column is not one of the table.
pub fn filtrar_columnas(columnas_selected: &Vec<String>, columnas: &[String]) -> (r: Result<
    (String, Vec<usize>),
    ErrorType,
>)
    ensures
        match r {
            Ok((encabezado, posiciones)) => proyeccion(
                textos(columnas_selected@),
                textos(columnas@),
            ) == Ok::<(Seq<char>, Seq<int>), Failure>((encabezado@, indices(posiciones@))),
            Err(e) => proyeccion(textos(columnas_selected@), textos(columnas@)) == Err::<
                (Seq<char>, Seq<int>),
                Failure,
            >(e@),
        },
{
    let mut posiciones: Vec<usize> = Vec::new();
    if columnas_selected.len() == 1 && mismo_texto(columnas_selected[0].as_str(), "*") {
        let mut i: usize = 0;
        while i < columnas.len()
            invariant
                i <= columnas@.len(),
                posiciones@.len() == i,
                forall|j: int| 0 <= j < i ==> posiciones@[j] == j,
            decreases columnas@.len() - i,
        {
            posiciones.push(i);
            i += 1;
        }
        let mut nombres: Vec<String> = Vec::new();
        let mut i: usize = 0;
        while i < columnas.len()
            invariant
                i <= columnas@.len(),
                nombres@.len() == i,
                forall|j: int| 0 <= j < i ==> (#[trigger] nombres@[j])@ == columnas@[j]@,
            decreases columnas@.len() - i,
        {
            nombres.push(columnas[i].clone());
            i += 1;
        }
        assert(textos(nombres@) =~= textos(columnas@));
        assert(indices(posiciones@) =~= Seq::new(columnas@.len(), |i: int| i));
        return Ok((juntar(&nombres), posiciones));
    }
    let mut k: usize = 0;
    while k < columnas_selected.len()
        invariant
            k <= columnas_selected@.len(),
            posiciones@.len() == k,
            !es_todo(textos(columnas_selected@)),
            forall|j: int|
                0 <= j < k ==> textos(columnas@).contains(
                    #[trigger] textos(columnas_selected@)[j],
                ),
            forall|j: int|
                0 <= j < k ==> posiciones@[j] == posicion_de(
                    textos(columnas@),
                    textos(columnas_selected@)[j],
                ),
        decreases columnas_selected@.len() - k,
    {
        let p = primera_posicion(columnas, columnas_selected[k].as_str());
        if p == columnas.len() {
            assert(!textos(columnas@).contains(textos(columnas_selected@)[k as int]));
            return Err(error_columna("Esa columna no pertenece a la tabla"));
        }
        assert(textos(columnas@)[p as int] == textos(columnas_selected@)[k as int]);
        posiciones.push(p);
        k += 1;
    }
    assert(indices(posiciones@) =~= Seq::new(
        textos(columnas_selected@).len(),
        |k: int| posicion_de(textos(columnas@), textos(columnas_selected@)[k]),
    ));
    Ok((juntar(columnas_selected), posiciones))
}

/// The number of positions from the `k`-th on that stand before the first one
/// that a line of `n` fields has no field for, or before the end.
pub open spec fn validas(orden: Seq<int>, n: int, k: int) -> nat
    decreases orden.len() - k,
{
    if k < 0 || k >= orden.len() || !(0 <= orden[k] < n) {
        0
    } else {
        1 + validas(orden, n, k + 1)
    }
}

/// The fields of a line at the given positions, in that order, as a line.
/// Fails where the line has fewer fields than there are positions, and at the
/// first position that it has no field for.
pub open spec fn reordenar(linea: Seq<char>, orden: Seq<int>) -> Result<Seq<char>, Failure> {
    let fs = campos_limpios(linea);
    let v = validas(orden, fs.len() as int, 0) as int;
    if fs.len() < orden.len() {
        Err(linea_invalida())
    } else if v < orden.len() {
        Err(fuera_de_rango(orden[v] as nat))
    } else {
        Ok(unir(Seq::new(orden.len(), |k: int| fs[orden[k]])))
    }
}

/// The fields of a line at the positions of `orden`, in that order.
pub fn ordenar_linea(linea: &str, orden: &Vec<usize>) -> (r: Result<String, ErrorType>)
    ensures
        misma_linea(r, reordenar(linea@, indices(orden@))),
{
    let values = separar(linea);
    if values.len() < orden.len() {
        return Err(error_columna("Error al escribir una linea"));
    }
    let ghost fs = textos(values@);
    let mut ordenados: Vec<String> = Vec::new();
    let mut k: usize = 0;
    while k < orden.len()
        invariant
            k <= orden@.len() <= values@.len(),
            fs == textos(values@),
            fs == campos_limpios(linea@),
            ordenados@.len() == k,
            validas(indices(orden@), fs.len() as int, 0) == k + validas(
                indices(orden@),
                fs.len() as int,
                k as int,
            ),
            forall|j: int| 0 <= j < k ==> 0 <= #[trigger] orden@[j] < fs.len(),
            forall|j: int| 0 <= j < k ==> (#[trigger] ordenados@[j])@ == fs[orden@[j] as int],
        decreases orden@.len() - k,
    {
        let index: usize = orden[k];
        assert(indices(orden@)[k as int] == index);
        if index >= values.len() {
            let m = escribir_natural(index as u64, String::from_str("Índice fuera de rango: "));
            return Err(ErrorType::InvalidColumn(m));
        }
        ordenados.push(values[index].clone());
        k += 1;
    }
    assert(textos(ordenados@) =~= Seq::new(
        indices(orden@).len(),
        |k: int| fs[indices(orden@)[k]],
    ));
    Ok(juntar(&ordenados))
}

/// The value that a row has for a column, if it has one.
pub open spec fn clave_en(fila: Map<Seq<char>, Value>, columna: Seq<char>) -> Option<Value> {
    if fila.contains_key(columna) {
        Some(fila[columna])
    } else {
        None
    }
}

/// The strict order of keys: a missing value before any value, and values in
/// their own order.
pub open spec fn clave_menor(a: Option<Value>, b: Option<Value>) -> bool {
    match (a, b) {
        (None, None) => false,
        (None, Some(_)) => true,
        (Some(_), None) => false,
        (Some(x), Some(y)) => valor_menor(x, y),
    }
}

/// The keys of two rows for one clause of an ordering, the first row's key
/// first for an ascending clause, the second row's first for a descending one.
pub open spec fn par_de_claves(
    a: Map<Seq<char>, Value>,
    b: Map<Seq<char>, Value>,
    clave: OrderKey,
) -> (Option<Value>, Option<Value>) {
    match clave.direction {
        OrderDirection::Asc => (clave_en(a, clave.column), clave_en(b, clave.column)),
        OrderDirection::Desc => (clave_en(b, clave.column), clave_en(a, clave.column)),
    }
}

/// Row `a` may stand after row `b` under the clauses from the `k`-th on: the
/// first clause on which the two differ puts `a` later, or there is none.
pub open spec fn sigue_a(
    a: Map<Seq<char>, Value>,
    b: Map<Seq<char>, Value>,
    claves: Seq<OrderKey>,
    k: int,
) -> bool
    decreases claves.len() - k,
{
    if k < 0 || k >= claves.len() {
        true
    } else {
        let (p, q) = par_de_claves(a, b, claves[k]);
        if p == q {
            sigue_a(a, b, claves, k + 1)
        } else {
            clave_menor(q, p)
        }
    }
}

/// Whether the first line may stand after the second in the ordering. Both
/// lines are read as rows first, the first line first.
pub open spec fn linea_sigue_a(
    linea_1: Seq<char>,
    linea_2: Seq<char>,
    claves: Seq<OrderKey>,
    columnas: Seq<Seq<char>>,
) -> Result<bool, Failure> {
    match decodificar(linea_1, columnas) {
        Err(e) => Err(e),
        Ok(a) => match decodificar(linea_2, columnas) {
            Err(e) => Err(e),
            Ok(b) => Ok(sigue_a(a, b, claves, 0)),
        },
    }
}

/// Tells whether two keys are the same.
fn misma_clave(p: Option<&Datos>, q: Option<&Datos>) -> (r: bool)
    ensures
        r == (vista_clave(p) == vista_clave(q)),
{
    match (p, q) {
        (None, None) => true,
        (Some(x), Some(y)) => x.igual(y),
        _ => false,
    }
}

/// The value of a key that may be missing.
pub open spec fn vista_clave(p: Option<&Datos>) -> Option<Value> {
    match p {
        Some(d) => Some(d@),
        None => None,
    }
}

/// Tells whether key `p` comes strictly before key `q`.
fn clave_es_menor(p: Option<&Datos>, q: Option<&Datos>) -> (r: bool)
    ensures
        r == clave_menor(vista_clave(p), vista_clave(q)),
{
    match (p, q) {
        (None, Some(_)) => true,
        (Some(x), Some(y)) => x.menor(y),
        _ => false,
    }
}

/// Tells whether `linea_1` may stand after `linea_2` in the ordering: at the
/// first clause on which their rows differ, the row of `linea_1` is the later
/// one; rows that differ on no clause may stand either way.
///
/// Fails with a column error where one of the lines does not have one field
/// for each column.
pub fn comparar_linea(
    linea_1: &str,
    linea_2: &str,
    order_by: &Vec<OrderClause>,
    columnas: &[String],
) -> (r: Result<bool, ErrorType>)
    ensures
        mismo_resultado(
            r,
            linea_sigue_a(linea_1@, linea_2@, claves(order_by@), textos(columnas@)),
        ),
{
    let fila_1 = string_to_columns(linea_1, columnas)?;
    let fila_2 = string_to_columns(linea_2, columnas)?;
    let mut k: usize = 0;
    while k < order_by.len()
        invariant
            k <= order_by@.len(),
            decodificar(linea_1@, textos(columnas@)) == Ok::<Map<Seq<char>, Value>, Failure>(
                fila_1@,
            ),
            decodificar(linea_2@, textos(columnas@)) == Ok::<Map<Seq<char>, Value>, Failure>(
                fila_2@,
            ),
            sigue_a(fila_1@, fila_2@, claves(order_by@), 0) == sigue_a(
                fila_1@,
                fila_2@,
                claves(order_by@),
                k as int,
            ),
        decreases order_by@.len() - k,
    {
        let clause = &order_by[k];
        assert(claves(order_by@)[k as int] == clause@);
        let x = fila_1.get(clause.column.as_str());
        let y = fila_2.get(clause.column.as_str());
        let (p, q) = match clause.direccion {
            OrderDirection::Asc => (x, y),
            OrderDirection::Desc => (y, x),
        };
        if !misma_clave(p, q) {
            return Ok(clave_es_menor(q, p));
        }
        k += 1;
    }
    Ok(true)
}

} // verus!
