//! Putting the rows of a table in order, by passes that carry the later of
//! two neighbouring rows forward until a pass changes nothing.

use vstd::prelude::*;
use crate::campos::textos;
use crate::consultas::{claves, orden_de, OrderClause, OrderKey};
use crate::errores::{ErrorType, Failure};
use crate::manejo_csv::{comparar_linea, linea_sigue_a};

verus! {

/// What a pass gives: the rows after it, and whether it moved any.
pub type Pasada = Result<(Seq<Seq<char>>, bool), Failure>;

/// The rest of a pass over `filas`, from the `i`-th row on: `llevada` is the
/// row carried forward, `salida` the rows already put down, `cambios` whether
/// a row was moved so far. The row at hand is put down where it may stand
/// after the carried one, which then takes its place as the carried row; else
/// the row at hand is put down and the carried one stays. Fails at the first
/// pair of rows that cannot be compared.
pub open spec fn pasada_desde(
    filas: Seq<Seq<char>>,
    claves: Seq<OrderKey>,
    columnas: Seq<Seq<char>>,
    i: int,
    llevada: Seq<char>,
    salida: Seq<Seq<char>>,
    cambios: bool,
) -> Pasada
    decreases filas.len() - i,
{
    if i < 0 || i >= filas.len() {
        Ok((salida.push(llevada), cambios))
    } else {
        match linea_sigue_a(filas[i], llevada, claves, columnas) {
            Err(e) => Err(e),
            Ok(true) => pasada_desde(
                filas,
                claves,
                columnas,
                i + 1,
                filas[i],
                salida.push(llevada),
                cambios,
            ),
            Ok(false) => pasada_desde(
                filas,
                claves,
                columnas,
                i + 1,
                llevada,
                salida.push(filas[i]),
                true,
            ),
        }
    }
}

/// One pass over the rows. A pass over no rows gives no rows and moves none.
pub open spec fn pasada(filas: Seq<Seq<char>>, claves: Seq<OrderKey>, columnas: Seq<Seq<char>>) -> Pasada {
    if filas.len() == 0 {
        Ok((filas, false))
    } else {
        pasada_desde(filas, claves, columnas, 1, filas[0], Seq::empty(), false)
    }
}

/// Passes over the rows until one moves nothing, and at most `vueltas` of
/// them. As many passes as there are rows always leave the rows in order:
/// `ley_orden` shows it.
pub open spec fn ordenar_en(
    filas: Seq<Seq<char>>,
    claves: Seq<OrderKey>,
    columnas: Seq<Seq<char>>,
    vueltas: nat,
) -> Result<Seq<Seq<char>>, Failure>
    decreases vueltas,
{
    if vueltas == 0 {
        Ok(filas)
    } else {
        match pasada(filas, claves, columnas) {
            Err(e) => Err(e),
            Ok((despues, cambios)) => if cambios {
                ordenar_en(despues, claves, columnas, (vueltas - 1) as nat)
            } else {
                Ok(despues)
            },
        }
    }
}

/// The rows in the order asked for. Without an ordering, or with one of no
/// clauses, the rows stay as they are.
pub open spec fn ordenar(
    filas: Seq<Seq<char>>,
    orden: Option<Seq<OrderKey>>,
    columnas: Seq<Seq<char>>,
) -> Result<Seq<Seq<char>>, Failure> {
    match orden {
        None => Ok(filas),
        Some(cs) => if cs.len() == 0 {
            Ok(filas)
        } else {
            ordenar_en(filas, cs, columnas, filas.len())
        },
    }
}

/// The executable rows agree with the mathematical ones.
pub open spec fn mismas_lineas(r: Result<Vec<String>, ErrorType>, m: Result<Seq<Seq<char>>, Failure>) -> bool {
    match r {
        Ok(v) => m == Ok::<Seq<Seq<char>>, Failure>(textos(v@)),
        Err(e) => m == Err::<Seq<Seq<char>>, Failure>(e@),
    }
}

/// One step of a pass: of the row carried forward and the row at hand, the
/// one to put down, the one to carry on, and whether the row at hand was put
/// down before the carried one.
///
/// Fails with a column error where one of the two lines does not have one
/// field for each column.
pub fn paso_burbuja(llevada: String, actual: String, order_by: &Vec<OrderClause>, columnas: &[String]) -> (r:
    Result<(String, String, bool), ErrorType>)
    ensures
        match linea_sigue_a(actual@, llevada@, claves(order_by@), textos(columnas@)) {
            Ok(true) => r is Ok && r->Ok_0.0@ == llevada@ && r->Ok_0.1@ == actual@ && !r->Ok_0.2,
            Ok(false) => r is Ok && r->Ok_0.0@ == actual@ && r->Ok_0.1@ == llevada@ && r->Ok_0.2,
            Err(e) => r is Err && r->Err_0@ == e,
        },
{
    if comparar_linea(actual.as_str(), llevada.as_str(), order_by, columnas)? {
        Ok((llevada, actual, false))
    } else {
        Ok((actual, llevada, true))
    }
}

/// One pass over the rows: the rows after it, and whether it moved any.
pub fn pasada_bubble_sort(filas: &Vec<String>, columnas: &[String], order_by: &Vec<OrderClause>) -> (r:
    Result<(Vec<String>, bool), ErrorType>)
    ensures
        match r {
            Ok((v, c)) => pasada(textos(filas@), claves(order_by@), textos(columnas@)) == Ok::<
                (Seq<Seq<char>>, bool),
                Failure,
            >((textos(v@), c)) && v@.len() == filas@.len(),
            Err(e) => pasada(textos(filas@), claves(order_by@), textos(columnas@)) == Err::<
                (Seq<Seq<char>>, bool),
                Failure,
            >(e@),
        },
{
    let mut salida: Vec<String> = Vec::new();
    if filas.len() == 0 {
        assert(textos(salida@) =~= textos(filas@));
        return Ok((salida, false));
    }
    let mut llevada: usize = 0;
    let mut hay_cambios: bool = false;
    let mut i: usize = 1;
    assert(textos(salida@) =~= Seq::<Seq<char>>::empty());
    while i < filas.len()
        invariant
            1 <= i <= filas@.len(),
            llevada < i,
            salida@.len() == i - 1,
            pasada(textos(filas@), claves(order_by@), textos(columnas@)) == pasada_desde(
                textos(filas@),
                claves(order_by@),
                textos(columnas@),
                i as int,
                filas@[llevada as int]@,
                textos(salida@),
                hay_cambios,
            ),
        decreases filas@.len() - i,
    {
        let ghost antes = textos(salida@);
        if comparar_linea(filas[i].as_str(), filas[llevada].as_str(), order_by, columnas)? {
            salida.push(filas[llevada].clone());
            assert(textos(salida@) =~= antes.push(filas@[llevada as int]@));
            llevada = i;
        } else {
            salida.push(filas[i].clone());
            assert(textos(salida@) =~= antes.push(filas@[i as int]@));
            hay_cambios = true;
        }
        i += 1;
    }
    let ghost antes = textos(salida@);
    salida.push(filas[llevada].clone());
    assert(textos(salida@) =~= antes.push(filas@[llevada as int]@));
    Ok((salida, hay_cambios))
}

/// Passes over the rows until one moves nothing.
pub fn bubble_sort(filas: Vec<String>, columnas: &[String], order_by: &Vec<OrderClause>) -> (r:
    Result<Vec<String>, ErrorType>)
    ensures
        mismas_lineas(
            r,
            ordenar(textos(filas@), Some(claves(order_by@)), textos(columnas@)),
        ),
{
    if order_by.len() == 0 {
        return Ok(filas);
    }
    let mut actual = filas;
    let mut vueltas: usize = actual.len();
    while vueltas > 0
        invariant
            vueltas <= actual@.len(),
            order_by@.len() > 0,
            ordenar(textos(filas@), Some(claves(order_by@)), textos(columnas@)) == ordenar_en(
                textos(actual@),
                claves(order_by@),
                textos(columnas@),
                vueltas as nat,
            ),
        decreases vueltas,
    {
        let (despues, hay_cambios) = pasada_bubble_sort(&actual, columnas, order_by)?;
        actual = despues;
        if !hay_cambios {
            return Ok(actual);
        }
        vueltas -= 1;
    }
    Ok(actual)
}

/// Puts the rows in the order asked for, if one is asked for.
///
/// Fails with a column error where two rows have to be compared and one of
/// them does not have one field for each column.
pub fn ordenar_archivo(filas: Vec<String>, columnas: &[String], order_by: &Option<Vec<OrderClause>>) -> (r:
    Result<Vec<String>, ErrorType>)
    ensures
        mismas_lineas(r, ordenar(textos(filas@), orden_de(*order_by), textos(columnas@))),
{
    match order_by {
        Some(order_by) => bubble_sort(filas, columnas, order_by),
        None => Ok(filas),
    }
}

} // verus!
