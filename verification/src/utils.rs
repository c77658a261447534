//! Conversions between tokens, values, operands and the words of the language.

use vstd::prelude::*;
use crate::condicion::{OperadorComparacion, Valor, ValueRef};
use crate::consultas::OrderDirection;
use crate::dato::{Datos, Value};
use crate::enteros::{entero_de, escribir_entero, leer_entero, texto_de_entero};
use crate::errores::{error_sintaxis, ErrorType, Failure};
use crate::operador::{lema_grupo, tokens, Operador, Token};
use crate::texto::mismo_texto;

verus! {

/// The failure of a text that writes no integer.
pub open spec fn numero_invalido() -> Failure {
    Failure::InvalidSyntax("Numero invalido en las listas"@)
}

/// The failure of a group or a comparator where a value must stand.
pub open spec fn se_esperaba_variable() -> Failure {
    Failure::InvalidSyntax("Se esperaba una variable"@)
}

/// The failure of a group that does not hold exactly one thing.
pub open spec fn cantidad_incorrecta() -> Failure {
    Failure::InvalidSyntax("Cantidad de elementos incorrecta"@)
}

/// The failure of a comparator where a value must stand.
pub open spec fn comparador_inesperado() -> Failure {
    Failure::InvalidSyntax("Comparador inesperado."@)
}

/// The failure of a symbol that is none of the five comparisons.
pub open spec fn comparacion_invalida() -> Failure {
    Failure::InvalidSyntax("Operador de comparación no válido"@)
}

/// The failure of a word that is neither `ASC` nor `DESC`.
pub open spec fn direccion_invalida() -> Failure {
    Failure::InvalidSyntax("Operador de direccion no válido"@)
}

/// The value that a bare word writes: an integer where it writes one, else
/// the word itself as a text.
pub open spec fn dato_de_palabra(t: Seq<char>) -> Value {
    match entero_de(t) {
        Some(n) => Value::Integer(n),
        None => Value::Text(t),
    }
}

/// The value of a token that must be a bare word or a quoted text.
pub open spec fn dato_de(t: Token) -> Result<Value, Failure> {
    match t {
        Token::Word(s) => Ok(dato_de_palabra(s)),
        Token::QuotedText(s) => Ok(Value::Text(s)),
        _ => Err(se_esperaba_variable()),
    }
}

/// The value inside a group that must hold one thing: a word, a quoted text,
/// or a group of the same kind.
pub open spec fn escalar_interno(g: Seq<Token>) -> Result<Value, Failure>
    decreases g,
{
    if g.len() != 1 {
        Err(cantidad_incorrecta())
    } else {
        match g[0] {
            Token::Word(s) => Ok(dato_de_palabra(s)),
            Token::QuotedText(s) => Ok(Value::Text(s)),
            Token::Group(h) => escalar_interno(h),
            Token::Comparator(_) => Err(comparador_inesperado()),
        }
    }
}

/// The value of a token in the place of a scalar: groups of one are unwrapped.
pub open spec fn escalar(t: Token) -> Result<Value, Failure> {
    match t {
        Token::Word(s) => Ok(dato_de_palabra(s)),
        Token::QuotedText(s) => Ok(Value::Text(s)),
        Token::Group(g) => escalar_interno(g),
        Token::Comparator(_) => Err(comparador_inesperado()),
    }
}

/// The operand inside a group that must hold one thing.
pub open spec fn operando_interno(g: Seq<Token>) -> Result<ValueRef, Failure>
    decreases g,
{
    if g.len() != 1 {
        Err(cantidad_incorrecta())
    } else {
        match g[0] {
            Token::Word(s) => Ok(ValueRef::ColumnOrNumber(s)),
            Token::QuotedText(s) => Ok(ValueRef::Literal(s)),
            Token::Group(h) => operando_interno(h),
            Token::Comparator(_) => Err(comparador_inesperado()),
        }
    }
}

/// The operand that a token stands for: groups of one are unwrapped.
pub open spec fn operando(t: Token) -> Result<ValueRef, Failure> {
    match t {
        Token::Word(s) => Ok(ValueRef::ColumnOrNumber(s)),
        Token::QuotedText(s) => Ok(ValueRef::Literal(s)),
        Token::Group(g) => operando_interno(g),
        Token::Comparator(_) => Err(comparador_inesperado()),
    }
}

/// The comparison that a symbol writes.
pub open spec fn comparacion_de(s: Seq<char>) -> Result<OperadorComparacion, Failure> {
    if s == "="@ {
        Ok(OperadorComparacion::Igual)
    } else if s == ">"@ {
        Ok(OperadorComparacion::Mayor)
    } else if s == "<"@ {
        Ok(OperadorComparacion::Menor)
    } else if s == ">="@ {
        Ok(OperadorComparacion::MayorIgual)
    } else if s == "<="@ {
        Ok(OperadorComparacion::MenorIgual)
    } else {
        Err(comparacion_invalida())
    }
}

/// The direction that a word writes.
pub open spec fn direccion_de(s: Seq<char>) -> Result<OrderDirection, Failure> {
    if s == "ASC"@ {
        Ok(OrderDirection::Asc)
    } else if s == "DESC"@ {
        Ok(OrderDirection::Desc)
    } else {
        Err(direccion_invalida())
    }
}

/// The text of a value: the decimal form of an integer, a text as it is.
pub open spec fn texto_de_valor(v: Value) -> Seq<char> {
    match v {
        Value::Integer(n) => texto_de_entero(n),
        Value::Text(t) => t,
    }
}

/// The executable value agrees with the mathematical one.
pub open spec fn mismo_dato(r: Result<Datos, ErrorType>, m: Result<Value, Failure>) -> bool {
    match r {
        Ok(d) => m == Ok::<Value, Failure>(d@),
        Err(e) => m == Err::<Value, Failure>(e@),
    }
}

/// The executable operand agrees with the mathematical one.
pub open spec fn mismo_operando(r: Result<Valor, ErrorType>, m: Result<ValueRef, Failure>) -> bool {
    match r {
        Ok(d) => m == Ok::<ValueRef, Failure>(d@),
        Err(e) => m == Err::<ValueRef, Failure>(e@),
    }
}

/// Reads a string as an integer value; anything else is a syntax error.
pub fn string_to_number(s: String) -> (r: Result<Datos, ErrorType>)
    ensures
        match r {
            Ok(d) => entero_de(s@) is Some && d@ == Value::Integer(entero_de(s@)->0),
            Err(e) => entero_de(s@) is None && e@ == numero_invalido(),
        },
{
    match leer_entero(s.as_str()) {
        Some(n) => Ok(Datos::Integer(n)),
        None => Err(error_sintaxis("Numero invalido en las listas")),
    }
}

/// The value that a bare word writes.
fn palabra_a_dato(s: &String) -> (r: Datos)
    ensures
        r@ == dato_de_palabra(s@),
{
    match leer_entero(s.as_str()) {
        Some(n) => Datos::Integer(n),
        None => Datos::String(s.clone()),
    }
}

/// The value of a bare word or a quoted text; other tokens are a syntax error.
pub fn operador_to_dato(operador: &Operador) -> (r: Result<Datos, ErrorType>)
    ensures
        mismo_dato(r, dato_de(operador@)),
{
    match operador {
        Operador::String(s) => Ok(palabra_a_dato(s)),
        Operador::Texto(s) => Ok(Datos::String(s.clone())),
        _ => Err(error_sintaxis("Se esperaba una variable")),
    }
}

/// The value inside a group that must hold one thing.
pub fn extraer_interno_lista(operador: &[Operador]) -> (r: Result<Datos, ErrorType>)
    ensures
        mismo_dato(r, escalar_interno(tokens(operador@))),
    decreases operador@,
{
    if operador.len() != 1 {
        return Err(error_sintaxis("Cantidad de elementos incorrecta"));
    }
    match &operador[0] {
        Operador::String(s) => Ok(palabra_a_dato(s)),
        Operador::Texto(s) => Ok(Datos::String(s.clone())),
        Operador::Lista(interna) => {
            proof {
                lema_grupo(operador@[0]);
            }
            extraer_interno_lista(interna.as_slice())
        },
        Operador::Comparador(_) => Err(error_sintaxis("Comparador inesperado.")),
    }
}

/// The value of a token in the place of a scalar.
pub fn operador_to_single_dato(operador: &Operador) -> (r: Result<Datos, ErrorType>)
    ensures
        mismo_dato(r, escalar(operador@)),
{
    match operador {
        Operador::String(s) => Ok(palabra_a_dato(s)),
        Operador::Texto(s) => Ok(Datos::String(s.clone())),
        Operador::Lista(lista) => {
            proof {
                lema_grupo(*operador);
            }
            extraer_interno_lista(lista.as_slice())
        },
        Operador::Comparador(_) => Err(error_sintaxis("Comparador inesperado.")),
    }
}

/// The operand inside a group that must hold one thing.
pub fn extraer_interno_lista_valor(operador: &[Operador]) -> (r: Result<Valor, ErrorType>)
    ensures
        mismo_operando(r, operando_interno(tokens(operador@))),
    decreases operador@,
{
    if operador.len() != 1 {
        return Err(error_sintaxis("Cantidad de elementos incorrecta"));
    }
    match &operador[0] {
        Operador::String(s) => Ok(Valor::String(s.clone())),
        Operador::Texto(s) => Ok(Valor::Literal(s.clone())),
        Operador::Lista(interna) => {
            proof {
                lema_grupo(operador@[0]);
            }
            extraer_interno_lista_valor(interna.as_slice())
        },
        Operador::Comparador(_) => Err(error_sintaxis("Comparador inesperado.")),
    }
}

/// The operand that a token stands for.
pub fn operador_to_single_valor(operador: &Operador) -> (r: Result<Valor, ErrorType>)
    ensures
        mismo_operando(r, operando(operador@)),
{
    match operador {
        Operador::String(s) => Ok(Valor::String(s.clone())),
        Operador::Texto(s) => Ok(Valor::Literal(s.clone())),
        Operador::Lista(lista) => {
            proof {
                lema_grupo(*operador);
            }
            extraer_interno_lista_valor(lista.as_slice())
        },
        Operador::Comparador(_) => Err(error_sintaxis("Comparador inesperado.")),
    }
}

/// The comparison that a symbol writes; anything else is a syntax error.
pub fn string_to_comparacion(comparador: &str) -> (r: Result<OperadorComparacion, ErrorType>)
    ensures
        match r {
            Ok(c) => comparacion_de(comparador@) == Ok::<OperadorComparacion, Failure>(c),
            Err(e) => comparacion_de(comparador@) == Err::<OperadorComparacion, Failure>(e@),
        },
{
    if mismo_texto(comparador, "=") {
        Ok(OperadorComparacion::Igual)
    } else if mismo_texto(comparador, ">") {
        Ok(OperadorComparacion::Mayor)
    } else if mismo_texto(comparador, "<") {
        Ok(OperadorComparacion::Menor)
    } else if mismo_texto(comparador, ">=") {
        Ok(OperadorComparacion::MayorIgual)
    } else if mismo_texto(comparador, "<=") {
        Ok(OperadorComparacion::MenorIgual)
    } else {
        Err(error_sintaxis("Operador de comparación no válido"))
    }
}

/// The direction that a word writes; anything else is a syntax error.
pub fn string_to_direccion(direccion: &str) -> (r: Result<OrderDirection, ErrorType>)
    ensures
        match r {
            Ok(d) => direccion_de(direccion@) == Ok::<OrderDirection, Failure>(d),
            Err(e) => direccion_de(direccion@) == Err::<OrderDirection, Failure>(e@),
        },
{
    if mismo_texto(direccion, "ASC") {
        Ok(OrderDirection::Asc)
    } else if mismo_texto(direccion, "DESC") {
        Ok(OrderDirection::Desc)
    } else {
        Err(error_sintaxis("Operador de direccion no válido"))
    }
}

/// The text of a value.
pub fn dato_to_string(dato: &Datos) -> (r: String)
    ensures
        r@ == texto_de_valor(dato@),
{
    match dato {
        Datos::Integer(i) => escribir_entero(*i),
        Datos::String(s) => s.clone(),
    }
}

} // verus!
