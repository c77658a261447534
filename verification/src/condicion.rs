//! The condition of a statement: comparisons joined by `AND`, `OR` and `NOT`,
//! and what a condition is worth on a row.

use vstd::prelude::*;
use vstd::string::StringExecFns;
use crate::dato::{valor_menor, Datos, Fila, Value};
use crate::enteros::{entero_de, leer_entero};
use crate::errores::{ErrorType, Failure};

verus! {

/// An operand of a comparison.
#[derive(Debug, PartialEq)]
pub enum Valor {
    /// A bare word: the name of a column, or else a number.
    String(String),
    /// A quoted text, which stands for itself.
    Literal(String),
}

/// The mathematical value of a [`Valor`].
pub enum ValueRef {
    ColumnOrNumber(Seq<char>),
    Literal(Seq<char>),
}

impl View for Valor {
    type V = ValueRef;

    open spec fn view(&self) -> ValueRef {
        match self {
            Valor::String(s) => ValueRef::ColumnOrNumber(s@),
            Valor::Literal(s) => ValueRef::Literal(s@),
        }
    }
}

/// The five comparisons.
#[derive(Debug, PartialEq, Eq, Clone, Copy, Structural)]
pub enum OperadorComparacion {
    Igual,
    Menor,
    MenorIgual,
    Mayor,
    MayorIgual,
}

/// A condition on a row.
#[derive(Debug, PartialEq)]
pub enum ExpresionBooleana {
    Comparacion { izq: Valor, operador: OperadorComparacion, der: Valor },
    And(Box<ExpresionBooleana>, Box<ExpresionBooleana>),
    Or(Box<ExpresionBooleana>, Box<ExpresionBooleana>),
    Not(Box<ExpresionBooleana>),
}

/// The mathematical value of an [`ExpresionBooleana`].
pub enum BooleanExpr {
    Comparison { left: ValueRef, operator: OperadorComparacion, right: ValueRef },
    And(Box<BooleanExpr>, Box<BooleanExpr>),
    Or(Box<BooleanExpr>, Box<BooleanExpr>),
    Not(Box<BooleanExpr>),
}

impl View for ExpresionBooleana {
    type V = BooleanExpr;

    open spec fn view(&self) -> BooleanExpr
        decreases self,
    {
        match self {
            ExpresionBooleana::Comparacion { izq, operador, der } => BooleanExpr::Comparison {
                left: izq@,
                operator: *operador,
                right: der@,
            },
            ExpresionBooleana::And(a, b) => BooleanExpr::And(
                Box::new((**a).view()),
                Box::new((**b).view()),
            ),
            ExpresionBooleana::Or(a, b) => BooleanExpr::Or(
                Box::new((**a).view()),
                Box::new((**b).view()),
            ),
            ExpresionBooleana::Not(a) => BooleanExpr::Not(Box::new((**a).view())),
        }
    }
}

/// The failure of an operand that names no column and writes no number.
pub open spec fn valor_desconocido(nombre: Seq<char>) -> Failure {
    Failure::InvalidSyntax(
        "El valor '"@ + nombre + "' no existe como columna ni es un numero."@,
    )
}

/// What an operand stands for on a row. A bare word is the value of the column
/// of that name where the row has one; else the integer it writes; else a
/// failure. A quoted text is itself.
pub open spec fn resolver(v: ValueRef, fila: Map<Seq<char>, Value>) -> Result<Value, Failure> {
    match v {
        ValueRef::ColumnOrNumber(t) => if fila.contains_key(t) {
            Ok(fila[t])
        } else {
            match entero_de(t) {
                Some(n) => Ok(Value::Integer(n)),
                None => Err(valor_desconocido(t)),
            }
        },
        ValueRef::Literal(t) => Ok(Value::Text(t)),
    }
}

/// Whether the comparison holds of two values, in the order of values.
pub open spec fn comparar(op: OperadorComparacion, a: Value, b: Value) -> bool {
    match op {
        OperadorComparacion::Igual => a == b,
        OperadorComparacion::Menor => valor_menor(a, b),
        OperadorComparacion::MenorIgual => valor_menor(a, b) || a == b,
        OperadorComparacion::Mayor => valor_menor(b, a),
        OperadorComparacion::MayorIgual => valor_menor(b, a) || a == b,
    }
}

/// What a condition is worth on a row. The operands of a comparison are
/// resolved left first. `AND` and `OR` look at their right side only where the
/// left side has not decided, so a failure there goes unseen.
pub open spec fn evaluar_en(e: BooleanExpr, fila: Map<Seq<char>, Value>) -> Result<bool, Failure>
    decreases e,
{
    match e {
        BooleanExpr::Comparison { left, operator, right } => match resolver(left, fila) {
            Err(f) => Err(f),
            Ok(a) => match resolver(right, fila) {
                Err(f) => Err(f),
                Ok(b) => Ok(comparar(operator, a, b)),
            },
        },
        BooleanExpr::And(a, b) => match evaluar_en(*a, fila) {
            Err(f) => Err(f),
            Ok(false) => Ok(false),
            Ok(true) => evaluar_en(*b, fila),
        },
        BooleanExpr::Or(a, b) => match evaluar_en(*a, fila) {
            Err(f) => Err(f),
            Ok(true) => Ok(true),
            Ok(false) => evaluar_en(*b, fila),
        },
        BooleanExpr::Not(a) => match evaluar_en(*a, fila) {
            Err(f) => Err(f),
            Ok(b) => Ok(!b),
        },
    }
}

/// The executable result agrees with the mathematical one.
pub open spec fn mismo_resultado(r: Result<bool, ErrorType>, m: Result<bool, Failure>) -> bool {
    match r {
        Ok(b) => m == Ok::<bool, Failure>(b),
        Err(e) => m == Err::<bool, Failure>(e@),
    }
}

/// What an operand stands for on a row.
pub fn evaluar_valor(valor: &Valor, fila: &Fila) -> (r: Result<Datos, ErrorType>)
    ensures
        match r {
            Ok(d) => resolver(valor@, fila@) == Ok::<Value, Failure>(d@),
            Err(e) => resolver(valor@, fila@) == Err::<Value, Failure>(e@),
        },
{
    match valor {
        Valor::String(s) => {
            match fila.get(s.as_str()) {
                Some(d) => Ok(d.copia()),
                None => match leer_entero(s.as_str()) {
                    Some(n) => Ok(Datos::Integer(n)),
                    None => {
                        let m = String::from_str("El valor '").concat(s.as_str()).concat(
                            "' no existe como columna ni es un numero.",
                        );
                        Err(ErrorType::InvalidSyntax(m))
                    },
                },
            }
        },
        Valor::Literal(t) => Ok(Datos::String(t.clone())),
    }
}

/// Tells whether the comparison holds of two values.
pub fn comparacion_vale(op: OperadorComparacion, a: &Datos, b: &Datos) -> (r: bool)
    ensures
        r == comparar(op, a@, b@),
{
    match op {
        OperadorComparacion::Igual => a.igual(b),
        OperadorComparacion::Menor => a.menor(b),
        OperadorComparacion::MenorIgual => a.menor(b) || a.igual(b),
        OperadorComparacion::Mayor => b.menor(a),
        OperadorComparacion::MayorIgual => b.menor(a) || a.igual(b),
    }
}

/// Something that is true or false of a row.
pub trait Evaluar {
    /// What `evaluar` computes.
    spec fn valor_en(&self, fila: Map<Seq<char>, Value>) -> Result<bool, Failure>;

    /// Tells whether `self` holds of the row.
    fn evaluar(&self, fila: &Fila) -> (r: Result<bool, ErrorType>)
        ensures
            mismo_resultado(r, self.valor_en(fila@)),
    ;
}

impl Evaluar for ExpresionBooleana {
    open spec fn valor_en(&self, fila: Map<Seq<char>, Value>) -> Result<bool, Failure> {
        evaluar_en(self@, fila)
    }

    fn evaluar(&self, fila: &Fila) -> (r: Result<bool, ErrorType>)
        decreases self,
    {
        match self {
            ExpresionBooleana::Comparacion { izq, operador, der } => {
                let a = evaluar_valor(izq, fila)?;
                let b = evaluar_valor(der, fila)?;
                Ok(comparacion_vale(*operador, &a, &b))
            },
            ExpresionBooleana::And(a, b) => {
                if a.evaluar(fila)? {
                    b.evaluar(fila)
                } else {
                    Ok(false)
                }
            },
            ExpresionBooleana::Or(a, b) => {
                if a.evaluar(fila)? {
                    Ok(true)
                } else {
                    b.evaluar(fila)
                }
            },
            ExpresionBooleana::Not(a) => {
                let v = a.evaluar(fila)?;
                Ok(!v)
            },
        }
    }
}

} // verus!
