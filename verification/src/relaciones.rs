//! The order of texts, of values and of keys is a strict total order, and the
//! order of rows that an ordering sets up is total and transitive.

use vstd::prelude::*;
use crate::consultas::{OrderDirection, OrderKey};
use crate::dato::{menor_desde, valor_menor, Value};
use crate::manejo_csv::{clave_menor, par_de_claves, sigue_a};

verus! {

/// No text comes before itself.
pub proof fn lema_texto_irreflexivo(a: Seq<char>, i: int)
    requires
        0 <= i,
    ensures
        !menor_desde(a, a, i),
    decreases a.len() - i,
{
    if i < a.len() {
        lema_texto_irreflexivo(a, i + 1);
    }
}

/// Of two different texts that agree up to `i`, one comes before the other.
pub proof fn lema_texto_total(a: Seq<char>, b: Seq<char>, i: int)
    requires
        0 <= i <= a.len(),
        i <= b.len(),
        a.take(i) == b.take(i),
        a != b,
    ensures
        menor_desde(a, b, i) || menor_desde(b, a, i),
    decreases a.len() - i,
{
    if i < a.len() && i < b.len() {
        if a[i] == b[i] {
            assert(a.take(i + 1) =~= a.take(i).push(a[i]));
            assert(b.take(i + 1) =~= b.take(i).push(b[i]));
            lema_texto_total(a, b, i + 1);
        }
    } else if i == a.len() && i == b.len() {
        assert(a.take(i) =~= a);
        assert(b.take(i) =~= b);
    }
}

/// The order of texts is transitive.
pub proof fn lema_texto_transitivo(a: Seq<char>, b: Seq<char>, c: Seq<char>, i: int)
    requires
        0 <= i,
        menor_desde(a, b, i),
        menor_desde(b, c, i),
    ensures
        menor_desde(a, c, i),
    decreases a.len() - i,
{
    if i < a.len() && a[i] == b[i] && b[i] == c[i] {
        lema_texto_transitivo(a, b, c, i + 1);
    }
}

/// No value comes before itself.
pub proof fn lema_valor_irreflexivo(x: Value)
    ensures
        !valor_menor(x, x),
{
    match x {
        Value::Integer(_) => {},
        Value::Text(t) => {
            lema_texto_irreflexivo(t, 0);
        },
    }
}

/// Of two different values, one comes before the other.
pub proof fn lema_valor_total(x: Value, y: Value)
    requires
        x != y,
    ensures
        valor_menor(x, y) || valor_menor(y, x),
{
    match (x, y) {
        (Value::Text(a), Value::Text(b)) => {
            assert(a.take(0) =~= b.take(0));
            lema_texto_total(a, b, 0);
        },
        _ => {},
    }
}

/// The order of values is transitive.
pub proof fn lema_valor_transitivo(x: Value, y: Value, z: Value)
    requires
        valor_menor(x, y),
        valor_menor(y, z),
    ensures
        valor_menor(x, z),
{
    match (x, y, z) {
        (Value::Text(a), Value::Text(b), Value::Text(c)) => {
            lema_texto_transitivo(a, b, c, 0);
        },
        _ => {},
    }
}

/// No key comes before itself.
pub proof fn lema_clave_irreflexiva(p: Option<Value>)
    ensures
        !clave_menor(p, p),
{
    if let Some(x) = p {
        lema_valor_irreflexivo(x);
    }
}

/// Of two different keys, one comes before the other.
pub proof fn lema_clave_total(p: Option<Value>, q: Option<Value>)
    requires
        p != q,
    ensures
        clave_menor(p, q) || clave_menor(q, p),
{
    if let (Some(x), Some(y)) = (p, q) {
        lema_valor_total(x, y);
    }
}

/// The order of keys is transitive.
pub proof fn lema_clave_transitiva(p: Option<Value>, q: Option<Value>, r: Option<Value>)
    requires
        clave_menor(p, q),
        clave_menor(q, r),
    ensures
        clave_menor(p, r),
{
    if let (Some(x), Some(y), Some(z)) = (p, q, r) {
        lema_valor_transitivo(x, y, z);
    }
}

/// No two keys come before each other.
pub proof fn lema_clave_asimetrica(p: Option<Value>, q: Option<Value>)
    requires
        clave_menor(p, q),
    ensures
        !clave_menor(q, p),
{
    if clave_menor(q, p) {
        lema_clave_transitiva(p, q, p);
        lema_clave_irreflexiva(p);
    }
}

/// A row may stand after itself.
pub proof fn lema_sigue_reflexivo(a: Map<Seq<char>, Value>, claves: Seq<OrderKey>, k: int)
    requires
        0 <= k,
    ensures
        sigue_a(a, a, claves, k),
    decreases claves.len() - k,
{
    if k < claves.len() {
        lema_sigue_reflexivo(a, claves, k + 1);
    }
}

/// Of two rows, one may stand after the other.
pub proof fn lema_sigue_total(
    a: Map<Seq<char>, Value>,
    b: Map<Seq<char>, Value>,
    claves: Seq<OrderKey>,
    k: int,
)
    requires
        0 <= k,
    ensures
        sigue_a(a, b, claves, k) || sigue_a(b, a, claves, k),
    decreases claves.len() - k,
{
    if k < claves.len() {
        let (p, q) = par_de_claves(a, b, claves[k]);
        assert(par_de_claves(b, a, claves[k]) == (q, p));
        if p == q {
            lema_sigue_total(a, b, claves, k + 1);
        } else {
            lema_clave_total(p, q);
        }
    }
}

/// A row that may stand after a second, which may stand after a third, may
/// stand after the third.
pub proof fn lema_sigue_transitivo(
    a: Map<Seq<char>, Value>,
    b: Map<Seq<char>, Value>,
    c: Map<Seq<char>, Value>,
    claves: Seq<OrderKey>,
    k: int,
)
    requires
        0 <= k,
        sigue_a(a, b, claves, k),
        sigue_a(b, c, claves, k),
    ensures
        sigue_a(a, c, claves, k),
    decreases claves.len() - k,
{
    if k < claves.len() {
        let (pa, qb) = par_de_claves(a, b, claves[k]);
        let (pb, qc) = par_de_claves(b, c, claves[k]);
        let (pa2, qc2) = par_de_claves(a, c, claves[k]);
        match claves[k].direction {
            OrderDirection::Asc => {
                assert(pa2 == pa && qc2 == qc && pb == qb);
            },
            OrderDirection::Desc => {
                assert(pa2 == pb && qc2 == qb && pa == qc);
            },
        }
        if pa == qb {
            if pb == qc {
                lema_sigue_transitivo(a, b, c, claves, k + 1);
            }
        } else if pb == qc {
        } else {
            match claves[k].direction {
                OrderDirection::Asc => {
                    lema_clave_transitiva(qc, qb, pa);
                    lema_clave_irreflexiva(pa);
                },
                OrderDirection::Desc => {
                    lema_clave_transitiva(qb, pa, pb);
                    lema_clave_irreflexiva(pb);
                },
            }
        }
    }
}

} // verus!
