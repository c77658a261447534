//! The values that a row holds, their order, and rows as mappings from
//! column names to values.

use vstd::prelude::*;
use crate::texto::{caracteres, mismo_texto};

verus! {

/// A scalar of a row: a 64-bit integer or a text.
#[derive(Debug, PartialEq)]
pub enum Datos {
    Integer(i64),
    String(String),
}

/// The mathematical value of a [`Datos`].
pub enum Value {
    Integer(int),
    Text(Seq<char>),
}

impl View for Datos {
    type V = Value;

    open spec fn view(&self) -> Value {
        match self {
            Datos::Integer(n) => Value::Integer(*n as int),
            Datos::String(s) => Value::Text(s@),
        }
    }
}

/// `a` comes before `b` in the order of the dictionary, characters compared
/// by code point, when the two agree on the first `i` characters.
pub open spec fn menor_desde(a: Seq<char>, b: Seq<char>, i: int) -> bool
    decreases a.len() - i,
{
    if i < 0 || i >= b.len() {
        false
    } else if i >= a.len() {
        true
    } else if a[i] != b[i] {
        (a[i] as int) < (b[i] as int)
    } else {
        menor_desde(a, b, i + 1)
    }
}

/// `a` comes strictly before `b` in the order of the dictionary.
pub open spec fn texto_menor(a: Seq<char>, b: Seq<char>) -> bool {
    menor_desde(a, b, 0)
}

/// The strict order of values: integers by size, texts by the dictionary, and
/// every integer before every text.
pub open spec fn valor_menor(x: Value, y: Value) -> bool {
    match (x, y) {
        (Value::Integer(a), Value::Integer(b)) => a < b,
        (Value::Integer(_), Value::Text(_)) => true,
        (Value::Text(_), Value::Integer(_)) => false,
        (Value::Text(a), Value::Text(b)) => texto_menor(a, b),
    }
}

/// Tells whether `a` comes strictly before `b` in the order of the dictionary.
pub fn texto_es_menor(a: &str, b: &str) -> (r: bool)
    ensures
        r == texto_menor(a@, b@),
{
    let x = caracteres(a);
    let y = caracteres(b);
    let mut i: usize = 0;
    loop
        invariant
            x@ == a@,
            y@ == b@,
            i <= x@.len(),
            i <= y@.len(),
            texto_menor(a@, b@) == menor_desde(a@, b@, i as int),
        decreases x@.len() - i,
    {
        if i >= y.len() {
            return false;
        }
        if i >= x.len() {
            return true;
        }
        if x[i] != y[i] {
            return x[i] < y[i];
        }
        i += 1;
    }
}

impl Datos {
    /// A copy of the value.
    pub fn copia(&self) -> (r: Datos)
        ensures
            r@ == self@,
    {
        match self {
            Datos::Integer(n) => Datos::Integer(*n),
            Datos::String(s) => Datos::String(s.clone()),
        }
    }

    /// Tells whether the two values are the same.
    pub fn igual(&self, otro: &Datos) -> (r: bool)
        ensures
            r == (self@ == otro@),
    {
        match (self, otro) {
            (Datos::Integer(a), Datos::Integer(b)) => *a == *b,
            (Datos::String(a), Datos::String(b)) => {
                let r = mismo_texto(a.as_str(), b.as_str());
                assert(self@ == otro@ <==> a@ == b@);
                r
            },
            _ => false,
        }
    }

    /// Tells whether this value comes strictly before `otro`.
    pub fn menor(&self, otro: &Datos) -> (r: bool)
        ensures
            r == valor_menor(self@, otro@),
    {
        match (self, otro) {
            (Datos::Integer(a), Datos::Integer(b)) => *a < *b,
            (Datos::Integer(_), Datos::String(_)) => true,
            (Datos::String(_), Datos::Integer(_)) => false,
            (Datos::String(a), Datos::String(b)) => texto_es_menor(a.as_str(), b.as_str()),
        }
    }
}

/// The mapping that a list of entries builds up, later entries winning.
pub open spec fn mapa_de(e: Seq<(String, Datos)>) -> Map<Seq<char>, Value>
    decreases e.len(),
{
    if e.len() == 0 {
        Map::empty()
    } else {
        mapa_de(e.drop_last()).insert(e.last().0@, e.last().1@)
    }
}

/// Replacing the last entry of a key changes the mapping at that key only.
proof fn lema_reemplazo(e: Seq<(String, Datos)>, j: int, nuevo: (String, Datos))
    requires
        0 <= j < e.len(),
        e[j].0@ == nuevo.0@,
        forall|i: int| j < i < e.len() ==> (#[trigger] e[i]).0@ != nuevo.0@,
    ensures
        mapa_de(e.update(j, nuevo)) == mapa_de(e).insert(nuevo.0@, nuevo.1@),
    decreases e.len(),
{
    let e2 = e.update(j, nuevo);
    if j == e.len() - 1 {
        assert(e2.drop_last() =~= e.drop_last());
        assert(mapa_de(e2) =~= mapa_de(e).insert(nuevo.0@, nuevo.1@));
    } else {
        let ultimo = e.last();
        assert(e[e.len() - 1].0@ != nuevo.0@);
        assert(e2.drop_last() =~= e.drop_last().update(j, nuevo));
        assert forall|i: int| j < i < e.drop_last().len() implies (#[trigger] e.drop_last()[i]).0@
            != nuevo.0@ by {
            assert(e.drop_last()[i] == e[i]);
        }
        lema_reemplazo(e.drop_last(), j, nuevo);
        assert(e2.last() == ultimo);
        assert(mapa_de(e2) =~= mapa_de(e).insert(nuevo.0@, nuevo.1@));
    }
}

/// A row, or a set of changes to one: a finite mapping from column names to
/// values. `==` holds of two rows that were given the same columns in the same
/// order, with the same values.
#[derive(Debug, PartialEq)]
pub struct Fila {
    entradas: Vec<(String, Datos)>,
}

impl View for Fila {
    type V = Map<Seq<char>, Value>;

    closed spec fn view(&self) -> Map<Seq<char>, Value> {
        mapa_de(self.entradas@)
    }
}

/// No two entries have the same key.
pub open spec fn sin_repetir(e: Seq<(String, Datos)>) -> bool {
    forall|i: int, j: int| 0 <= i < j < e.len() ==> (#[trigger] e[i]).0@ != (#[trigger] e[j]).0@
}

impl Fila {
    #[verifier::type_invariant]
    spec fn bien_formada(self) -> bool {
        sin_repetir(self.entradas@)
    }

    /// The number of columns that have a value.
    pub fn len(&self) -> (r: usize)
        ensures
            self@.dom().finite(),
            r == self@.dom().len(),
    {
        proof {
            use_type_invariant(self);
            lema_tamano(self.entradas@);
        }
        self.entradas.len()
    }

    /// The empty mapping.
    pub fn new() -> (r: Fila)
        ensures
            r@ == Map::<Seq<char>, Value>::empty(),
    {
        Fila { entradas: Vec::new() }
    }

    /// The position of the last entry for `columna`, if there is one.
    fn posicion(&self, columna: &str) -> (r: Option<usize>)
        ensures
            match r {
                Some(j) => j < self.entradas@.len() && self.entradas@[j as int].0@ == columna@
                    && forall|i: int|
                    j < i < self.entradas@.len() ==> (#[trigger] self.entradas@[i]).0@
                        != columna@,
                None => forall|i: int|
                    0 <= i < self.entradas@.len() ==> (#[trigger] self.entradas@[i]).0@
                        != columna@,
            },
    {
        let mut i: usize = self.entradas.len();
        while i > 0
            invariant
                i <= self.entradas@.len(),
                forall|k: int|
                    i <= k < self.entradas@.len() ==> (#[trigger] self.entradas@[k]).0@
                        != columna@,
            decreases i,
        {
            i -= 1;
            if mismo_texto(self.entradas[i].0.as_str(), columna) {
                return Some(i);
            }
        }
        None
    }

    /// Sets the value of `columna`, replacing the one it had.
    pub fn insert(&mut self, columna: String, valor: Datos)
        ensures
            final(self)@ == old(self)@.insert(columna@, valor@),
    {
        proof {
            use_type_invariant(&*self);
        }
        let posicion = self.posicion(columna.as_str());
        let mut vacia = Fila { entradas: Vec::new() };
        core::mem::swap(self, &mut vacia);
        let Fila { entradas: mut e } = vacia;
        let ghost antes = e@;
        let ghost nuevo = (columna, valor);
        match posicion {
            Some(j) => {
                proof {
                    lema_reemplazo(antes, j as int, nuevo);
                }
                e.set(j, (columna, valor));
                assert(sin_repetir(e@)) by {
                    assert forall|a: int, b: int| 0 <= a < b < e@.len() implies (#[trigger] e@[a]).0@
                        != (#[trigger] e@[b]).0@ by {
                        assert(e@[a].0@ == antes[a].0@);
                        assert(e@[b].0@ == antes[b].0@);
                    }
                }
            },
            None => {
                e.push((columna, valor));
                assert(e@.drop_last() =~= antes);
                assert(sin_repetir(e@)) by {
                    assert forall|a: int, b: int| 0 <= a < b < e@.len() implies (#[trigger] e@[a]).0@
                        != (#[trigger] e@[b]).0@ by {
                        assert(e@[a] == antes[a]);
                        if b < antes.len() {
                            assert(e@[b] == antes[b]);
                        }
                    }
                }
            },
        }
        *self = Fila { entradas: e };
    }

    /// The value of `columna`, if the mapping has one.
    pub fn get(&self, columna: &str) -> (r: Option<&Datos>)
        ensures
            match r {
                Some(d) => self@.contains_key(columna@) && self@[columna@] == d@,
                None => !self@.contains_key(columna@),
            },
    {
        match self.posicion(columna) {
            Some(j) => {
                proof {
                    lema_entrada(self.entradas@, j as int);
                }
                Some(&self.entradas[j].1)
            },
            None => {
                proof {
                    lema_ausente(self.entradas@, columna@);
                }
                None
            },
        }
    }

    /// Tells whether the mapping is empty.
    pub fn is_empty(&self) -> (r: bool)
        ensures
            r == (self@ == Map::<Seq<char>, Value>::empty()),
    {
        let r = self.entradas.len() == 0;
        proof {
            if !r {
                let u = self.entradas@.last();
                assert(self@.contains_key(u.0@));
            }
        }
        r
    }
}

/// Entries with distinct keys build a mapping with as many keys.
proof fn lema_tamano(e: Seq<(String, Datos)>)
    requires
        sin_repetir(e),
    ensures
        mapa_de(e).dom().finite(),
        mapa_de(e).dom().len() == e.len(),
    decreases e.len(),
{
    if e.len() > 0 {
        let antes = e.drop_last();
        assert(sin_repetir(antes)) by {
            assert forall|i: int, j: int| 0 <= i < j < antes.len() implies (#[trigger] antes[i]).0@
                != (#[trigger] antes[j]).0@ by {
                assert(antes[i] == e[i] && antes[j] == e[j]);
            }
        }
        lema_tamano(antes);
        assert forall|i: int| 0 <= i < antes.len() implies (#[trigger] antes[i]).0@
            != e.last().0@ by {
            assert(antes[i] == e[i]);
            assert(e.last() == e[e.len() - 1]);
        }
        lema_ausente(antes, e.last().0@);
        assert(mapa_de(e).dom() =~= mapa_de(antes).dom().insert(e.last().0@));
    } else {
        assert(mapa_de(e).dom() =~= Set::<Seq<char>>::empty());
    }
}

/// The last entry of a key gives the mapping's value at that key.
proof fn lema_entrada(e: Seq<(String, Datos)>, j: int)
    requires
        0 <= j < e.len(),
        forall|i: int| j < i < e.len() ==> (#[trigger] e[i]).0@ != e[j].0@,
    ensures
        mapa_de(e).contains_key(e[j].0@),
        mapa_de(e)[e[j].0@] == e[j].1@,
    decreases e.len(),
{
    if j < e.len() - 1 {
        assert(e[e.len() - 1].0@ != e[j].0@);
        assert forall|i: int| j < i < e.drop_last().len() implies (#[trigger] e.drop_last()[i]).0@
            != e[j].0@ by {
            assert(e.drop_last()[i] == e[i]);
        }
        lema_entrada(e.drop_last(), j);
    }
}

/// A key that no entry has is not in the mapping.
proof fn lema_ausente(e: Seq<(String, Datos)>, k: Seq<char>)
    requires
        forall|i: int| 0 <= i < e.len() ==> (#[trigger] e[i]).0@ != k,
    ensures
        !mapa_de(e).contains_key(k),
    decreases e.len(),
{
    if e.len() > 0 {
        assert(e[e.len() - 1].0@ != k);
        assert forall|i: int| 0 <= i < e.drop_last().len() implies (#[trigger] e.drop_last()[i]).0@
            != k by {
            assert(e.drop_last()[i] == e[i]);
        }
        lema_ausente(e.drop_last(), k);
    }
}

} // verus!
