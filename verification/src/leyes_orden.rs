//! Laws of the ordering of rows: what the passes give is in order, it holds
//! the same rows, and rows that the ordering does not tell apart stay as they
//! came.

use vstd::prelude::*;
use vstd::multiset::Multiset;
use crate::consultas::{OrderDirection, OrderKey};
use crate::errores::Failure;
use crate::manejo_csv::{clave_en, clave_menor, decodificar, linea_sigue_a, sigue_a};
use crate::orden::{ordenar, ordenar_en, pasada, pasada_desde};
use crate::relaciones::{
    lema_clave_asimetrica,
    lema_clave_irreflexiva,
    lema_sigue_reflexivo,
    lema_sigue_total,
    lema_sigue_transitivo,
};

verus! {

/// The line can be read as a row of a table with these columns.
pub open spec fn legible(l: Seq<char>, columnas: Seq<Seq<char>>) -> bool {
    decodificar(l, columnas) is Ok
}

/// Both lines can be read, and the row of `x` may stand after the row of `y`.
pub open spec fn va_despues(
    x: Seq<char>,
    y: Seq<char>,
    claves: Seq<OrderKey>,
    columnas: Seq<Seq<char>>,
) -> bool {
    linea_sigue_a(x, y, claves, columnas) == Ok::<bool, Failure>(true)
}

/// Each row may stand after the one before it.
pub open spec fn en_orden(fs: Seq<Seq<char>>, claves: Seq<OrderKey>, columnas: Seq<Seq<char>>) -> bool {
    forall|j: int|
        0 <= j < fs.len() - 1 ==> va_despues(fs[j + 1], #[trigger] fs[j], claves, columnas)
}

/// Each row from the `m`-th on may stand after every row before it.
pub open spec fn final_desde(
    fs: Seq<Seq<char>>,
    m: int,
    claves: Seq<OrderKey>,
    columnas: Seq<Seq<char>>,
) -> bool {
    forall|p: int, q: int|
        m <= p < fs.len() && 0 <= q < p ==> va_despues(
            #[trigger] fs[p],
            #[trigger] fs[q],
            claves,
            columnas,
        )
}

/// A line that can be read may stand after itself.
pub proof fn lema_va_reflexivo(x: Seq<char>, claves: Seq<OrderKey>, columnas: Seq<Seq<char>>)
    requires
        legible(x, columnas),
    ensures
        va_despues(x, x, claves, columnas),
{
    lema_sigue_reflexivo(decodificar(x, columnas)->Ok_0, claves, 0);
}

/// Of two lines that can be read, one may stand after the other.
pub proof fn lema_va_total(
    x: Seq<char>,
    y: Seq<char>,
    claves: Seq<OrderKey>,
    columnas: Seq<Seq<char>>,
)
    requires
        legible(x, columnas),
        legible(y, columnas),
    ensures
        va_despues(x, y, claves, columnas) || va_despues(y, x, claves, columnas),
{
    lema_sigue_total(
        decodificar(x, columnas)->Ok_0,
        decodificar(y, columnas)->Ok_0,
        claves,
        0,
    );
}

/// Standing after is transitive.
pub proof fn lema_va_transitivo(
    x: Seq<char>,
    y: Seq<char>,
    z: Seq<char>,
    claves: Seq<OrderKey>,
    columnas: Seq<Seq<char>>,
)
    requires
        va_despues(x, y, claves, columnas),
        va_despues(y, z, claves, columnas),
    ensures
        va_despues(x, z, claves, columnas),
{
    lema_sigue_transitivo(
        decodificar(x, columnas)->Ok_0,
        decodificar(y, columnas)->Ok_0,
        decodificar(z, columnas)->Ok_0,
        claves,
        0,
    );
}

/// The rest of a pass, from a state that a pass can be in, ends with the rows
/// from the `m - 1`-th on in their final places, when those from the `m`-th on
/// were so before the pass; and a pass that moves nothing found the rows in
/// order.
proof fn lema_pasada_desde(
    fs: Seq<Seq<char>>,
    claves: Seq<OrderKey>,
    columnas: Seq<Seq<char>>,
    m: int,
    i: int,
    ci: int,
    salida: Seq<Seq<char>>,
    origen: Seq<int>,
    cambios: bool,
)
    requires
        1 <= i <= fs.len(),
        final_desde(fs, m, claves, columnas),
        0 <= ci < i,
        salida.len() == i - 1,
        origen.len() == salida.len(),
        forall|q: int|
            0 <= q < salida.len() ==> 0 <= #[trigger] origen[q] < i && salida[q] == fs[origen[q]],
        i >= 2 ==> forall|j: int|
            0 <= j < i ==> va_despues(fs[ci], #[trigger] fs[j], claves, columnas),
        forall|p: int, q: int|
            m - 1 <= p < salida.len() && 0 <= q < p ==> va_despues(
                #[trigger] salida[p],
                #[trigger] salida[q],
                claves,
                columnas,
            ),
        !cambios ==> salida == fs.take(i - 1) && ci == i - 1 && forall|j: int|
            0 <= j < i - 1 ==> va_despues(fs[j + 1], #[trigger] fs[j], claves, columnas),
    ensures
        match pasada_desde(fs, claves, columnas, i, fs[ci], salida, cambios) {
            Ok((d, c)) => d.len() == fs.len() && final_desde(d, m - 1, claves, columnas) && (!c
                ==> d == fs && en_orden(fs, claves, columnas)),
            Err(_) => true,
        },
    decreases fs.len() - i,
{
    let c = fs[ci];
    if i >= fs.len() {
        let d = salida.push(c);
        assert forall|p: int, q: int| m - 1 <= p < d.len() && 0 <= q < p implies va_despues(
            #[trigger] d[p],
            #[trigger] d[q],
            claves,
            columnas,
        ) by {
            if p < salida.len() {
                assert(d[p] == salida[p] && d[q] == salida[q]);
            } else {
                assert(d[q] == salida[q]);
                assert(0 <= origen[q] < i);
                assert(va_despues(fs[ci], fs[origen[q]], claves, columnas));
            }
        }
        if !cambios {
            assert(d =~= fs);
        }
    } else {
        match linea_sigue_a(fs[i], c, claves, columnas) {
            Err(_) => {},
            Ok(true) => {
                let salida2 = salida.push(c);
                let origen2 = origen.push(ci);
                assert forall|j: int| 0 <= j < i + 1 implies va_despues(
                    fs[i],
                    #[trigger] fs[j],
                    claves,
                    columnas,
                ) by {
                    if j == i {
                        lema_va_reflexivo(fs[i], claves, columnas);
                    } else if i >= 2 {
                        lema_va_transitivo(fs[i], c, fs[j], claves, columnas);
                    }
                }
                assert forall|p: int, q: int|
                    m - 1 <= p < salida2.len() && 0 <= q < p implies va_despues(
                    #[trigger] salida2[p],
                    #[trigger] salida2[q],
                    claves,
                    columnas,
                ) by {
                    if p < salida.len() {
                        assert(salida2[p] == salida[p] && salida2[q] == salida[q]);
                    } else {
                        assert(salida2[q] == salida[q]);
                        assert(0 <= origen[q] < i);
                        assert(va_despues(fs[ci], fs[origen[q]], claves, columnas));
                    }
                }
                assert forall|q: int| 0 <= q < salida2.len() implies 0 <= #[trigger] origen2[q] < i
                    + 1 && salida2[q] == fs[origen2[q]] by {
                    if q < salida.len() {
                        assert(origen2[q] == origen[q]);
                        assert(salida2[q] == salida[q]);
                    }
                }
                if !cambios {
                    assert(salida2 =~= fs.take(i));
                    assert forall|j: int| 0 <= j < i implies va_despues(
                        fs[j + 1],
                        #[trigger] fs[j],
                        claves,
                        columnas,
                    ) by {
                        if j == i - 1 {
                            assert(fs[j] == c);
                        }
                    }
                }
                lema_pasada_desde(fs, claves, columnas, m, i + 1, i, salida2, origen2, cambios);
            },
            Ok(false) => {
                let salida2 = salida.push(fs[i]);
                let origen2 = origen.push(i);
                assert(legible(fs[i], columnas) && legible(c, columnas));
                lema_va_total(fs[i], c, claves, columnas);
                assert forall|j: int| 0 <= j < i + 1 implies va_despues(
                    fs[ci],
                    #[trigger] fs[j],
                    claves,
                    columnas,
                ) by {
                    if j < i && i < 2 {
                        lema_va_reflexivo(c, claves, columnas);
                    }
                }
                if i >= m {
                    assert(va_despues(fs[i], fs[ci], claves, columnas));
                }
                assert forall|p: int, q: int|
                    m - 1 <= p < salida2.len() && 0 <= q < p implies va_despues(
                    #[trigger] salida2[p],
                    #[trigger] salida2[q],
                    claves,
                    columnas,
                ) by {
                    assert(p < salida.len());
                    assert(salida2[p] == salida[p] && salida2[q] == salida[q]);
                }
                assert forall|q: int| 0 <= q < salida2.len() implies 0 <= #[trigger] origen2[q] < i
                    + 1 && salida2[q] == fs[origen2[q]] by {
                    if q < salida.len() {
                        assert(origen2[q] == origen[q]);
                        assert(salida2[q] == salida[q]);
                    }
                }
                lema_pasada_desde(fs, claves, columnas, m, i + 1, ci, salida2, origen2, true);
            },
        }
    }
}

/// A pass leaves one more row in its final place, and a pass that moves
/// nothing found the rows in order.
pub proof fn lema_pasada(fs: Seq<Seq<char>>, claves: Seq<OrderKey>, columnas: Seq<Seq<char>>, m: int)
    requires
        final_desde(fs, m, claves, columnas),
    ensures
        match pasada(fs, claves, columnas) {
            Ok((d, c)) => d.len() == fs.len() && final_desde(d, m - 1, claves, columnas) && (!c
                ==> d == fs && en_orden(fs, claves, columnas)),
            Err(_) => true,
        },
{
    if fs.len() > 0 {
        assert(fs.take(0) =~= Seq::<Seq<char>>::empty());
        lema_pasada_desde(fs, claves, columnas, m, 1, 0, Seq::empty(), Seq::empty(), false);
    }
}

/// As many passes as there are rows not yet in their final places put the
/// rows in order.
pub proof fn lema_ordenar_en(
    fs: Seq<Seq<char>>,
    claves: Seq<OrderKey>,
    columnas: Seq<Seq<char>>,
    vueltas: nat,
)
    requires
        final_desde(fs, vueltas as int, claves, columnas),
    ensures
        match ordenar_en(fs, claves, columnas, vueltas) {
            Ok(d) => d.len() == fs.len() && en_orden(d, claves, columnas),
            Err(_) => true,
        },
    decreases vueltas,
{
    if vueltas == 0 {
        assert forall|j: int| 0 <= j < fs.len() - 1 implies va_despues(
            fs[j + 1],
            #[trigger] fs[j],
            claves,
            columnas,
        ) by {
            assert(va_despues(fs[j + 1], fs[j], claves, columnas));
        }
    } else {
        lema_pasada(fs, claves, columnas, vueltas as int);
        match pasada(fs, claves, columnas) {
            Ok((d, c)) => {
                if c {
                    lema_ordenar_en(d, claves, columnas, (vueltas - 1) as nat);
                }
            },
            Err(_) => {},
        }
    }
}

/// Rows that were put in order are in order: each one may stand after the one
/// before it, by the clauses of the ordering. There are as many rows as
/// before.
pub proof fn ley_orden(
    fs: Seq<Seq<char>>,
    claves: Seq<OrderKey>,
    columnas: Seq<Seq<char>>,
)
    requires
        claves.len() > 0,
        ordenar(fs, Some(claves), columnas) is Ok,
    ensures
        ordenar(fs, Some(claves), columnas)->Ok_0.len() == fs.len(),
        en_orden(ordenar(fs, Some(claves), columnas)->Ok_0, claves, columnas),
{
    lema_ordenar_en(fs, claves, columnas, fs.len());
}

/// In rows that are in order, each row may stand after every row before it.
pub proof fn lema_orden_en_pares(
    fs: Seq<Seq<char>>,
    claves: Seq<OrderKey>,
    columnas: Seq<Seq<char>>,
    i: int,
    j: int,
)
    requires
        en_orden(fs, claves, columnas),
        0 <= i < j < fs.len(),
    ensures
        va_despues(fs[j], fs[i], claves, columnas),
    decreases j - i,
{
    assert(va_despues(fs[j - 1 + 1], fs[j - 1], claves, columnas));
    if i < j - 1 {
        lema_orden_en_pares(fs, claves, columnas, i, j - 1);
        lema_va_transitivo(fs[j], fs[j - 1], fs[i], claves, columnas);
    }
}

/// Rows put in order by one column ascending and a second one descending do
/// not go down on the first column, and among rows that agree on the first
/// they do not go up on the second.
pub proof fn ley_orden_dos_claves(
    fs: Seq<Seq<char>>,
    c1: Seq<char>,
    c2: Seq<char>,
    columnas: Seq<Seq<char>>,
    i: int,
    j: int,
)
    requires
        ordenar(
            fs,
            Some(
                seq![
                    OrderKey { column: c1, direction: OrderDirection::Asc },
                    OrderKey { column: c2, direction: OrderDirection::Desc },
                ],
            ),
            columnas,
        ) is Ok,
        0 <= i < j < fs.len(),
    ensures
        ({
            let salida = ordenar(
                fs,
                Some(
                    seq![
                        OrderKey { column: c1, direction: OrderDirection::Asc },
                        OrderKey { column: c2, direction: OrderDirection::Desc },
                    ],
                ),
                columnas,
            )->Ok_0;
            let a = decodificar(salida[i], columnas);
            let b = decodificar(salida[j], columnas);
            &&& salida.len() == fs.len()
            &&& a is Ok
            &&& b is Ok
            &&& !clave_menor(clave_en(b->Ok_0, c1), clave_en(a->Ok_0, c1))
            &&& clave_en(a->Ok_0, c1) == clave_en(b->Ok_0, c1) ==> !clave_menor(
                clave_en(a->Ok_0, c2),
                clave_en(b->Ok_0, c2),
            )
        }),
{
    let claves = seq![
        OrderKey { column: c1, direction: OrderDirection::Asc },
        OrderKey { column: c2, direction: OrderDirection::Desc },
    ];
    let salida = ordenar(fs, Some(claves), columnas)->Ok_0;
    ley_orden(fs, claves, columnas);
    lema_orden_en_pares(salida, claves, columnas, i, j);
    let a = decodificar(salida[i], columnas)->Ok_0;
    let b = decodificar(salida[j], columnas)->Ok_0;
    assert(sigue_a(b, a, claves, 0));
    reveal_with_fuel(sigue_a, 3);
    let p1 = clave_en(b, c1);
    let q1 = clave_en(a, c1);
    if p1 != q1 {
        lema_clave_asimetrica(q1, p1);
    } else {
        lema_clave_irreflexiva(p1);
        let p2 = clave_en(a, c2);
        let q2 = clave_en(b, c2);
        if p2 != q2 {
            lema_clave_asimetrica(q2, p2);
        } else {
            lema_clave_irreflexiva(p2);
        }
    }
}

/// The rest of a pass puts down the rows that were put down before, the row
/// that is carried and the rows that are left, each as often as it occurs.
proof fn lema_pasada_desde_conserva(
    fs: Seq<Seq<char>>,
    claves: Seq<OrderKey>,
    columnas: Seq<Seq<char>>,
    i: int,
    llevada: Seq<char>,
    salida: Seq<Seq<char>>,
    cambios: bool,
)
    requires
        0 <= i <= fs.len(),
    ensures
        match pasada_desde(fs, claves, columnas, i, llevada, salida, cambios) {
            Ok((d, _)) => d.to_multiset() == salida.to_multiset().insert(llevada).add(
                fs.skip(i).to_multiset(),
            ),
            Err(_) => true,
        },
    decreases fs.len() - i,
{
    broadcast use vstd::seq_lib::group_to_multiset_ensures;

    if i >= fs.len() {
        assert(fs.skip(i) =~= Seq::<Seq<char>>::empty());
        assert(fs.skip(i).to_multiset() =~= Multiset::<Seq<char>>::empty());
        assert(salida.push(llevada).to_multiset() =~= salida.to_multiset().insert(llevada).add(
            fs.skip(i).to_multiset(),
        ));
    } else {
        assert(fs.skip(i) =~= fs.skip(i + 1).insert(0, fs[i]));
        assert(fs.skip(i).to_multiset() == fs.skip(i + 1).to_multiset().insert(fs[i]));
        match linea_sigue_a(fs[i], llevada, claves, columnas) {
            Err(_) => {},
            Ok(true) => {
                lema_pasada_desde_conserva(
                    fs,
                    claves,
                    columnas,
                    i + 1,
                    fs[i],
                    salida.push(llevada),
                    cambios,
                );
                assert(salida.push(llevada).to_multiset().insert(fs[i]).add(
                    fs.skip(i + 1).to_multiset(),
                ) =~= salida.to_multiset().insert(llevada).add(fs.skip(i).to_multiset()));
            },
            Ok(false) => {
                lema_pasada_desde_conserva(
                    fs,
                    claves,
                    columnas,
                    i + 1,
                    llevada,
                    salida.push(fs[i]),
                    true,
                );
                assert(salida.push(fs[i]).to_multiset().insert(llevada).add(
                    fs.skip(i + 1).to_multiset(),
                ) =~= salida.to_multiset().insert(llevada).add(fs.skip(i).to_multiset()));
            },
        }
    }
}

/// Passes give back the rows they were given, each as often as it occurs.
proof fn lema_ordenar_en_conserva(
    fs: Seq<Seq<char>>,
    claves: Seq<OrderKey>,
    columnas: Seq<Seq<char>>,
    vueltas: nat,
)
    ensures
        match ordenar_en(fs, claves, columnas, vueltas) {
            Ok(d) => d.to_multiset() == fs.to_multiset(),
            Err(_) => true,
        },
    decreases vueltas,
{
    broadcast use vstd::seq_lib::group_to_multiset_ensures;

    if vueltas > 0 {
        if fs.len() > 0 {
            lema_pasada_desde_conserva(fs, claves, columnas, 1, fs[0], Seq::empty(), false);
            assert(fs =~= fs.skip(1).insert(0, fs[0]));
            assert(Seq::<Seq<char>>::empty().to_multiset() =~= Multiset::<Seq<char>>::empty());
            assert(Seq::<Seq<char>>::empty().to_multiset().insert(fs[0]).add(
                fs.skip(1).to_multiset(),
            ) =~= fs.to_multiset());
        }
        match pasada(fs, claves, columnas) {
            Ok((d, c)) => {
                if c {
                    lema_ordenar_en_conserva(d, claves, columnas, (vueltas - 1) as nat);
                }
            },
            Err(_) => {},
        }
    }
}

/// Putting rows in order neither adds nor loses a row: what comes out holds
/// the rows that went in, each as often as it occurred.
pub proof fn ley_orden_conserva(
    fs: Seq<Seq<char>>,
    orden: Option<Seq<OrderKey>>,
    columnas: Seq<Seq<char>>,
)
    requires
        ordenar(fs, orden, columnas) is Ok,
    ensures
        ordenar(fs, orden, columnas)->Ok_0.to_multiset() == fs.to_multiset(),
{
    if let Some(cs) = orden {
        if cs.len() > 0 {
            lema_ordenar_en_conserva(fs, cs, columnas, fs.len());
        }
    }
}

/// Each of the two lines may stand after the other: the ordering does not
/// tell them apart.
pub open spec fn empatan(
    x: Seq<char>,
    y: Seq<char>,
    claves: Seq<OrderKey>,
    columnas: Seq<Seq<char>>,
) -> bool {
    va_despues(x, y, claves, columnas) && va_despues(y, x, claves, columnas)
}

/// The rows `a` are the rows `de` in another order, `perm` giving for each
/// place of `a` the place in `de` that its row comes from, and rows that the
/// ordering does not tell apart come in `a` as they came in `de`.
pub open spec fn reordena_estable(
    perm: Seq<int>,
    de: Seq<Seq<char>>,
    a: Seq<Seq<char>>,
    claves: Seq<OrderKey>,
    columnas: Seq<Seq<char>>,
) -> bool {
    &&& perm.len() == a.len()
    &&& de.len() == a.len()
    &&& forall|i: int|
        0 <= i < a.len() ==> 0 <= #[trigger] perm[i] < de.len() && a[i] == de[perm[i]]
    &&& forall|i: int, j: int|
        0 <= i < j < a.len() ==> #[trigger] perm[i] != #[trigger] perm[j]
    &&& forall|i: int, j: int|
        0 <= i < j < a.len() && empatan(a[i], a[j], claves, columnas) ==> #[trigger] perm[i]
            < #[trigger] perm[j]
}

/// The rest of a pass keeps apart what it was given apart, and keeps rows that
/// the ordering does not tell apart in the order in which they came.
proof fn lema_pasada_desde_estable(
    fs: Seq<Seq<char>>,
    claves: Seq<OrderKey>,
    columnas: Seq<Seq<char>>,
    i: int,
    ci: int,
    salida: Seq<Seq<char>>,
    origen: Seq<int>,
    cambios: bool,
)
    requires
        1 <= i <= fs.len(),
        0 <= ci < i,
        salida.len() == i - 1,
        origen.len() == salida.len(),
        forall|q: int|
            0 <= q < salida.len() ==> 0 <= #[trigger] origen[q] < i && origen[q] != ci
                && salida[q] == fs[origen[q]],
        forall|p: int, q: int|
            0 <= p < q < salida.len() ==> #[trigger] origen[p] != #[trigger] origen[q],
        forall|p: int, q: int|
            0 <= p < q < salida.len() && empatan(salida[p], salida[q], claves, columnas)
                ==> #[trigger] origen[p] < #[trigger] origen[q],
        forall|q: int|
            0 <= q < salida.len() && empatan(salida[q], fs[ci], claves, columnas)
                ==> #[trigger] origen[q] < ci,
    ensures
        match pasada_desde(fs, claves, columnas, i, fs[ci], salida, cambios) {
            Ok((d, _)) => exists|perm: Seq<int>| reordena_estable(perm, fs, d, claves, columnas),
            Err(_) => true,
        },
    decreases fs.len() - i,
{
    let c = fs[ci];
    if i >= fs.len() {
        let d = salida.push(c);
        let perm = origen.push(ci);
        assert forall|k: int| 0 <= k < d.len() implies 0 <= #[trigger] perm[k] < fs.len() && d[k]
            == fs[perm[k]] by {
            if k < salida.len() {
                assert(perm[k] == origen[k]);
            }
        }
        assert forall|a: int, b: int| 0 <= a < b < d.len() implies #[trigger] perm[a]
            != #[trigger] perm[b] by {
            assert(perm[a] == origen[a]);
            if b < salida.len() {
                assert(perm[b] == origen[b]);
            }
        }
        assert forall|a: int, b: int|
            0 <= a < b < d.len() && empatan(d[a], d[b], claves, columnas) implies #[trigger] perm[a]
            < #[trigger] perm[b] by {
            assert(perm[a] == origen[a]);
            assert(d[a] == salida[a]);
            if b < salida.len() {
                assert(perm[b] == origen[b]);
                assert(d[b] == salida[b]);
            }
        }
        assert(reordena_estable(perm, fs, d, claves, columnas));
        let r = pasada_desde(fs, claves, columnas, i, c, salida, cambios);
        assert(r == Ok::<(Seq<Seq<char>>, bool), Failure>((d, cambios)));
        assert(reordena_estable(perm, fs, r->Ok_0.0, claves, columnas));
    } else {
        match linea_sigue_a(fs[i], c, claves, columnas) {
            Err(_) => {},
            Ok(sigue) => {
                let salida2 = if sigue {
                    salida.push(c)
                } else {
                    salida.push(fs[i])
                };
                let origen2 = if sigue {
                    origen.push(ci)
                } else {
                    origen.push(i)
                };
                let ci2 = if sigue {
                    i
                } else {
                    ci
                };
                assert forall|q: int| 0 <= q < salida2.len() implies 0 <= #[trigger] origen2[q] < i
                    + 1 && origen2[q] != ci2 && salida2[q] == fs[origen2[q]] by {
                    if q < salida.len() {
                        assert(origen2[q] == origen[q]);
                        assert(salida2[q] == salida[q]);
                    }
                }
                assert forall|p: int, q: int| 0 <= p < q < salida2.len() implies #[trigger] origen2[p]
                    != #[trigger] origen2[q] by {
                    assert(origen2[p] == origen[p]);
                    if q < salida.len() {
                        assert(origen2[q] == origen[q]);
                    }
                }
                assert forall|p: int, q: int|
                    0 <= p < q < salida2.len() && empatan(
                        salida2[p],
                        salida2[q],
                        claves,
                        columnas,
                    ) implies #[trigger] origen2[p] < #[trigger] origen2[q] by {
                    assert(origen2[p] == origen[p]);
                    assert(salida2[p] == salida[p]);
                    if q < salida.len() {
                        assert(origen2[q] == origen[q]);
                        assert(salida2[q] == salida[q]);
                    }
                }
                assert forall|q: int|
                    0 <= q < salida2.len() && empatan(
                        salida2[q],
                        fs[ci2],
                        claves,
                        columnas,
                    ) implies #[trigger] origen2[q] < ci2 by {
                    if q < salida.len() {
                        assert(origen2[q] == origen[q]);
                        assert(salida2[q] == salida[q]);
                    }
                }
                let cambios2 = if sigue {
                    cambios
                } else {
                    true
                };
                lema_pasada_desde_estable(
                    fs,
                    claves,
                    columnas,
                    i + 1,
                    ci2,
                    salida2,
                    origen2,
                    cambios2,
                );
                let r = pasada_desde(fs, claves, columnas, i, c, salida, cambios);
                let r2 = pasada_desde(fs, claves, columnas, i + 1, fs[ci2], salida2, cambios2);
                assert(r == r2);
                if r2 is Ok {
                    let perm = choose|perm: Seq<int>|
                        reordena_estable(perm, fs, r2->Ok_0.0, claves, columnas);
                    assert(reordena_estable(perm, fs, r->Ok_0.0, claves, columnas));
                }
            },
        }
    }
}

/// Two reorderings that keep ties in place, one after the other, are a
/// reordering that keeps ties in place.
proof fn lema_componer_estables(
    p1: Seq<int>,
    p2: Seq<int>,
    a: Seq<Seq<char>>,
    b: Seq<Seq<char>>,
    c: Seq<Seq<char>>,
    claves: Seq<OrderKey>,
    columnas: Seq<Seq<char>>,
)
    requires
        reordena_estable(p1, a, b, claves, columnas),
        reordena_estable(p2, b, c, claves, columnas),
    ensures
        reordena_estable(Seq::new(c.len(), |i: int| p1[p2[i]]), a, c, claves, columnas),
{
    let p = Seq::new(c.len(), |i: int| p1[p2[i]]);
    assert forall|i: int| 0 <= i < c.len() implies 0 <= #[trigger] p[i] < a.len() && c[i]
        == a[p[i]] by {
        assert(0 <= p2[i] < b.len());
        assert(0 <= p1[p2[i]] < a.len());
    }
    assert forall|i: int, j: int| 0 <= i < j < c.len() implies #[trigger] p[i] != #[trigger] p[j] by {
        assert(p2[i] != p2[j]);
        assert(0 <= p2[i] < b.len() && 0 <= p2[j] < b.len());
        if p2[i] < p2[j] {
            assert(p1[p2[i]] != p1[p2[j]]);
        } else {
            assert(p1[p2[j]] != p1[p2[i]]);
        }
    }
    assert forall|i: int, j: int|
        0 <= i < j < c.len() && empatan(c[i], c[j], claves, columnas) implies #[trigger] p[i]
        < #[trigger] p[j] by {
        assert(p2[i] < p2[j]);
        assert(0 <= p2[i] < b.len() && 0 <= p2[j] < b.len());
        assert(c[i] == b[p2[i]] && c[j] == b[p2[j]]);
        assert(p1[p2[i]] < p1[p2[j]]);
    }
}

/// Passes reorder the rows and keep ties in place.
proof fn lema_ordenar_en_estable(
    fs: Seq<Seq<char>>,
    claves: Seq<OrderKey>,
    columnas: Seq<Seq<char>>,
    vueltas: nat,
)
    ensures
        match ordenar_en(fs, claves, columnas, vueltas) {
            Ok(d) => exists|perm: Seq<int>| reordena_estable(perm, fs, d, claves, columnas),
            Err(_) => true,
        },
    decreases vueltas,
{
    let igual = Seq::new(fs.len(), |i: int| i);
    assert(reordena_estable(igual, fs, fs, claves, columnas));
    let r = ordenar_en(fs, claves, columnas, vueltas);
    if vueltas == 0 {
        assert(r == Ok::<Seq<Seq<char>>, Failure>(fs));
        assert(reordena_estable(igual, fs, r->Ok_0, claves, columnas));
    } else {
        if fs.len() > 0 {
            lema_pasada_desde_estable(
                fs,
                claves,
                columnas,
                1,
                0,
                Seq::empty(),
                Seq::empty(),
                false,
            );
        }
        match pasada(fs, claves, columnas) {
            Ok((d, c)) => {
                if fs.len() == 0 {
                    assert(d == fs);
                }
                assert(exists|perm: Seq<int>| reordena_estable(perm, fs, d, claves, columnas));
                let p1 = choose|perm: Seq<int>| reordena_estable(perm, fs, d, claves, columnas);
                if c {
                    lema_ordenar_en_estable(d, claves, columnas, (vueltas - 1) as nat);
                    if let Ok(e) = ordenar_en(d, claves, columnas, (vueltas - 1) as nat) {
                        let p2 = choose|perm: Seq<int>|
                            reordena_estable(perm, d, e, claves, columnas);
                        lema_componer_estables(p1, p2, fs, d, e, claves, columnas);
                        let p = Seq::new(e.len(), |i: int| p1[p2[i]]);
                        assert(r == Ok::<Seq<Seq<char>>, Failure>(e));
                        assert(reordena_estable(p, fs, r->Ok_0, claves, columnas));
                    }
                } else {
                    assert(r == Ok::<Seq<Seq<char>>, Failure>(d));
                    assert(reordena_estable(p1, fs, r->Ok_0, claves, columnas));
                }
            },
            Err(_) => {},
        }
    }
}

/// Putting rows in order is stable: what comes out is what went in, in
/// another order, and rows that the ordering does not tell apart come out in
/// the order in which they went in.
pub proof fn ley_orden_estable(fs: Seq<Seq<char>>, claves: Seq<OrderKey>, columnas: Seq<Seq<char>>)
    requires
        ordenar(fs, Some(claves), columnas) is Ok,
    ensures
        exists|perm: Seq<int>|
            reordena_estable(
                perm,
                fs,
                ordenar(fs, Some(claves), columnas)->Ok_0,
                claves,
                columnas,
            ),
{
    if claves.len() > 0 {
        lema_ordenar_en_estable(fs, claves, columnas, fs.len());
    } else {
        let igual = Seq::new(fs.len(), |i: int| i);
        assert(ordenar(fs, Some(claves), columnas)->Ok_0 == fs);
        assert(reordena_estable(igual, fs, fs, claves, columnas));
    }
}

} // verus!
