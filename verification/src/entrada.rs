//! From the text that a caller hands over to the statements in it.

use vstd::prelude::*;
use vstd::string::StringExecFns;
use vstd::string::StrSliceExecFns;
use crate::campos::{partes_limpias, separar_por, textos};
use crate::texto::caracteres;

verus! {

/// The text with a space in the place of each line feed.
pub open spec fn sin_saltos(s: Seq<char>) -> Seq<char> {
    Seq::new(
        s.len(),
        |i: int|
            if s[i] == '\n' {
                ' '
            } else {
                s[i]
            },
    )
}

/// The texts that are not empty.
pub open spec fn no_vacio() -> spec_fn(Seq<char>) -> bool {
    |t: Seq<char>| t.len() > 0
}

/// The statements of a text: what stands between its semicolons, with line
/// feeds turned into spaces and the white space at the ends dropped; what is
/// then empty is no statement.
pub open spec fn sentencias(s: Seq<char>) -> Seq<Seq<char>> {
    partes_limpias(sin_saltos(s), ';').filter(no_vacio())
}

/// The text with a space in the place of each line feed.
fn reemplazar_saltos(s: &str) -> (r: String)
    ensures
        r@ == sin_saltos(s@),
{
    let cs = caracteres(s);
    let n: usize = cs.len();
    let mut r = String::new();
    let mut inicio: usize = 0;
    let mut k: usize = 0;
    while k < n
        invariant
            inicio <= k <= n == cs@.len(),
            cs@ == s@,
            r@ + s@.subrange(inicio as int, k as int) == sin_saltos(s@).take(k as int),
            forall|j: int| inicio <= j < k ==> s@[j] != '\n',
        decreases n - k,
    {
        let ghost hecho = sin_saltos(s@).take(k as int);
        assert(sin_saltos(s@).take(k + 1) =~= hecho.push(sin_saltos(s@)[k as int]));
        if cs[k] == '\n' {
            r.append(s.substring_char(inicio, k));
            assert(r@ == hecho);
            proof {
                reveal_strlit(" ");
                assert(" "@ =~= seq![' ']);
            }
            r.append(" ");
            inicio = k + 1;
            assert(s@.subrange(inicio as int, k + 1) =~= Seq::<char>::empty());
            assert(r@ + s@.subrange(inicio as int, k + 1) =~= hecho.push(' '));
        } else {
            assert(s@.subrange(inicio as int, k + 1) =~= s@.subrange(inicio as int, k as int).push(
                s@[k as int],
            ));
            assert(r@ + s@.subrange(inicio as int, k + 1) =~= hecho.push(s@[k as int]));
        }
        k += 1;
    }
    r.append(s.substring_char(inicio, n));
    assert(r@ =~= sin_saltos(s@));
    r
}

/// Cuts the text into its statements.
pub fn limpiar_entrada(entrada: &String) -> (r: Vec<String>)
    ensures
        textos(r@) == sentencias(entrada@),
{
    let limpio = reemplazar_saltos(entrada.as_str());
    let trozos = separar_por(limpio.as_str(), ';');
    let ghost todos = textos(trozos@);
    let mut r: Vec<String> = Vec::new();
    let mut i: usize = 0;
    proof {
        reveal(Seq::filter);
        assert(todos.take(0) =~= Seq::<Seq<char>>::empty());
        assert(textos(r@) =~= todos.take(0).filter(no_vacio()));
    }
    while i < trozos.len()
        invariant
            i <= trozos@.len(),
            todos == textos(trozos@),
            textos(r@) == todos.take(i as int).filter(no_vacio()),
        decreases trozos@.len() - i,
    {
        let ghost antes = textos(r@);
        proof {
            reveal(Seq::filter);
            assert(todos.take(i + 1).drop_last() =~= todos.take(i as int));
            assert(todos.take(i + 1).last() == trozos@[i as int]@);
        }
        if !trozos[i].as_str().is_empty() {
            r.push(trozos[i].clone());
            assert(textos(r@) =~= antes.push(trozos@[i as int]@));
        }
        i += 1;
    }
    assert(todos.take(trozos@.len() as int) =~= todos);
    r
}

} // verus!
