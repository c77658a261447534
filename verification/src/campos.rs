//! Lines of comma-separated fields: cutting a line into its fields and
//! joining fields into a line.

use vstd::prelude::*;
use vstd::string::StringExecFns;
use crate::texto::{caracteres, limites_recortados, recortar, subcadena};

verus! {

/// The parts of a text: what stands between the occurrences of `sep`. A text
/// without the separator is one part, and so is the empty text.
pub open spec fn partes(s: Seq<char>, sep: char) -> Seq<Seq<char>>
    decreases s.len(),
{
    if s.len() == 0 {
        seq![Seq::<char>::empty()]
    } else {
        let antes = partes(s.drop_last(), sep);
        if s.last() == sep {
            antes.push(Seq::<char>::empty())
        } else {
            antes.update(antes.len() - 1, antes.last().push(s.last()))
        }
    }
}

/// The parts of a text, each without the white space at its ends.
pub open spec fn partes_limpias(s: Seq<char>, sep: char) -> Seq<Seq<char>> {
    Seq::new(partes(s, sep).len(), |i: int| recortar(partes(s, sep)[i]))
}

/// The fields of a line: the text between its commas.
pub open spec fn campos(s: Seq<char>) -> Seq<Seq<char>> {
    partes(s, ',')
}

/// The fields of a line, each without the white space at its ends.
pub open spec fn campos_limpios(s: Seq<char>) -> Seq<Seq<char>> {
    partes_limpias(s, ',')
}

/// The fields joined by commas; no fields give the empty line.
pub open spec fn unir(fs: Seq<Seq<char>>) -> Seq<char>
    decreases fs.len(),
{
    if fs.len() == 0 {
        Seq::<char>::empty()
    } else if fs.len() == 1 {
        fs[0]
    } else {
        unir(fs.drop_last()) + seq![','] + fs.last()
    }
}

/// The contents of a list of strings.
pub open spec fn textos(v: Seq<String>) -> Seq<Seq<char>> {
    Seq::new(v.len(), |i: int| v[i]@)
}

/// No comma occurs in `s`.
pub open spec fn sin_coma(s: Seq<char>) -> bool {
    forall|i: int| 0 <= i < s.len() ==> #[trigger] s[i] != ','
}

/// A text has at least one part.
pub proof fn lema_partes_no_vacio(s: Seq<char>, sep: char)
    ensures
        partes(s, sep).len() >= 1,
    decreases s.len(),
{
    if s.len() > 0 {
        lema_partes_no_vacio(s.drop_last(), sep);
    }
}

/// Text without a comma, added to a line, lengthens its last field.
pub proof fn lema_campos_alargar(a: Seq<char>, b: Seq<char>)
    requires
        sin_coma(b),
    ensures
        campos(a).len() >= 1,
        campos(a + b) == campos(a).update(campos(a).len() - 1, campos(a).last() + b),
    decreases b.len(),
{
    lema_partes_no_vacio(a, ',');
    let ca = campos(a);
    if b.len() == 0 {
        assert(a + b =~= a);
        assert(ca.last() + b =~= ca.last());
        assert(ca.update(ca.len() - 1, ca.last()) =~= ca);
    } else {
        let b0 = b.drop_last();
        lema_campos_alargar(a, b0);
        assert((a + b).drop_last() =~= a + b0);
        assert((a + b).last() == b.last());
        assert(b[b.len() - 1] != ',');
        assert((ca.last() + b0).push(b.last()) =~= ca.last() + b);
        assert(campos(a + b) =~= ca.update(ca.len() - 1, ca.last() + b));
    }
}

/// Cutting a joined line gives back the fields, when none of them holds a comma.
pub proof fn lema_campos_de_unir(fs: Seq<Seq<char>>)
    requires
        fs.len() >= 1,
        forall|i: int| 0 <= i < fs.len() ==> sin_coma(#[trigger] fs[i]),
    ensures
        campos(unir(fs)) == fs,
    decreases fs.len(),
{
    if fs.len() == 1 {
        let vacio = Seq::<char>::empty();
        lema_campos_alargar(vacio, fs[0]);
        assert(vacio + fs[0] =~= fs[0]);
        assert(campos(vacio) =~= seq![vacio]);
        assert(campos(fs[0]) =~= fs);
    } else {
        let pre = fs.drop_last();
        assert forall|i: int| 0 <= i < pre.len() implies sin_coma(#[trigger] pre[i]) by {
            assert(pre[i] == fs[i]);
        }
        lema_campos_de_unir(pre);
        let a = unir(pre) + seq![','];
        assert(a.drop_last() =~= unir(pre));
        assert(campos(a) =~= pre.push(Seq::<char>::empty()));
        lema_campos_alargar(a, fs.last());
        assert(Seq::<char>::empty() + fs.last() =~= fs.last());
        assert(campos(unir(fs)) =~= fs);
    }
}

/// Cuts a text at each occurrence of `sep` and trims the parts.
pub fn separar_por(linea: &str, sep: char) -> (r: Vec<String>)
    ensures
        textos(r@) == partes_limpias(linea@, sep),
        r@.len() >= 1,
{
    let cs = caracteres(linea);
    let n: usize = cs.len();
    let mut r: Vec<String> = Vec::new();
    let ghost mut crudos: Seq<Seq<char>> = Seq::empty();
    let mut inicio: usize = 0;
    let mut i: usize = 0;
    assert(cs@.take(0) =~= Seq::<char>::empty());
    assert(partes(cs@.take(0), sep) =~= crudos.push(cs@.subrange(0, 0)));
    while i < n
        invariant
            inicio <= i <= n == cs@.len(),
            cs@ == linea@,
            partes(cs@.take(i as int), sep) == crudos.push(cs@.subrange(inicio as int, i as int)),
            r@.len() == crudos.len(),
            forall|j: int| 0 <= j < r@.len() ==> (#[trigger] r@[j])@ == recortar(crudos[j]),
        decreases n - i,
    {
        let ghost previo = cs@.take(i as int);
        let ghost actual = cs@.take(i + 1);
        assert(actual.drop_last() =~= previo);
        assert(actual.last() == cs@[i as int]);
        if cs[i] == sep {
            let (a, b) = limites_recortados(&cs, inicio, i);
            assert(cs@.subrange(a as int, b as int) == linea@.subrange(a as int, b as int));
            let campo = subcadena(linea, a, b);
            let ghost crudo = cs@.subrange(inicio as int, i as int);
            r.push(campo);
            proof {
                crudos = crudos.push(crudo);
            }
            inicio = i + 1;
            assert(cs@.subrange(inicio as int, i + 1) =~= Seq::<char>::empty());
            assert(partes(actual, sep) =~= crudos.push(cs@.subrange(inicio as int, i + 1)));
        } else {
            assert(cs@.subrange(inicio as int, i as int).push(cs@[i as int]) =~= cs@.subrange(
                inicio as int,
                i + 1,
            ));
            assert(partes(actual, sep) =~= crudos.push(cs@.subrange(inicio as int, i + 1)));
        }
        i += 1;
    }
    assert(cs@.take(n as int) =~= cs@);
    let (a, b) = limites_recortados(&cs, inicio, n);
    assert(cs@.subrange(a as int, b as int) == linea@.subrange(a as int, b as int));
    let campo = subcadena(linea, a, b);
    r.push(campo);
    proof {
        crudos = crudos.push(cs@.subrange(inicio as int, n as int));
    }
    assert(textos(r@) =~= partes_limpias(linea@, sep));
    r
}

/// Cuts a line into its fields and trims each of them.
pub fn separar(linea: &str) -> (r: Vec<String>)
    ensures
        textos(r@) == campos_limpios(linea@),
        r@.len() >= 1,
{
    separar_por(linea, ',')
}

/// Joins the fields into one line, with a comma between neighbours.
pub fn juntar(fs: &Vec<String>) -> (r: String)
    ensures
        r@ == unir(textos(fs@)),
{
    let mut r = String::new();
    let mut i: usize = 0;
    assert(textos(fs@).take(0) =~= Seq::<Seq<char>>::empty());
    while i < fs.len()
        invariant
            i <= fs@.len(),
            r@ == unir(textos(fs@).take(i as int)),
        decreases fs@.len() - i,
    {
        let ghost previo = textos(fs@).take(i as int);
        let ghost actual = textos(fs@).take(i + 1);
        assert(actual.drop_last() =~= previo);
        assert(actual.last() == fs@[i as int]@);
        if i > 0 {
            proof {
                reveal_strlit(",");
                assert(","@ =~= seq![',']);
            }
            r.append(",");
        }
        r.append(fs[i].as_str());
        assert(r@ =~= unir(actual)) by {
            if i == 0 {
                assert(previo =~= Seq::<Seq<char>>::empty());
                assert(actual[0] == fs@[0]@);
            }
        }
        i += 1;
    }
    assert(textos(fs@).take(fs@.len() as int) =~= textos(fs@));
    r
}

} // verus!
