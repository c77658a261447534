//! From the text of a statement to its tokens.
//!
//! White space and commas separate tokens. A single quote opens a text that
//! runs to the next single quote. Parentheses enclose a group, which may hold
//! groups. `=`, `<`, `>`, `<=` and `>=` are comparison symbols. Everything else
//! builds bare words; a bare word that runs into an opening quote is dropped.

use vstd::prelude::*;
use crate::errores::{error_sintaxis, ErrorType, Failure};
use crate::operador::{lema_grupo, tokens, Operador, Token};
use crate::texto::{caracteres, es_espacio, espacio, subcadena};
use vstd::string::StringExecFns;
use vstd::string::StrSliceExecFns;

verus! {

/// A character that ends a bare word without being a token itself.
pub open spec fn es_separador(c: char) -> bool {
    es_espacio(c) || c == ','
}

/// A character that ends a bare word and starts a token of its own.
pub open spec fn es_especial(c: char) -> bool {
    c == '\'' || c == '(' || c == ')' || c == '=' || c == '<' || c == '>'
}

/// The number of characters from position `i` on that belong to one bare word.
pub open spec fn largo_palabra(s: Seq<char>, i: int) -> nat
    decreases s.len() - i,
{
    if i < 0 || i >= s.len() || es_separador(s[i]) || es_especial(s[i]) {
        0
    } else {
        1 + largo_palabra(s, i + 1)
    }
}

/// The number of characters from position `i` on that stand before the next
/// single quote, or before the end where there is none.
pub open spec fn largo_citado(s: Seq<char>, i: int) -> nat
    decreases s.len() - i,
{
    if i < 0 || i >= s.len() || s[i] == '\'' {
        0
    } else {
        1 + largo_citado(s, i + 1)
    }
}

/// A bare word ends inside the text.
pub proof fn lema_largo_palabra(s: Seq<char>, i: int)
    requires
        0 <= i <= s.len(),
    ensures
        i + largo_palabra(s, i) <= s.len(),
    decreases s.len() - i,
{
    if i < s.len() && !es_separador(s[i]) && !es_especial(s[i]) {
        lema_largo_palabra(s, i + 1);
    }
}

/// A quoted text ends inside the text.
pub proof fn lema_largo_citado(s: Seq<char>, i: int)
    requires
        0 <= i <= s.len(),
    ensures
        i + largo_citado(s, i) <= s.len(),
    decreases s.len() - i,
{
    if i < s.len() && s[i] != '\'' {
        lema_largo_citado(s, i + 1);
    }
}

/// The words of `s` joined by single spaces: white space at the two ends is
/// dropped, and each run of white space inside becomes one space.
pub open spec fn compactar(s: Seq<char>) -> Seq<char>
    decreases s.len(),
{
    if s.len() == 0 {
        s
    } else {
        let antes = compactar(s.drop_last());
        if es_espacio(s.last()) {
            antes
        } else if antes.len() > 0 && es_espacio(s[s.len() - 2]) {
            antes.push(' ').push(s.last())
        } else {
            antes.push(s.last())
        }
    }
}

/// What reading a run of tokens gives: the tokens and the position after them.
pub type Lectura = Result<(Seq<Token>, int), Failure>;

/// Puts `pre` in front of the tokens that were read.
pub open spec fn anteponer(pre: Seq<Token>, r: Lectura) -> Lectura {
    match r {
        Ok((ts, j)) => Ok((pre + ts, j)),
        Err(e) => Err(e),
    }
}

/// The failure of a parenthesis left open.
pub open spec fn falta_cerrar() -> Failure {
    Failure::InvalidSyntax("Falta cerrar parentesis."@)
}

/// The failure of a closing parenthesis that closes nothing.
pub open spec fn cierre_sin_apertura() -> Failure {
    Failure::InvalidSyntax("Paréntesis de cierre sin haber uno de apertura."@)
}

/// The failure of a pair of parentheses with nothing inside.
pub open spec fn parentesis_vacio() -> Failure {
    Failure::InvalidSyntax("Paréntesis sin nada adentro"@)
}

/// The failure of a quote left open.
pub open spec fn comilla_sin_cerrar() -> Failure {
    Failure::InvalidSyntax("Comilla simple sin cerrar."@)
}

/// The tokens from position `i` on: up to the end of the text where
/// `abierto` is false, up to the parenthesis that closes the group where it is
/// true. The position that comes with them is the one after the last
/// character read.
///
/// A bare word that runs into an opening quote is no token: the quoted text
/// takes its place. The test on `j` in the branch of `(` only bounds the
/// recursion; `lema_leer_avanza` shows that it always holds.
pub open spec fn leer(s: Seq<char>, i: int, abierto: bool) -> Lectura
    decreases s.len() - i,
{
    if i < 0 || i >= s.len() {
        if abierto {
            Err(falta_cerrar())
        } else {
            Ok((Seq::empty(), i))
        }
    } else if es_separador(s[i]) {
        leer(s, i + 1, abierto)
    } else if s[i] == ')' {
        if abierto {
            Ok((Seq::empty(), i + 1))
        } else {
            Err(cierre_sin_apertura())
        }
    } else if s[i] == '\'' {
        let j = i + 1 + largo_citado(s, i + 1);
        if j >= s.len() {
            Err(comilla_sin_cerrar())
        } else {
            anteponer(
                seq![Token::QuotedText(compactar(s.subrange(i + 1, j)))],
                leer(s, j + 1, abierto),
            )
        }
    } else if s[i] == '(' {
        match leer(s, i + 1, true) {
            Err(e) => Err(e),
            Ok((dentro, j)) => if dentro.len() == 0 {
                Err(parentesis_vacio())
            } else if i < j <= s.len() {
                anteponer(seq![Token::Group(dentro)], leer(s, j, abierto))
            } else {
                Err(falta_cerrar())
            },
        }
    } else if s[i] == '=' {
        anteponer(seq![Token::Comparator(seq!['='])], leer(s, i + 1, abierto))
    } else if s[i] == '<' || s[i] == '>' {
        if i + 1 < s.len() && s[i + 1] == '=' {
            anteponer(seq![Token::Comparator(seq![s[i], '='])], leer(s, i + 2, abierto))
        } else {
            anteponer(seq![Token::Comparator(seq![s[i]])], leer(s, i + 1, abierto))
        }
    } else {
        let j = i + largo_palabra(s, i);
        proof {
            lema_largo_palabra(s, i);
        }
        if j < s.len() && s[j] == '\'' {
            leer(s, j, abierto)
        } else {
            anteponer(seq![Token::Word(s.subrange(i, j))], leer(s, j, abierto))
        }
    }
}

/// Reading moves forward and stays inside the text; a group that was closed
/// took at least its closing parenthesis.
pub proof fn lema_leer_avanza(s: Seq<char>, i: int, abierto: bool)
    requires
        0 <= i <= s.len(),
    ensures
        match leer(s, i, abierto) {
            Ok((_, j)) => i <= j <= s.len() && (abierto ==> i < j),
            Err(_) => true,
        },
    decreases s.len() - i,
{
    if i >= s.len() {
    } else if es_separador(s[i]) {
        lema_leer_avanza(s, i + 1, abierto);
    } else if s[i] == ')' {
    } else if s[i] == '\'' {
        let j = i + 1 + largo_citado(s, i + 1);
        lema_largo_citado(s, i + 1);
        if j < s.len() {
            lema_leer_avanza(s, j + 1, abierto);
        }
    } else if s[i] == '(' {
        lema_leer_avanza(s, i + 1, true);
        match leer(s, i + 1, true) {
            Err(e) => {},
            Ok((dentro, j)) => {
                if dentro.len() != 0 {
                    lema_leer_avanza(s, j, abierto);
                }
            },
        }
    } else if s[i] == '=' {
        lema_leer_avanza(s, i + 1, abierto);
    } else if s[i] == '<' || s[i] == '>' {
        if i + 1 < s.len() && s[i + 1] == '=' {
            lema_leer_avanza(s, i + 2, abierto);
        } else {
            lema_leer_avanza(s, i + 1, abierto);
        }
    } else {
        let j = i + largo_palabra(s, i);
        lema_largo_palabra(s, i);
        lema_leer_avanza(s, j, abierto);
    }
}

/// The tokens of a statement, or the reason why it has none.
pub open spec fn tokenizar(s: Seq<char>) -> Result<Seq<Token>, Failure> {
    match leer(s, 0, false) {
        Ok((ts, _)) => Ok(ts),
        Err(e) => Err(e),
    }
}

/// The position at which the bare word that starts at `i` ends.
fn fin_de_palabra(cs: &Vec<char>, i: usize) -> (j: usize)
    requires
        i <= cs@.len(),
    ensures
        j == i + largo_palabra(cs@, i as int),
        i <= j <= cs@.len(),
{
    let mut k: usize = i;
    while k < cs.len() && !(espacio(cs[k]) || cs[k] == ',' || cs[k] == '\'' || cs[k] == '('
        || cs[k] == ')' || cs[k] == '=' || cs[k] == '<' || cs[k] == '>')
        invariant
            i <= k <= cs@.len(),
            i + largo_palabra(cs@, i as int) == k + largo_palabra(cs@, k as int),
        decreases cs@.len() - k,
    {
        k += 1;
    }
    k
}

/// The position of the first single quote at or after `i`, or the end.
fn fin_de_cita(cs: &Vec<char>, i: usize) -> (j: usize)
    requires
        i <= cs@.len(),
    ensures
        j == i + largo_citado(cs@, i as int),
        i <= j <= cs@.len(),
{
    let mut k: usize = i;
    while k < cs.len() && cs[k] != '\''
        invariant
            i <= k <= cs@.len(),
            i + largo_citado(cs@, i as int) == k + largo_citado(cs@, k as int),
        decreases cs@.len() - k,
    {
        k += 1;
    }
    k
}

/// The characters `desde..hasta` of the text, compacted.
fn texto_compacto(fuente: &str, cs: &Vec<char>, desde: usize, hasta: usize) -> (r: String)
    requires
        cs@ == fuente@,
        desde <= hasta <= cs@.len(),
    ensures
        r@ == compactar(cs@.subrange(desde as int, hasta as int)),
{
    let mut r = String::new();
    let mut k: usize = desde;
    assert(cs@.subrange(desde as int, desde as int) =~= Seq::<char>::empty());
    while k < hasta
        invariant
            cs@ == fuente@,
            desde <= k <= hasta <= cs@.len(),
            r@ == compactar(cs@.subrange(desde as int, k as int)),
        decreases hasta - k,
    {
        let ghost previo = cs@.subrange(desde as int, k as int);
        let ghost actual = cs@.subrange(desde as int, k + 1);
        assert(actual.drop_last() =~= previo);
        assert(actual.last() == cs@[k as int]);
        if !espacio(cs[k]) {
            if !r.as_str().is_empty() && espacio(cs[k - 1]) {
                proof {
                    reveal_strlit(" ");
                    assert(" "@ =~= seq![' ']);
                }
                r.append(" ");
            }
            proof {
                if previo.len() > 0 {
                    assert(actual[actual.len() - 2] == cs@[k - 1]);
                }
            }
            r.append(fuente.substring_char(k, k + 1));
            assert(fuente@.subrange(k as int, k + 1) =~= seq![cs@[k as int]]);
            assert(r@ =~= compactar(actual));
        }
        k += 1;
    }
    r
}

/// Reads the tokens from `inicio` on, as `leer` describes.
fn lexer_rec(fuente: &str, cs: &Vec<char>, inicio: usize, abierto: bool) -> (r: Result<
    (Vec<Operador>, usize),
    ErrorType,
>)
    requires
        cs@ == fuente@,
        inicio <= cs@.len(),
    ensures
        match r {
            Ok((ops, j)) => leer(cs@, inicio as int, abierto) == Ok::<(Seq<Token>, int), Failure>(
                (tokens(ops@), j as int),
            ) && inicio <= j <= cs@.len(),
            Err(e) => leer(cs@, inicio as int, abierto) == Err::<(Seq<Token>, int), Failure>(e@),
        },
    decreases cs@.len() - inicio,
{
    let n: usize = cs.len();
    let mut ops: Vec<Operador> = Vec::new();
    let mut i: usize = inicio;
    assert(tokens(ops@) =~= Seq::<Token>::empty());
    loop
        invariant
            cs@ == fuente@,
            n == cs@.len(),
            inicio <= i <= n,
            leer(cs@, inicio as int, abierto) == anteponer(
                tokens(ops@),
                leer(cs@, i as int, abierto),
            ),
        decreases n - i,
    {
        let ghost hechos = tokens(ops@);
        if i >= n {
            if abierto {
                return Err(error_sintaxis("Falta cerrar parentesis."));
            }
            assert(hechos + Seq::<Token>::empty() =~= hechos);
            return Ok((ops, i));
        }
        let c: char = cs[i];
        if espacio(c) || c == ',' {
            i += 1;
        } else if c == ')' {
            if !abierto {
                return Err(error_sintaxis("Paréntesis de cierre sin haber uno de apertura."));
            }
            assert(hechos + Seq::<Token>::empty() =~= hechos);
            return Ok((ops, i + 1));
        } else if c == '\'' {
            let j = fin_de_cita(cs, i + 1);
            if j >= n {
                return Err(error_sintaxis("Comilla simple sin cerrar."));
            }
            let t = texto_compacto(fuente, cs, i + 1, j);
            ops.push(Operador::Texto(t));
            proof {
                let uno = seq![Token::QuotedText(compactar(cs@.subrange(i + 1, j as int)))];
                assert(tokens(ops@) =~= hechos + uno);
                lema_anteponer(hechos, uno, leer(cs@, j + 1, abierto));
            }
            i = j + 1;
        } else if c == '(' {
            match lexer_rec(fuente, cs, i + 1, true) {
                Err(e) => {
                    return Err(e);
                },
                Ok((dentro, j)) => {
                    if dentro.len() == 0 {
                        return Err(error_sintaxis("Paréntesis sin nada adentro"));
                    }
                    proof {
                        lema_leer_avanza(cs@, i + 1, true);
                    }
                    let ghost grupo = tokens(dentro@);
                    let o = Operador::Lista(dentro);
                    proof {
                        lema_grupo(o);
                    }
                    ops.push(o);
                    proof {
                        let uno = seq![Token::Group(grupo)];
                        assert(tokens(ops@) =~= hechos + uno);
                        lema_anteponer(hechos, uno, leer(cs@, j as int, abierto));
                    }
                    i = j;
                },
            }
        } else if c == '=' {
            proof {
                reveal_strlit("=");
                assert("="@ =~= seq!['=']);
            }
            ops.push(Operador::Comparador(String::from_str("=")));
            proof {
                let uno = seq![Token::Comparator(seq!['='])];
                assert(tokens(ops@) =~= hechos + uno);
                lema_anteponer(hechos, uno, leer(cs@, i + 1, abierto));
            }
            i += 1;
        } else if c == '<' || c == '>' {
            let doble: bool = i + 1 < n && cs[i + 1] == '=';
            let j: usize = if doble {
                i + 2
            } else {
                i + 1
            };
            let t = subcadena(fuente, i, j);
            ops.push(Operador::Comparador(t));
            proof {
                let simbolo = cs@.subrange(i as int, j as int);
                if doble {
                    assert(simbolo =~= seq![c, '=']);
                } else {
                    assert(simbolo =~= seq![c]);
                }
                let uno = seq![Token::Comparator(simbolo)];
                assert(tokens(ops@) =~= hechos + uno);
                lema_anteponer(hechos, uno, leer(cs@, j as int, abierto));
            }
            i = j;
        } else {
            let j = fin_de_palabra(cs, i);
            assert(j > i);
            if j < n && cs[j] == '\'' {
                i = j;
            } else {
                let t = subcadena(fuente, i, j);
                ops.push(Operador::String(t));
                proof {
                    let uno = seq![Token::Word(cs@.subrange(i as int, j as int))];
                    assert(tokens(ops@) =~= hechos + uno);
                    lema_anteponer(hechos, uno, leer(cs@, j as int, abierto));
                }
                i = j;
            }
        }
    }
}

/// Putting tokens in front in two steps is putting them in front at once.
proof fn lema_anteponer(a: Seq<Token>, b: Seq<Token>, r: Lectura)
    ensures
        anteponer(a, anteponer(b, r)) == anteponer(a + b, r),
{
    match r {
        Ok((ts, j)) => {
            assert(a + (b + ts) =~= (a + b) + ts);
        },
        Err(_) => {},
    }
}

/// Cuts the text of a statement into its tokens.
///
/// Fails with a syntax error on a parenthesis left open, a closing parenthesis
/// without an opening one, a pair of parentheses with nothing inside and a
/// quote left open; the first of these from the left is the one reported.
pub fn lexer(string: &String) -> (r: Result<Vec<Operador>, ErrorType>)
    ensures
        match r {
            Ok(ops) => tokenizar(string@) == Ok::<Seq<Token>, Failure>(tokens(ops@)),
            Err(e) => tokenizar(string@) == Err::<Seq<Token>, Failure>(e@),
        },
{
    let cs = caracteres(string.as_str());
    match lexer_rec(string.as_str(), &cs, 0, false) {
        Ok((ops, _)) => Ok(ops),
        Err(e) => Err(e),
    }
}

} // verus!
