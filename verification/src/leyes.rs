//! Laws that relate the operations of the engine to each other.

use vstd::prelude::*;
use crate::campos::{campos, campos_limpios, lema_campos_de_unir, sin_coma};
use crate::dato::Value;
use crate::errores::Failure;
use crate::lexer::{
    anteponer,
    compactar,
    es_separador,
    largo_citado,
    largo_palabra,
    leer,
    lema_largo_citado,
    lema_largo_palabra,
    lema_leer_avanza,
    tokenizar,
    Lectura,
};
use crate::operador::Token;
use crate::enteros::{
    digitos,
    entero_de,
    es_digito,
    lema_digitos,
    lema_leer_lo_escrito,
    texto_de_entero,
};
use crate::manejo_csv::{codificar, decodificar, fila_de_campos, valores_en};
use crate::texto::{es_espacio, recortar};
use crate::utils::{dato_de_palabra, texto_de_valor};

verus! {

/// A value that a line can hold and give back: an integer of 64 bits, or a
/// text without a comma, without white space at its ends, that does not write
/// an integer.
pub open spec fn fiel(v: Value) -> bool {
    match v {
        Value::Integer(n) => i64::MIN <= n <= i64::MAX,
        Value::Text(t) => sin_coma(t) && recortar(t) == t && entero_de(t) is None,
    }
}

/// The decimal form of an integer has no comma and no white space.
pub proof fn lema_texto_de_entero(n: int)
    ensures
        sin_coma(texto_de_entero(n)),
        recortar(texto_de_entero(n)) == texto_de_entero(n),
        texto_de_entero(n).len() >= 1,
{
    let s = texto_de_entero(n);
    let d = if n < 0 {
        digitos((-n) as nat)
    } else {
        digitos(n as nat)
    };
    if n < 0 {
        lema_digitos((-n) as nat);
    } else {
        lema_digitos(n as nat);
    }
    assert forall|i: int| 0 <= i < s.len() implies #[trigger] s[i] != ',' && !es_espacio(s[i]) by {
        if n < 0 {
            if i > 0 {
                assert(s[i] == d[i - 1]);
                assert(es_digito(d[i - 1]));
            }
        } else {
            assert(es_digito(d[i]));
        }
    }
    assert(!es_espacio(s[0]));
    assert(!es_espacio(s[s.len() - 1]));
}

/// The row that fields give to columns holds, for each column, what the row
/// `fila` holds, when each field writes the value that `fila` has there.
proof fn lema_fila_de_campos(
    fila: Map<Seq<char>, Value>,
    columnas: Seq<Seq<char>>,
    fs: Seq<Seq<char>>,
    n: int,
)
    requires
        0 <= n <= columnas.len(),
        n <= fs.len(),
        forall|k: int|
            0 <= k < n ==> fila.contains_key(#[trigger] columnas[k]) && dato_de_palabra(fs[k])
                == fila[columnas[k]],
    ensures
        forall|c: Seq<char>|
            fila_de_campos(columnas, fs, n).contains_key(c) <==> exists|k: int|
                0 <= k < n && #[trigger] columnas[k] == c,
        forall|c: Seq<char>| #[trigger]
            fila_de_campos(columnas, fs, n).contains_key(c) ==> fila_de_campos(columnas, fs, n)[c]
                == fila[c],
    decreases n,
{
    if n > 0 {
        lema_fila_de_campos(fila, columnas, fs, n - 1);
        let antes = fila_de_campos(columnas, fs, n - 1);
        let ahora = fila_de_campos(columnas, fs, n);
        assert(ahora == antes.insert(columnas[n - 1], dato_de_palabra(fs[n - 1])));
        assert forall|c: Seq<char>| ahora.contains_key(c) <==> exists|k: int|
            0 <= k < n && #[trigger] columnas[k] == c by {
            if ahora.contains_key(c) {
                if c == columnas[n - 1] {
                } else {
                    assert(antes.contains_key(c));
                    let k = choose|k: int| 0 <= k < n - 1 && #[trigger] columnas[k] == c;
                    assert(0 <= k < n && columnas[k] == c);
                }
            }
            if exists|k: int| 0 <= k < n && #[trigger] columnas[k] == c {
                let k = choose|k: int| 0 <= k < n && #[trigger] columnas[k] == c;
                if k < n - 1 {
                    assert(antes.contains_key(c));
                }
            }
        }
    }
}

/// Writing a row as a line and reading the line back gives the row again.
///
/// This holds of a row that has a value for each column and for nothing else,
/// in a table with at least one column, when each value is one that a line can
/// hold and give back.
pub proof fn ley_ida_y_vuelta(fila: Map<Seq<char>, Value>, columnas: Seq<Seq<char>>)
    requires
        columnas.len() >= 1,
        forall|c: Seq<char>| fila.contains_key(c) <==> columnas.contains(c),
        forall|c: Seq<char>| fila.contains_key(c) ==> fiel(#[trigger] fila[c]),
    ensures
        decodificar(codificar(fila, columnas), columnas) == Ok::<Map<Seq<char>, Value>, Failure>(
            fila,
        ),
{
    let vals = valores_en(fila, columnas);
    assert forall|i: int| 0 <= i < vals.len() implies sin_coma(#[trigger] vals[i]) && recortar(
        vals[i],
    ) == vals[i] && dato_de_palabra(vals[i]) == fila[columnas[i]] && fila.contains_key(
        columnas[i],
    ) by {
        assert(columnas.contains(columnas[i]));
        let v = fila[columnas[i]];
        assert(fiel(v));
        assert(vals[i] == texto_de_valor(v));
        match v {
            Value::Integer(n) => {
                lema_texto_de_entero(n);
                lema_leer_lo_escrito(n);
            },
            Value::Text(t) => {},
        }
    }
    lema_campos_de_unir(vals);
    let linea = codificar(fila, columnas);
    assert(campos(linea) == vals);
    assert(campos_limpios(linea) =~= vals);
    lema_fila_de_campos(fila, columnas, vals, vals.len() as int);
    let leida = fila_de_campos(columnas, vals, vals.len() as int);
    assert forall|c: Seq<char>| leida.contains_key(c) <==> fila.contains_key(c) by {
        if fila.contains_key(c) {
            assert(columnas.contains(c));
            let k = choose|k: int| 0 <= k < columnas.len() && columnas[k] == c;
            assert(0 <= k < vals.len() && columnas[k] == c);
        }
        if leida.contains_key(c) {
            let k = choose|k: int| 0 <= k < vals.len() && #[trigger] columnas[k] == c;
            assert(columnas.contains(columnas[k]));
        }
    }
    assert(leida =~= fila);
}

/// One of the five comparison symbols.
pub open spec fn es_simbolo(c: Seq<char>) -> bool {
    c == seq!['='] || c == seq!['<'] || c == seq!['>'] || c == seq!['<', '='] || c == seq![
        '>',
        '=',
    ]
}

/// A token as the tokenizer makes them: a group is never empty and holds such
/// tokens only, and a comparator is one of the five symbols.
pub open spec fn bien_formado(t: Token) -> bool
    decreases t,
{
    match t {
        Token::Group(g) => g.len() > 0 && forall|i: int|
            0 <= i < g.len() ==> bien_formado(#[trigger] g[i]),
        Token::Comparator(c) => es_simbolo(c),
        _ => true,
    }
}

/// Every token in the list is as the tokenizer makes them.
pub open spec fn bien_formados(ts: Seq<Token>) -> bool {
    forall|i: int| 0 <= i < ts.len() ==> bien_formado(#[trigger] ts[i])
}

/// One well-formed token in front of well-formed tokens gives well-formed
/// tokens.
proof fn lema_anteponer_bien_formado(t: Token, r: Lectura)
    requires
        bien_formado(t),
        match r {
            Ok((ts, _)) => bien_formados(ts),
            Err(_) => true,
        },
    ensures
        match anteponer(seq![t], r) {
            Ok((ts, _)) => bien_formados(ts),
            Err(_) => true,
        },
{
    if let Ok((ts, _)) = r {
        let todos = seq![t] + ts;
        assert forall|i: int| 0 <= i < todos.len() implies bien_formado(#[trigger] todos[i]) by {
            if i > 0 {
                assert(todos[i] == ts[i - 1]);
            }
        }
    }
}

/// What is read from any position on is well formed.
proof fn lema_leer_bien_formados(s: Seq<char>, i: int, abierto: bool)
    requires
        0 <= i <= s.len(),
    ensures
        match leer(s, i, abierto) {
            Ok((ts, _)) => bien_formados(ts),
            Err(_) => true,
        },
    decreases s.len() - i,
{
    if i >= s.len() {
    } else if es_separador(s[i]) {
        lema_leer_bien_formados(s, i + 1, abierto);
    } else if s[i] == ')' {
    } else if s[i] == '\'' {
        let j = i + 1 + largo_citado(s, i + 1);
        lema_largo_citado(s, i + 1);
        if j < s.len() {
            lema_leer_bien_formados(s, j + 1, abierto);
            lema_anteponer_bien_formado(
                Token::QuotedText(compactar(s.subrange(i + 1, j))),
                leer(s, j + 1, abierto),
            );
        }
    } else if s[i] == '(' {
        lema_leer_bien_formados(s, i + 1, true);
        lema_leer_avanza(s, i + 1, true);
        if let Ok((dentro, j)) = leer(s, i + 1, true) {
            if dentro.len() != 0 {
                lema_leer_bien_formados(s, j, abierto);
                lema_anteponer_bien_formado(Token::Group(dentro), leer(s, j, abierto));
            }
        }
    } else if s[i] == '=' {
        lema_leer_bien_formados(s, i + 1, abierto);
        lema_anteponer_bien_formado(Token::Comparator(seq!['=']), leer(s, i + 1, abierto));
    } else if s[i] == '<' || s[i] == '>' {
        if i + 1 < s.len() && s[i + 1] == '=' {
            lema_leer_bien_formados(s, i + 2, abierto);
            lema_anteponer_bien_formado(
                Token::Comparator(seq![s[i], '=']),
                leer(s, i + 2, abierto),
            );
        } else {
            lema_leer_bien_formados(s, i + 1, abierto);
            lema_anteponer_bien_formado(Token::Comparator(seq![s[i]]), leer(s, i + 1, abierto));
        }
    } else {
        let j = i + largo_palabra(s, i);
        lema_largo_palabra(s, i);
        lema_leer_bien_formados(s, j, abierto);
        if !(j < s.len() && s[j] == '\'') {
            lema_anteponer_bien_formado(Token::Word(s.subrange(i, j)), leer(s, j, abierto));
        }
    }
}

/// The tokens of a statement are well formed: no group is empty, at any
/// depth, and every comparator is one of the five symbols.
pub proof fn ley_tokens_bien_formados(s: Seq<char>)
    ensures
        match tokenizar(s) {
            Ok(ts) => bien_formados(ts),
            Err(_) => true,
        },
{
    lema_leer_bien_formados(s, 0, false);
}

} // verus!
