//! Decimal integers as text: reading one from a string and writing one out.

use vstd::prelude::*;
use vstd::string::StringExecFns;
use vstd::string::StrSliceExecFns;
use crate::texto::caracteres;

verus! {

broadcast use vstd::string::group_string_axioms;

/// One of the ten decimal digits.
pub open spec fn es_digito(c: char) -> bool {
    0x30 <= c as int <= 0x39
}

/// The character that writes the digit `d`.
pub open spec fn cifra(d: int) -> char {
    (0x30 + d) as char
}

/// The number that a run of digits writes; the empty run writes zero.
pub open spec fn valor_digitos(s: Seq<char>) -> int
    decreases s.len(),
{
    if s.len() == 0 {
        0
    } else {
        valor_digitos(s.drop_last()) * 10 + (s.last() as int - 0x30)
    }
}

/// Every character of `s` is a digit.
pub open spec fn todos_digitos(s: Seq<char>) -> bool {
    forall|i: int| 0 <= i < s.len() ==> es_digito(#[trigger] s[i])
}

/// The 64-bit integer that `s` writes, if it writes one: an optional sign,
/// then at least one digit and nothing else, with a value that fits.
pub open spec fn entero_de(s: Seq<char>) -> Option<int> {
    if s.len() == 0 {
        None
    } else {
        let con_signo = s[0] == '-' || s[0] == '+';
        let d = if con_signo {
            s.subrange(1, s.len() as int)
        } else {
            s
        };
        let v = if s[0] == '-' {
            -valor_digitos(d)
        } else {
            valor_digitos(d)
        };
        if d.len() > 0 && todos_digitos(d) && i64::MIN <= v <= i64::MAX {
            Some(v)
        } else {
            None
        }
    }
}

/// The digits of `n`, most significant first, without leading zeros.
pub open spec fn digitos(n: nat) -> Seq<char>
    decreases n,
{
    if n < 10 {
        seq![cifra(n as int)]
    } else {
        digitos(n / 10).push(cifra((n % 10) as int))
    }
}

/// The decimal form of `n`: a minus sign for a negative number, then its digits.
pub open spec fn texto_de_entero(n: int) -> Seq<char> {
    if n < 0 {
        seq!['-'] + digitos((-n) as nat)
    } else {
        digitos(n as nat)
    }
}

/// A run of digits is worth at least as much as any of its prefixes.
pub proof fn lema_valor_prefijo(s: Seq<char>, k: int)
    requires
        todos_digitos(s),
        0 <= k <= s.len(),
    ensures
        0 <= valor_digitos(s.take(k)) <= valor_digitos(s),
    decreases s.len(),
{
    if s.len() == 0 {
        assert(s.take(k) =~= s);
    } else if k == s.len() {
        assert(s.take(k) =~= s);
        lema_valor_prefijo(s.drop_last(), k - 1);
        assert(s.drop_last().take(k - 1) =~= s.drop_last());
        assert(es_digito(s[s.len() - 1]));
    } else {
        lema_valor_prefijo(s.drop_last(), k);
        assert(s.drop_last().take(k) =~= s.take(k));
        assert(es_digito(s[s.len() - 1]));
    }
}

/// The code point of `c`.
fn codigo(c: char) -> (r: u32)
    ensures
        r == c as int,
{
    c as u32
}

/// Reads `s` as a 64-bit integer.
pub fn leer_entero(s: &str) -> (r: Option<i64>)
    ensures
        match r {
            Some(n) => entero_de(s@) == Some(n as int),
            None => entero_de(s@) is None,
        },
{
    let cs = caracteres(s);
    let n: usize = cs.len();
    if n == 0 {
        return None;
    }
    let negativo: bool = cs[0] == '-';
    let inicio: usize = if cs[0] == '-' || cs[0] == '+' {
        1
    } else {
        0
    };
    if inicio == n {
        return None;
    }
    let ghost d = cs@.subrange(inicio as int, n as int);
    assert(inicio == 0 ==> d =~= cs@);
    let limite: u128 = 0x8000_0000_0000_0000;
    let mut acc: u128 = 0;
    let mut i: usize = inicio;
    while i < n
        invariant
            inicio <= i <= n == cs@.len(),
            cs@ == s@,
            inicio < n,
            inicio == (if cs@[0] == '-' || cs@[0] == '+' {
                1usize
            } else {
                0usize
            }),
            d == cs@.subrange(inicio as int, n as int),
            inicio == 0 ==> d == cs@,
            todos_digitos(d.take(i - inicio)),
            acc == valor_digitos(d.take(i - inicio)),
            acc <= limite,
            limite == 0x8000_0000_0000_0000,
        decreases n - i,
    {
        let c: char = cs[i];
        let ghost antes = d.take(i - inicio);
        let ghost ahora = d.take(i + 1 - inicio);
        assert(ahora.drop_last() =~= antes);
        assert(ahora.last() == c);
        let x: u32 = codigo(c);
        if x < 0x30 || x > 0x39 {
            assert(!es_digito(d[i - inicio]));
            assert(!todos_digitos(d));
            return None;
        }
        assert forall|j: int| 0 <= j < ahora.len() implies es_digito(#[trigger] ahora[j]) by {
            if j < antes.len() {
                assert(ahora[j] == antes[j]);
            }
        }
        acc = acc * 10 + (x - 0x30) as u128;
        if acc > limite {
            proof {
                if todos_digitos(d) {
                    lema_valor_prefijo(d, i + 1 - inicio);
                }
            }
            return None;
        }
        i += 1;
    }
    assert(d.take(n - inicio) =~= d);
    if negativo {
        if acc == limite {
            Some(i64::MIN)
        } else {
            Some(-(acc as i64))
        }
    } else if acc == limite {
        None
    } else {
        Some(acc as i64)
    }
}

/// The digits of `n` are digits, and they write `n`.
pub proof fn lema_digitos(n: nat)
    ensures
        digitos(n).len() >= 1,
        todos_digitos(digitos(n)),
        valor_digitos(digitos(n)) == n,
    decreases n,
{
    if n < 10 {
        let s = digitos(n);
        assert(s.drop_last() =~= Seq::<char>::empty());
        assert(valor_digitos(s.drop_last()) == 0);
        assert(s.last() == cifra(n as int));
    } else {
        lema_digitos(n / 10);
        let s = digitos(n);
        assert(s.drop_last() =~= digitos(n / 10));
        assert(s.last() == cifra((n % 10) as int));
        assert forall|i: int| 0 <= i < s.len() implies es_digito(#[trigger] s[i]) by {
            if i < s.len() - 1 {
                assert(s[i] == digitos(n / 10)[i]);
            }
        }
    }
}

/// Writing a 64-bit integer and reading it back gives the same integer.
pub proof fn lema_leer_lo_escrito(n: int)
    requires
        i64::MIN <= n <= i64::MAX,
    ensures
        entero_de(texto_de_entero(n)) == Some(n),
{
    let s = texto_de_entero(n);
    if n < 0 {
        lema_digitos((-n) as nat);
        assert(s.subrange(1, s.len() as int) =~= digitos((-n) as nat));
        assert(s[0] == '-');
    } else {
        lema_digitos(n as nat);
        assert(es_digito(s[0]));
    }
}

/// The text of the single digit `d`.
fn texto_cifra(d: u8) -> (r: &'static str)
    requires
        d < 10,
    ensures
        r@ == seq![cifra(d as int)],
{
    proof {
        reveal_strlit("0123456789");
    }
    let r = "0123456789".substring_char(d as usize, d as usize + 1);
    assert(r@ =~= seq![cifra(d as int)]);
    r
}

/// The digits held in `ds`, last one first.
pub open spec fn cifras_al_reves(ds: Seq<u8>) -> Seq<char> {
    Seq::new(ds.len(), |i: int| cifra(ds[ds.len() - 1 - i] as int))
}

/// Writes the natural number `n` in decimal.
pub fn escribir_natural(n: u64, signo: String) -> (r: String)
    ensures
        r@ == signo@ + digitos(n as nat),
{
    let mut ds: Vec<u8> = Vec::new();
    let mut m: u64 = n;
    while m >= 10
        invariant
            digitos(n as nat) == digitos(m as nat) + cifras_al_reves(ds@),
            forall|j: int| 0 <= j < ds@.len() ==> ds@[j] < 10,
        decreases m,
    {
        let ghost antes = ds@;
        ds.push((m % 10) as u8);
        assert(cifras_al_reves(ds@) =~= seq![cifra((m % 10) as int)] + cifras_al_reves(antes));
        assert(digitos(m as nat) + cifras_al_reves(antes) =~= digitos((m / 10) as nat)
            + cifras_al_reves(ds@));
        m = m / 10;
    }
    let ghost antes = ds@;
    ds.push(m as u8);
    assert(cifras_al_reves(ds@) =~= digitos(m as nat) + cifras_al_reves(antes));
    let mut r = signo;
    let ghost inicio = r@;
    let mut i: usize = ds.len();
    while i > 0
        invariant
            i <= ds@.len(),
            forall|j: int| 0 <= j < ds@.len() ==> ds@[j] < 10,
            r@ == inicio + cifras_al_reves(ds@).take(ds@.len() - i),
        decreases i,
    {
        i -= 1;
        r.append(texto_cifra(ds[i]));
        assert(r@ =~= inicio + cifras_al_reves(ds@).take(ds@.len() - i));
    }
    assert(cifras_al_reves(ds@).take(ds@.len() as int) =~= cifras_al_reves(ds@));
    r
}

/// Writes `n` in decimal.
pub fn escribir_entero(n: i64) -> (r: String)
    ensures
        r@ == texto_de_entero(n as int),
{
    if n < 0 {
        proof {
            reveal_strlit("-");
            assert("-"@ =~= seq!['-']);
        }
        let mag: u64 = ((-(n + 1)) as u64) + 1;
        escribir_natural(mag, String::from_str("-"))
    } else {
        let r = escribir_natural(n as u64, String::new());
        assert(r@ =~= digitos(n as nat));
        r
    }
}

} // verus!
