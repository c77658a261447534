//! Text at the level of characters: reading the characters of a string,
//! comparing strings, white space and trimming.

use vstd::prelude::*;
use vstd::string::StringExecFns;
use vstd::string::StrSliceExecFns;
use vstd::string::StringSliceAdditionalSpecFns;

verus! {

broadcast use vstd::string::group_string_axioms;

/// White space, as Unicode defines it.
pub open spec fn es_espacio(c: char) -> bool {
    let n = c as int;
    ||| 0x09 <= n <= 0x0D
    ||| n == 0x20
    ||| n == 0x85
    ||| n == 0xA0
    ||| n == 0x1680
    ||| 0x2000 <= n <= 0x200A
    ||| n == 0x2028
    ||| n == 0x2029
    ||| n == 0x202F
    ||| n == 0x205F
    ||| n == 0x3000
}

/// Tells whether `c` is white space.
pub fn espacio(c: char) -> (r: bool)
    ensures
        r == es_espacio(c),
{
    let n: u32 = c as u32;
    (0x09 <= n && n <= 0x0D) || n == 0x20 || n == 0x85 || n == 0xA0 || n == 0x1680 || (0x2000 <= n
        && n <= 0x200A) || n == 0x2028 || n == 0x2029 || n == 0x202F || n == 0x205F || n == 0x3000
}

/// The characters of `s`, in order.
pub fn caracteres(s: &str) -> (v: Vec<char>)
    ensures
        v@ == s@,
{
    let mut v: Vec<char> = Vec::new();
    for c in it: s.chars()
        invariant
            it.seq() == s@,
            v@ == s@.take(it.index() as int),
    {
        v.push(c);
    }
    v
}

/// Tells whether two strings hold the same characters.
pub fn mismo_texto(a: &str, b: &str) -> (r: bool)
    ensures
        r == (a@ == b@),
{
    let x = a.as_bytes();
    let y = b.as_bytes();
    proof {
        vstd::utf8::encode_utf8_decode_utf8(a@);
        vstd::utf8::encode_utf8_decode_utf8(b@);
    }
    if x.len() != y.len() {
        return false;
    }
    let mut i: usize = 0;
    while i < x.len()
        invariant
            i <= x@.len() == y@.len(),
            x@ == a.spec_bytes(),
            y@ == b.spec_bytes(),
            forall|j: int| 0 <= j < i ==> x@[j] == y@[j],
        decreases x@.len() - i,
    {
        if x[i] != y[i] {
            return false;
        }
        i += 1;
    }
    assert(x@ =~= y@);
    true
}

/// An owned copy of the characters `desde..hasta` of `s`.
pub fn subcadena(s: &str, desde: usize, hasta: usize) -> (r: String)
    requires
        desde <= hasta <= s@.len(),
    ensures
        r@ == s@.subrange(desde as int, hasta as int),
{
    String::from_str(s.substring_char(desde, hasta))
}

/// `s` without the white space at its two ends.
pub open spec fn recortar(s: Seq<char>) -> Seq<char>
    decreases s.len(),
{
    if s.len() == 0 {
        s
    } else if es_espacio(s[0]) {
        recortar(s.drop_first())
    } else if es_espacio(s.last()) {
        recortar(s.drop_last())
    } else {
        s
    }
}

/// The bounds of `recortar` applied to the characters `desde..hasta`.
pub fn limites_recortados(cs: &Vec<char>, desde: usize, hasta: usize) -> (r: (usize, usize))
    requires
        desde <= hasta <= cs@.len(),
    ensures
        desde <= r.0 <= r.1 <= hasta,
        cs@.subrange(r.0 as int, r.1 as int) == recortar(cs@.subrange(desde as int, hasta as int)),
{
    let mut a: usize = desde;
    let mut b: usize = hasta;
    while a < b && espacio(cs[a])
        invariant
            desde <= a <= b == hasta <= cs@.len(),
            recortar(cs@.subrange(a as int, b as int)) == recortar(
                cs@.subrange(desde as int, hasta as int),
            ),
        decreases b - a,
    {
        assert(cs@.subrange(a as int, b as int).drop_first() =~= cs@.subrange(a + 1, b as int));
        a += 1;
    }
    while a < b && espacio(cs[b - 1])
        invariant
            desde <= a <= b <= hasta <= cs@.len(),
            a < b ==> !es_espacio(cs@[a as int]),
            recortar(cs@.subrange(a as int, b as int)) == recortar(
                cs@.subrange(desde as int, hasta as int),
            ),
        decreases b - a,
    {
        assert(cs@.subrange(a as int, b as int).drop_last() =~= cs@.subrange(a as int, b - 1));
        b -= 1;
    }
    (a, b)
}

} // verus!
