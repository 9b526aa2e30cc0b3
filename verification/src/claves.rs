use vstd::prelude::*;

use rand::RngCore;
use sha2::{Digest, Sha256};

use crate::texto::cadena_de;

verus! {

/// Lowercase hexadecimal digit of `d` (0..=15).
pub open spec fn digito_hex(d: int) -> char {
    if d < 10 {
        (d + 48) as char
    } else {
        (d + 87) as char
    }
}

/// Lowercase hexadecimal text of some bytes, two digits per byte.
pub open spec fn hex(b: Seq<u8>) -> Seq<char>
    decreases b.len(),
{
    if b.len() == 0 {
        Seq::empty()
    } else {
        hex(b.drop_last()) + seq![digito_hex((b.last() / 16) as int), digito_hex((b.last() % 16) as int)]
    }
}

fn digito_hex_exec(d: u8) -> (r: char)
    requires
        d < 16,
    ensures
        r == digito_hex(d as int),
{
    if d < 10 {
        ((48 + d) as char)
    } else {
        ((87 + d) as char)
    }
}

proof fn lema_longitud_hex(b: Seq<u8>)
    ensures
        hex(b).len() == 2 * b.len(),
    decreases b.len(),
{
    if b.len() > 0 {
        lema_longitud_hex(b.drop_last());
    }
}

/// The lowercase hexadecimal text of some bytes (`{:02x}` for each).
pub fn to_hex(bytes: &[u8]) -> (r: String)
    ensures
        r@ == hex(bytes@),
        r@.len() == 2 * bytes@.len(),
{
    let n = bytes.len();
    let mut v: Vec<char> = Vec::new();
    let mut i: usize = 0;
    assert(bytes@.take(0) =~= Seq::<u8>::empty());
    while i < n
        invariant
            i <= n == bytes@.len(),
            v@ == hex(bytes@.take(i as int)),
        decreases n - i,
    {
        let b = bytes[i];
        v.push(digito_hex_exec(b / 16));
        v.push(digito_hex_exec(b % 16));
        assert(bytes@.take(i + 1).drop_last() =~= bytes@.take(i as int));
        assert(v@ =~= hex(bytes@.take(i + 1)));
        i = i + 1;
    }
    assert(bytes@.take(n as int) =~= bytes@);
    proof {
        lema_longitud_hex(bytes@);
    }
    cadena_de(&v)
}

/// Name for the SHA-256 digest of some bytes.
pub uninterp spec fn sha256(datos: Seq<u8>) -> Seq<u8>;

/// Calls `Sha256::digest` of the `sha2` crate. Claims that the result is the named
/// digest of the bytes, 32 bytes long (the output size of SHA-256).
#[verifier::external_body]
fn resumen_sha256(datos: &[u8]) -> (r: Vec<u8>)
    ensures
        r@ == sha256(datos@),
        r@.len() == 32,
{
    Sha256::digest(datos).to_vec()
}

/// The stored form of an API key: the hexadecimal SHA-256 of its UTF-8 bytes.
pub open spec fn hash_de(token: Seq<char>) -> Seq<char> {
    hex(sha256(vstd::utf8::encode_utf8(token)))
}

/// Hash of an API key as it is stored (the key itself is never kept).
pub fn hash_key(token: &str) -> (r: String)
    ensures
        r@ == hash_de(token@),
        r@.len() == 64,
{
    let d = resumen_sha256(token.as_bytes());
    to_hex(d.as_slice())
}

/// Calls `fill_bytes` of `rand::thread_rng()` on 24 bytes. Claims only that 24
/// bytes come back: they are random.
#[verifier::external_body]
fn bytes_aleatorios() -> (r: Vec<u8>)
    ensures
        r@.len() == 24,
{
    let mut bytes = [0u8; 24];
    rand::thread_rng().fill_bytes(&mut bytes);
    bytes.to_vec()
}

/// The API key made from some secret bytes: `dk_` and their hexadecimal text.
pub open spec fn token_de(b: Seq<u8>) -> Seq<char> {
    "dk_"@ + hex(b)
}

/// The API key made from the given secret bytes.
pub fn token_desde_bytes(bytes: &[u8]) -> (r: String)
    ensures
        r@ == token_de(bytes@),
{
    let h = to_hex(bytes);
    let mut r = crate::consulta::texto("dk_");
    r.append(h.as_str());
    r
}

/// A new random API key: `dk_` and 48 hexadecimal digits.
pub fn generate_token() -> (r: String)
    ensures
        exists|b: Seq<u8>| b.len() == 24 && r@ == token_de(b),
{
    let b = bytes_aleatorios();
    token_desde_bytes(b.as_slice())
}

/// Every API key starts with `dk_` and is 51 characters long.
pub proof fn ley_forma_de_token(b: Seq<u8>)
    requires
        b.len() == 24,
    ensures
        token_de(b).len() == 51,
        token_de(b).take(3) == "dk_"@,
{
    reveal_strlit("dk_");
    lema_longitud_hex(b);
    assert(token_de(b).take(3) =~= "dk_"@);
}

}
