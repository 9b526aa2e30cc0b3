use vstd::prelude::*;

verus! {

/// The character of a decimal digit `d` (0..=9).
pub open spec fn digito(d: int) -> char {
    (d + 48) as char
}

/// Whether a character is an ASCII decimal digit.
pub open spec fn es_digito(c: char) -> bool {
    '0' <= c && c <= '9'
}

/// Whether every character of a text is an ASCII decimal digit.
pub open spec fn todos_digitos(s: Seq<char>) -> bool {
    forall|i: int| 0 <= i < s.len() ==> #[trigger] es_digito(s[i])
}

/// Decimal notation of a natural number, most significant digit first, no leading zeros.
pub open spec fn decimal_nat(n: nat) -> Seq<char>
    decreases n,
{
    if n < 10 {
        seq![digito(n as int)]
    } else {
        decimal_nat(n / 10).push(digito((n % 10) as int))
    }
}

/// Decimal notation of an integer, as `Display` writes it: a `-` before negatives.
pub open spec fn decimal(n: int) -> Seq<char> {
    if n < 0 {
        seq!['-'] + decimal_nat((-n) as nat)
    } else {
        decimal_nat(n as nat)
    }
}

/// Value of a sequence of decimal digits.
pub open spec fn valor_digitos(s: Seq<char>) -> int
    decreases s.len(),
{
    if s.len() == 0 {
        0
    } else {
        valor_digitos(s.drop_last()) * 10 + (s.last() as int - 48)
    }
}

/// What `str::parse::<i64>` gives back: an optional `+` or `-`, then one or more
/// ASCII digits whose value fits in an `i64`.
pub open spec fn entero_de(s: Seq<char>) -> Option<i64> {
    let negativo = s.len() > 0 && s[0] == '-';
    let cuerpo = if s.len() > 0 && (s[0] == '-' || s[0] == '+') {
        s.drop_first()
    } else {
        s
    };
    let v = if negativo {
        -valor_digitos(cuerpo)
    } else {
        valor_digitos(cuerpo)
    };
    if cuerpo.len() > 0 && todos_digitos(cuerpo) && i64::MIN <= v && v <= i64::MAX {
        Some(v as i64)
    } else {
        None
    }
}

/// The decimal notation of a natural number is a non-empty run of digits with that value.
pub proof fn lema_decimal_nat(n: nat)
    ensures
        decimal_nat(n).len() > 0,
        todos_digitos(decimal_nat(n)),
        valor_digitos(decimal_nat(n)) == n,
    decreases n,
{
    if n >= 10 {
        lema_decimal_nat(n / 10);
        let s = decimal_nat(n);
        assert(digito((n % 10) as int) as int == (n % 10) + 48);
        assert(s.last() == digito((n % 10) as int));
        assert(valor_digitos(s) == valor_digitos(s.drop_last()) * 10 + (s.last() as int - 48));
        assert((n / 10) * 10 + n % 10 == n);
        assert(s.drop_last() =~= decimal_nat(n / 10));
        assert forall|i: int| 0 <= i < s.len() implies #[trigger] es_digito(s[i]) by {
            if i < s.len() - 1 {
                assert(s[i] == decimal_nat(n / 10)[i]);
            }
        }
    } else {
        assert(decimal_nat(n).drop_last() =~= Seq::<char>::empty());
        assert(digito(n as int) as int == n + 48);
        assert(valor_digitos(Seq::<char>::empty()) == 0);
        let s = decimal_nat(n);
        assert(valor_digitos(s) == valor_digitos(s.drop_last()) * 10 + (s.last() as int - 48));
    }
}

/// Reading back the decimal notation of an `i64` gives the same number.
pub proof fn lema_entero_de_decimal(n: i64)
    ensures
        entero_de(decimal(n as int)) == Some(n),
{
    if n < 0 {
        let m = (-(n as int)) as nat;
        lema_decimal_nat(m);
        let s = decimal(n as int);
        assert(s.drop_first() =~= decimal_nat(m));
    } else {
        lema_decimal_nat(n as nat);
        assert(decimal_nat(n as nat)[0] != '-' && decimal_nat(n as nat)[0] != '+') by {
            assert(es_digito(decimal_nat(n as nat)[0]));
        }
    }
}

/// Two `i64` have the same decimal notation only if they are equal.
pub proof fn lema_decimal_inyectivo(a: i64, b: i64)
    ensures
        decimal(a as int) == decimal(b as int) ==> a == b,
{
    lema_entero_de_decimal(a);
    lema_entero_de_decimal(b);
}

/// Appends the decimal digits of `m` to `out`.
fn anadir_digitos(m: u64, out: &mut Vec<char>)
    ensures
        final(out)@ == old(out)@ + decimal_nat(m as nat),
    decreases m,
{
    if m >= 10 {
        anadir_digitos(m / 10, out);
    }
    let d: u64 = m % 10;
    let c: char = if d == 0 { '0' } else if d == 1 { '1' } else if d == 2 { '2' } else if d == 3 {
        '3'
    } else if d == 4 { '4' } else if d == 5 { '5' } else if d == 6 { '6' } else if d == 7 {
        '7'
    } else if d == 8 { '8' } else { '9' };
    out.push(c);
    proof {
        if m >= 10 {
            assert(decimal_nat(m as nat) == decimal_nat((m / 10) as nat).push(digito((m % 10) as int)));
        }
    }
}

/// Decimal notation of `n`, as `n.to_string()` writes it.
pub fn decimal_de(n: i64) -> (r: Vec<char>)
    ensures
        r@ == decimal(n as int),
{
    let mut r: Vec<char> = Vec::new();
    if n < 0 {
        r.push('-');
        let m: u64 = ((-(n + 1)) as u64) + 1;
        anadir_digitos(m, &mut r);
    } else {
        anadir_digitos(n as u64, &mut r);
    }
    r
}


proof fn lema_valor_no_negativo(s: Seq<char>)
    requires
        todos_digitos(s),
    ensures
        valor_digitos(s) >= 0,
    decreases s.len(),
{
    if s.len() > 0 {
        assert(todos_digitos(s.drop_last())) by {
            assert forall|i: int| 0 <= i < s.drop_last().len() implies #[trigger] es_digito(
                s.drop_last()[i],
            ) by {
                assert(es_digito(s[i]));
            }
        }
        lema_valor_no_negativo(s.drop_last());
        assert(es_digito(s[s.len() - 1]));
    }
}

/// The value of a digit sequence never drops when digits are added at its end.
proof fn lema_valor_monotono(s: Seq<char>, j: int)
    requires
        todos_digitos(s),
        0 <= j <= s.len(),
    ensures
        valor_digitos(s.take(j)) <= valor_digitos(s),
    decreases s.len() - j,
{
    if j < s.len() {
        let t = s.take(j + 1);
        assert(todos_digitos(t)) by {
            assert forall|i: int| 0 <= i < t.len() implies #[trigger] es_digito(t[i]) by {
                assert(es_digito(s[i]));
            }
        }
        assert(t.drop_last() =~= s.take(j));
        lema_valor_no_negativo(s.take(j));
        assert(es_digito(s[j]));
        lema_valor_monotono(s, j + 1);
    } else {
        assert(s.take(j) =~= s);
    }
}

/// Parses an `i64` the way `str::parse::<i64>` does.
pub fn entero_desde(s: &Vec<char>) -> (r: Option<i64>)
    ensures
        r == entero_de(s@),
{
    let n = s.len();
    let mut i: usize = 0;
    let mut negativo = false;
    if n > 0 && (s[0] == '-' || s[0] == '+') {
        negativo = s[0] == '-';
        i = 1;
    }
    let ghost cuerpo = if s@.len() > 0 && (s@[0] == '-' || s@[0] == '+') {
        s@.drop_first()
    } else {
        s@
    };
    let inicio = i;
    assert(cuerpo =~= s@.subrange(inicio as int, n as int));
    if i == n {
        return None;
    }
    let mut acc: u64 = 0;
    assert(cuerpo.take(0) =~= Seq::<char>::empty());
    while i < n
        invariant
            inicio <= i <= n,
            n == s@.len(),
            cuerpo =~= s@.subrange(inicio as int, n as int),
            cuerpo == (if s@.len() > 0 && (s@[0] == '-' || s@[0] == '+') {
                s@.drop_first()
            } else {
                s@
            }),
            cuerpo.len() > 0,
            negativo == (s@.len() > 0 && s@[0] == '-'),
            todos_digitos(cuerpo.take(i - inicio)),
            acc as int == valor_digitos(cuerpo.take(i - inicio)),
            acc <= 0x8000_0000_0000_0000,
        decreases n - i,
    {
        let c = s[i];
        let k = i - inicio;
        assert(cuerpo.take(k + 1).drop_last() =~= cuerpo.take(k as int));
        if !('0' <= c && c <= '9') {
            assert(!es_digito(cuerpo[k as int]));
            return None;
        }
        let d: u64 = (c as u32 - 48) as u64;
        assert(todos_digitos(cuerpo.take(k + 1))) by {
            assert forall|j: int| 0 <= j < k + 1 implies #[trigger] es_digito(cuerpo.take(k + 1)[j]) by {
                if j < k {
                    assert(cuerpo.take(k + 1)[j] == cuerpo.take(k as int)[j]);
                }
            }
        }
        if acc > (0x8000_0000_0000_0000u64 - d) / 10 {
            proof {
                // the body's value can only grow from here, so it is out of range
                if todos_digitos(cuerpo) {
                    lema_valor_monotono(cuerpo, k + 1);
                }
            }
            return None;
        }
        acc = acc * 10 + d;
        i = i + 1;
    }
    assert(cuerpo.take(n - inicio) =~= cuerpo);
    if negativo {
        if acc == 0x8000_0000_0000_0000u64 {
            Some(i64::MIN)
        } else {
            Some(-(acc as i64))
        }
    } else {
        if acc > 0x7fff_ffff_ffff_ffffu64 {
            None
        } else {
            Some(acc as i64)
        }
    }
}


/// Decimal notation of a natural number.
pub fn decimal_de_natural(m: u64) -> (r: Vec<char>)
    ensures
        r@ == decimal_nat(m as nat),
{
    let mut r: Vec<char> = Vec::new();
    anadir_digitos(m, &mut r);
    assert(r@ =~= decimal_nat(m as nat));
    r
}

}
