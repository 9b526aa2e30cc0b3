use vstd::prelude::*;

use chrono::{DateTime, Local, Utc};

use crate::numeros::es_digito;

verus! {

/// Name for what `DateTime::<Utc>::from_timestamp(segundos, nanos)` followed by
/// `to_rfc3339` gives: `None` when chrono has no instant for that timestamp.
pub uninterp spec fn rfc3339_utc(segundos: int, nanos: int) -> Option<Seq<char>>;

/// Name for what `DateTime::parse_from_rfc3339` reads from a text, as the UTC
/// timestamp (seconds, nanoseconds) of the instant; `None` when it is no RFC 3339 text.
pub uninterp spec fn rfc3339_leido(s: Seq<char>) -> Option<(i64, u32)>;

/// Name for what chrono's `DateTime::<Utc>::format(patron)` writes for a timestamp.
pub uninterp spec fn formato_utc(segundos: int, nanos: int, patron: Seq<char>) -> Seq<char>;

/// The patterns the diary formats UTC instants with.
pub open spec fn patron_admitido(patron: Seq<char>) -> bool {
    ||| patron == "%d/%m/%Y"@
    ||| patron == "%Y%m%d-%H%M%S"@
    ||| patron == "%H:%M"@
    ||| patron == "%d/%m/%Y %H:%M"@
}

/// The UTC day of a timestamp, `dd/mm/yyyy`.
pub open spec fn dia_utc(segundos: int, nanos: int) -> Seq<char> {
    formato_utc(segundos, nanos, "%d/%m/%Y"@)
}

/// Calls `DateTime::<Utc>::from_timestamp` and, when chrono has that instant,
/// `to_rfc3339`. The contract claims only that the result is the named function
/// of the two arguments.
#[verifier::external_body]
fn texto_rfc3339(segundos: i64, nanos: u32) -> (r: Option<String>)
    ensures
        r.deep_view() == rfc3339_utc(segundos as int, nanos as int),
{
    DateTime::<Utc>::from_timestamp(segundos, nanos).map(|d| d.to_rfc3339())
}

/// Calls `DateTime::parse_from_rfc3339` and converts the instant to its UTC
/// timestamp. Claims only that the result is the named function of the text.
#[verifier::external_body]
fn leer_rfc3339(s: &str) -> (r: Option<(i64, u32)>)
    ensures
        r == rfc3339_leido(s@),
{
    DateTime::parse_from_rfc3339(s).ok().map(|d| (d.timestamp(), d.timestamp_subsec_nanos()))
}

/// An instant as chrono keeps it: seconds and nanoseconds since the UNIX epoch,
/// always one that chrono can represent.
#[derive(Clone, Copy, Debug, PartialEq, Eq)]
pub struct Instante {
    segundos: i64,
    nanos: u32,
}

impl Instante {
    #[verifier::type_invariant]
    spec fn representable(self) -> bool {
        rfc3339_utc(self.segundos as int, self.nanos as int) is Some
    }

    /// Seconds since the UNIX epoch.
    pub closed spec fn segundos_spec(self) -> int {
        self.segundos as int
    }

    /// Nanoseconds within the second.
    pub closed spec fn nanos_spec(self) -> int {
        self.nanos as int
    }

    /// The instant with that timestamp, when chrono can represent it.
    pub fn nuevo(segundos: i64, nanos: u32) -> (r: Option<Instante>)
        ensures
            r is Some <==> rfc3339_utc(segundos as int, nanos as int) is Some,
            r matches Some(i) ==> i.segundos_spec() == segundos && i.nanos_spec() == nanos,
    {
        match texto_rfc3339(segundos, nanos) {
            Some(_) => Some(Instante { segundos, nanos }),
            None => None,
        }
    }

    /// Seconds since the UNIX epoch.
    pub fn segundos(&self) -> (r: i64)
        ensures
            r == self.segundos_spec(),
    {
        self.segundos
    }

    /// Nanoseconds within the second.
    pub fn nanos(&self) -> (r: u32)
        ensures
            r == self.nanos_spec(),
    {
        self.nanos
    }

    /// The RFC 3339 text of the instant (`DateTime::to_rfc3339`).
    pub fn rfc3339(&self) -> (r: String)
        ensures
            Some(r@) == rfc3339_utc(self.segundos_spec(), self.nanos_spec()),
    {
        proof {
            use_type_invariant(self);
        }
        match texto_rfc3339(self.segundos, self.nanos) {
            Some(t) => t,
            None => String::new(),
        }
    }
}

/// The RFC 3339 text of an instant, as a view.
pub open spec fn texto_de(i: Instante) -> Seq<char> {
    rfc3339_utc(i.segundos_spec(), i.nanos_spec())->0
}

/// The value of a decimal digit.
pub open spec fn valor_digito(c: char) -> int {
    c as int - 48
}

/// The two-digit number at positions `a`, `a + 1`.
pub open spec fn dos_cifras(s: Seq<char>, a: int) -> int {
    10 * valor_digito(s[a]) + valor_digito(s[a + 1])
}

/// The shape `YYYY-MM-DD HH:MM:SS` that SQLite's `datetime()` writes: 19 characters,
/// digits everywhere but the separators.
pub open spec fn forma_sqlite(s: Seq<char>) -> bool {
    &&& s.len() == 19
    &&& s[4] == '-' && s[7] == '-' && s[10] == ' ' && s[13] == ':' && s[16] == ':'
    &&& forall|i: int|
        0 <= i < 19 && i != 4 && i != 7 && i != 10 && i != 13 && i != 16 ==> #[trigger] es_digito(
            s[i],
        )
}

/// A leap year of the proleptic Gregorian calendar.
pub open spec fn bisiesto(y: int) -> bool {
    y % 4 == 0 && (y % 100 != 0 || y % 400 == 0)
}

/// The number of days of a month.
pub open spec fn dias_del_mes(y: int, m: int) -> int {
    if m == 2 {
        if bisiesto(y) {
            29
        } else {
            28
        }
    } else if m == 4 || m == 6 || m == 9 || m == 11 {
        30
    } else {
        31
    }
}

/// Days from 1970-01-01 to a date of the proleptic Gregorian calendar (year 0 to 9999),
/// counting years from March so that the leap day comes last; `ya` is that year moved
/// forward by one 400-year era so that it is never negative.
pub open spec fn dias_civiles(y: int, m: int, d: int) -> int {
    let ya = (if m <= 2 {
        y - 1
    } else {
        y
    }) + 400;
    let era = ya / 400;
    let yoe = ya % 400;
    let doy = (153 * (if m > 2 {
        m - 3
    } else {
        m + 9
    }) + 2) / 5 + d - 1;
    let doe = yoe * 365 + yoe / 4 - yoe / 100 + doy;
    (era - 1) * 146097 + doe - 719468
}

/// The UTC timestamp that a `YYYY-MM-DD HH:MM:SS` text names, when it has that shape
/// and names a real date and time.
pub open spec fn fecha_sqlite(s: Seq<char>) -> Option<int> {
    if forma_sqlite(s) {
        let y = 100 * dos_cifras(s, 0) + dos_cifras(s, 2);
        let m = dos_cifras(s, 5);
        let d = dos_cifras(s, 8);
        let h = dos_cifras(s, 11);
        let mi = dos_cifras(s, 14);
        let se = dos_cifras(s, 17);
        if 1 <= m <= 12 && 1 <= d <= dias_del_mes(y, m) && h < 24 && mi < 60 && se < 60 {
            Some(dias_civiles(y, m, d) * 86400 + h * 3600 + mi * 60 + se)
        } else {
            None
        }
    } else {
        None
    }
}

/// What the store reads from a stored date: RFC 3339 text first, else SQLite's
/// `YYYY-MM-DD HH:MM:SS` taken as UTC.
pub open spec fn fecha_leida(s: Seq<char>) -> Option<(int, int)> {
    match rfc3339_leido(s) {
        Some(t) => Some((t.0 as int, t.1 as int)),
        None => match fecha_sqlite(s) {
            Some(t) => Some((t, 0)),
            None => None,
        },
    }
}

fn dos_cifras_exec(cs: &Vec<char>, a: usize) -> (r: u64)
    requires
        a + 1 < cs.len(),
        es_digito(cs@[a as int]),
        es_digito(cs@[a + 1]),
    ensures
        r == dos_cifras(cs@, a as int),
        r < 100,
{
    let b = a + 1;
    assert(cs@[b as int] == cs@[a + 1]);
    let x: u64 = (cs[a] as u32 - 48) as u64;
    let y: u64 = (cs[b] as u32 - 48) as u64;
    10 * x + y
}

/// The UTC timestamp of a `YYYY-MM-DD HH:MM:SS` text.
fn leer_fecha_sqlite(s: &str) -> (r: Option<i64>)
    ensures
        r matches Some(t) ==> fecha_sqlite(s@) == Some(t as int),
        r is None ==> fecha_sqlite(s@) is None,
{
    let cs = crate::texto::caracteres(s);
    if cs.len() != 19 || cs[4] != '-' || cs[7] != '-' || cs[10] != ' ' || cs[13] != ':' || cs[16]
        != ':' {
        return None;
    }
    let mut i: usize = 0;
    while i < 19
        invariant
            i <= 19,
            cs@.len() == 19,
            cs@ == s@,
            forall|k: int|
                0 <= k < i && k != 4 && k != 7 && k != 10 && k != 13 && k != 16
                    ==> #[trigger] es_digito(cs@[k]),
        decreases 19 - i,
    {
        if i != 4 && i != 7 && i != 10 && i != 13 && i != 16 && !('0' <= cs[i] && cs[i] <= '9') {
            assert(!es_digito(s@[i as int]));
            assert(!forma_sqlite(s@));
            return None;
        }
        i = i + 1;
    }
    assert(forma_sqlite(cs@));
    let y: u64 = 100 * dos_cifras_exec(&cs, 0) + dos_cifras_exec(&cs, 2);
    let m = dos_cifras_exec(&cs, 5);
    let d = dos_cifras_exec(&cs, 8);
    let h = dos_cifras_exec(&cs, 11);
    let mi = dos_cifras_exec(&cs, 14);
    let se = dos_cifras_exec(&cs, 17);
    let bis = y % 4 == 0 && (y % 100 != 0 || y % 400 == 0);
    let dm: u64 = if m == 2 {
        if bis {
            29
        } else {
            28
        }
    } else if m == 4 || m == 6 || m == 9 || m == 11 {
        30
    } else {
        31
    };
    if !(1 <= m && m <= 12 && 1 <= d && d <= dm && h < 24 && mi < 60 && se < 60) {
        return None;
    }
    let ya: u64 = (if m <= 2 {
        y + 399
    } else {
        y + 400
    });
    let era: u64 = ya / 400;
    let yoe: u64 = ya % 400;
    let mp: u64 = if m > 2 {
        m - 3
    } else {
        m + 9
    };
    let doy: u64 = (153 * mp + 2) / 5 + d - 1;
    let doe: u64 = yoe * 365 + yoe / 4 - yoe / 100 + doy;
    assert(era <= 26) by (nonlinear_arith)
        requires
            era == ya / 400,
            ya <= 10399,
    ;
    let dias: i64 = (era as i64 - 1) * 146097 + doe as i64 - 719468;
    Some(dias * 86400 + (h * 3600 + mi * 60 + se) as i64)
}

/// Reads a stored date: RFC 3339 text (`parse_from_rfc3339`), or else the
/// `YYYY-MM-DD HH:MM:SS` text that SQLite's `datetime()` writes, taken as UTC.
pub fn parse_dt(s: &str) -> (r: Option<Instante>)
    ensures
        r is Some <==> (fecha_leida(s@) matches Some(t) && rfc3339_utc(t.0, t.1) is Some),
        r matches Some(i) ==> fecha_leida(s@) == Some((i.segundos_spec(), i.nanos_spec())),
{
    match leer_rfc3339(s) {
        Some(t) => Instante::nuevo(t.0, t.1),
        None => match leer_fecha_sqlite(s) {
            Some(t) => Instante::nuevo(t, 0),
            None => None,
        },
    }
}

/// Calls `DateTime::<Utc>::from_timestamp` and `format(patron)` with one of the
/// diary's patterns (both valid strftime patterns, so writing them cannot fail).
/// Claims only that the result is the named function of timestamp and pattern.
#[verifier::external_body]
fn texto_formato_utc(segundos: i64, nanos: u32, patron: &str) -> (r: String)
    requires
        rfc3339_utc(segundos as int, nanos as int) is Some,
        patron_admitido(patron@),
    ensures
        r@ == formato_utc(segundos as int, nanos as int, patron@),
{
    DateTime::<Utc>::from_timestamp(segundos, nanos).unwrap().format(patron).to_string()
}

/// The UTC day of an instant, `dd/mm/yyyy`.
pub fn dia_de(i: &Instante) -> (r: String)
    ensures
        r@ == dia_utc(i.segundos_spec(), i.nanos_spec()),
{
    proof {
        use_type_invariant(i);
    }
    texto_formato_utc(i.segundos, i.nanos, "%d/%m/%Y")
}

/// The UTC date and time of an instant, `yyyymmdd-hhmmss`.
pub fn hora_utc_compacta(i: &Instante) -> (r: String)
    ensures
        r@ == formato_utc(i.segundos_spec(), i.nanos_spec(), "%Y%m%d-%H%M%S"@),
{
    proof {
        use_type_invariant(i);
    }
    texto_formato_utc(i.segundos, i.nanos, "%Y%m%d-%H%M%S")
}

/// The UTC time of day of an instant, `hh:mm`.
pub fn hora_minuto(i: &Instante) -> (r: String)
    ensures
        r@ == formato_utc(i.segundos_spec(), i.nanos_spec(), "%H:%M"@),
{
    proof {
        use_type_invariant(i);
    }
    texto_formato_utc(i.segundos, i.nanos, "%H:%M")
}

/// The UTC day and time of an instant, `dd/mm/yyyy hh:mm`.
pub fn fecha_hora(i: &Instante) -> (r: String)
    ensures
        r@ == formato_utc(i.segundos_spec(), i.nanos_spec(), "%d/%m/%Y %H:%M"@),
{
    proof {
        use_type_invariant(i);
    }
    texto_formato_utc(i.segundos, i.nanos, "%d/%m/%Y %H:%M")
}

/// What a local date and time written with one of the diary's patterns can be: the
/// UTC text of the same instant shifted by the machine's UTC offset, which lies
/// strictly between -24 h and +24 h. Where the shifted timestamp is outside chrono's
/// UTC range nothing is said.
pub open spec fn local_posible(segundos: int, nanos: int, patron: Seq<char>, r: Seq<char>) -> bool {
    exists|desfase: int|
        -86400 < desfase < 86400 && (#[trigger] desplazado_representable(segundos, nanos, desfase)
            ==> r == formato_utc(segundos + desfase, nanos, patron))
}

/// What the compact local date and time (`yyyymmdd-hhmmss`) of a timestamp can be.
pub open spec fn hora_local_posible(segundos: int, nanos: int, r: Seq<char>) -> bool {
    local_posible(segundos, nanos, "%Y%m%d-%H%M%S"@, r)
}

/// Whether chrono has a UTC instant for a timestamp shifted by `desfase` seconds.
pub open spec fn desplazado_representable(segundos: int, nanos: int, desfase: int) -> bool {
    rfc3339_utc(segundos + desfase, nanos) is Some
}

/// Calls `DateTime::<Utc>::from_timestamp`, `with_timezone(&Local)` and
/// `format(patron)` with one of the diary's patterns. chrono formats a
/// `DateTime<Local>` from its naive local date and time, the UTC one plus a
/// `FixedOffset` (whose seconds chrono keeps strictly between -86400 and 86400); these
/// patterns write no offset. So the text is the UTC text of the timestamp shifted by
/// that offset. Which offset is left unsaid: it is the machine's time zone.
#[verifier::external_body]
fn texto_formato_local(segundos: i64, nanos: u32, patron: &str) -> (r: String)
    requires
        rfc3339_utc(segundos as int, nanos as int) is Some,
        patron_admitido(patron@),
    ensures
        local_posible(segundos as int, nanos as int, patron@, r@),
{
    DateTime::<Utc>::from_timestamp(segundos, nanos).unwrap().with_timezone(&Local).format(
        patron,
    ).to_string()
}

/// The local date and time of an instant, `yyyymmdd-hhmmss`, in the machine's time
/// zone: the UTC text of the instant shifted by the machine's offset.
pub fn hora_local_compacta(i: &Instante) -> (r: String)
    ensures
        hora_local_posible(i.segundos_spec(), i.nanos_spec(), r@),
{
    proof {
        use_type_invariant(i);
    }
    texto_formato_local(i.segundos, i.nanos, "%Y%m%d-%H%M%S")
}

/// The local day and time of an instant, `dd/mm/yyyy hh:mm`, in the machine's time zone.
pub fn fecha_hora_local(i: &Instante) -> (r: String)
    ensures
        local_posible(i.segundos_spec(), i.nanos_spec(), "%d/%m/%Y %H:%M"@, r@),
{
    proof {
        use_type_invariant(i);
    }
    texto_formato_local(i.segundos, i.nanos, "%d/%m/%Y %H:%M")
}

/// Calls `Utc::now()` and gives its timestamp. chrono builds that instant with
/// `DateTime::from_timestamp(secs, subsec_nanos).unwrap()` from the system clock, so
/// chrono has an instant for the timestamp given back. Which instant is left unsaid:
/// it is the clock.
#[verifier::external_body]
fn reloj_utc() -> (r: (i64, u32))
    ensures
        rfc3339_utc(r.0 as int, r.1 as int) is Some,
{
    let t = Utc::now();
    (t.timestamp(), t.timestamp_subsec_nanos())
}

/// The current local date and time, `yyyymmdd-hhmmss` (`Local::now()`, which chrono
/// takes as `Utc::now()` in the machine's time zone): the compact local text of some
/// instant chrono can represent.
pub(crate) fn ahora_local_compacta() -> (r: String)
    ensures
        exists|segundos: int, nanos: int|
            rfc3339_utc(segundos, nanos) is Some && #[trigger] hora_local_posible(segundos, nanos, r@),
{
    let (segundos, nanos) = reloj_utc();
    let r = texto_formato_local(segundos, nanos, "%Y%m%d-%H%M%S");
    assert(hora_local_posible(segundos as int, nanos as int, r@));
    r
}

}
