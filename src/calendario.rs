use vstd::prelude::*;

verus! {

/// Milliseconds in one day.
pub const MS_POR_DIA: u64 = 86_400_000;

/// Instants are milliseconds since the epoch, 1 January 1970.
pub type Timestamp = u64;

/// A civil date (day, month, year) used to open and close elections.
#[derive(Debug, Clone, Copy)]
pub struct Fecha {
    pub dia: u32,
    pub mes: u32,
    pub anio: i32,
}

/// Gregorian leap year.
pub open spec fn es_bisiesto(anio: int) -> bool {
    (anio % 4 == 0 && anio % 100 != 0) || anio % 400 == 0
}

/// Days of a year.
pub open spec fn dias_del_anio(anio: int) -> int {
    if es_bisiesto(anio) {
        366
    } else {
        365
    }
}

/// Days of a month (1 to 12) of the given year.
pub open spec fn dias_del_mes(mes: int, anio: int) -> int {
    if mes == 2 {
        if es_bisiesto(anio) {
            29
        } else {
            28
        }
    } else if mes == 4 || mes == 6 || mes == 9 || mes == 11 {
        30
    } else {
        31
    }
}

/// Days of all the years from 1970 up to, not including, `anio`.
pub open spec fn dias_antes_del_anio(anio: int) -> int
    decreases anio - 1970,
{
    if anio <= 1970 {
        0
    } else {
        dias_antes_del_anio(anio - 1) + dias_del_anio(anio - 1)
    }
}

/// Days of all the months of `anio` before month `mes`.
pub open spec fn dias_antes_del_mes(mes: int, anio: int) -> int
    decreases mes,
{
    if mes <= 1 {
        0
    } else {
        dias_antes_del_mes(mes - 1, anio) + dias_del_mes(mes - 1, anio)
    }
}

/// A year's months add up to the year: the days before a month plus that month
/// never pass the year's length, and they grow with the month.
proof fn lemma_meses_en_el_anio(m1: int, m2: int, anio: int)
    requires
        1 <= m1 < m2 <= 13,
    ensures
        dias_antes_del_mes(m1, anio) + dias_del_mes(m1, anio) <= dias_antes_del_mes(m2, anio),
        dias_antes_del_mes(m2, anio) <= dias_del_anio(anio),
    decreases m2,
{
    reveal_with_fuel(dias_antes_del_mes, 13);
    if m2 > m1 + 1 {
        lemma_meses_en_el_anio(m1, m2 - 1, anio);
    }
}

/// A later year starts after every day of an earlier one.
proof fn lemma_anios_crecientes(a1: int, a2: int)
    requires
        1970 <= a1 < a2,
    ensures
        dias_antes_del_anio(a1) + dias_del_anio(a1) <= dias_antes_del_anio(a2),
    decreases a2,
{
    if a2 > a1 + 1 {
        lemma_anios_crecientes(a1, a2 - 1);
    }
}

/// The day count of a valid date lies within its year.
proof fn lemma_dias_en_su_anio(f: Fecha)
    requires
        f.valida(),
    ensures
        dias_antes_del_anio(f.anio as int) < f.dias(),
        f.dias() <= dias_antes_del_anio(f.anio as int) + dias_del_anio(f.anio as int),
{
    lemma_meses_en_el_anio(f.mes as int, 13, f.anio as int);
    lemma_dias_antes_del_mes_no_negativos(f.mes as int, f.anio as int);
}

proof fn lemma_dias_antes_del_anio_no_negativos(anio: int)
    ensures
        dias_antes_del_anio(anio) >= 0,
    decreases anio - 1970,
{
    if anio > 1970 {
        lemma_dias_antes_del_anio_no_negativos(anio - 1);
    }
}

proof fn lemma_dias_antes_del_mes_no_negativos(mes: int, anio: int)
    ensures
        dias_antes_del_mes(mes, anio) >= 0,
    decreases mes,
{
    if mes > 1 {
        lemma_dias_antes_del_mes_no_negativos(mes - 1, anio);
    }
}

/// The day count follows the civil order of valid dates.
proof fn lemma_dias_crecientes(f1: Fecha, f2: Fecha)
    requires
        f1.valida(),
        f2.valida(),
        f1.precede(f2),
    ensures
        f1.dias() < f2.dias(),
{
    lemma_dias_en_su_anio(f1);
    lemma_dias_en_su_anio(f2);
    if f1.anio < f2.anio {
        lemma_anios_crecientes(f1.anio as int, f2.anio as int);
    } else if f1.mes < f2.mes {
        lemma_meses_en_el_anio(f1.mes as int, f2.mes as int, f1.anio as int);
        lemma_dias_antes_del_mes_no_negativos(f2.mes as int, f2.anio as int);
    }
}

/// For valid dates whose day count fits in 32 bits, one date precedes another in the
/// civil order exactly when its instant is smaller.
pub proof fn lemma_instante_monotono(f1: Fecha, f2: Fecha)
    requires
        f1.valida(),
        f2.valida(),
        f1.dias() < 0x1_0000_0000,
        f2.dias() < 0x1_0000_0000,
    ensures
        f1.precede(f2) <==> f1.instante() < f2.instante(),
{
    lemma_dias_en_su_anio(f1);
    lemma_dias_en_su_anio(f2);
    if f1.precede(f2) {
        lemma_dias_crecientes(f1, f2);
    } else if f2.precede(f1) {
        lemma_dias_crecientes(f2, f1);
    }
    lemma_dias_antes_del_anio_no_negativos(f1.anio as int);
    lemma_dias_antes_del_anio_no_negativos(f2.anio as int);
    vstd::arithmetic::div_mod::lemma_small_mod(f1.dias() as nat, 0x1_0000_0000);
    vstd::arithmetic::div_mod::lemma_small_mod(f2.dias() as nat, 0x1_0000_0000);
}

impl Fecha {
    /// The date is well formed: month in 1..=12, day in 1..=31 and within the month,
    /// year from 1970 on.
    pub open spec fn valida(&self) -> bool {
        &&& 1 <= self.mes <= 12
        &&& 1 <= self.dia <= 31
        &&& self.anio >= 1970
        &&& self.dia <= dias_del_mes(self.mes as int, self.anio as int)
    }

    /// Day count of the date: 1 January 1970 is day 1.
    pub open spec fn dias(&self) -> int {
        dias_antes_del_anio(self.anio as int) + dias_antes_del_mes(
            self.mes as int,
            self.anio as int,
        )
            + self.dia
    }

    /// The instant of the date: its day count, reduced modulo 2^32, in milliseconds.
    ///
    /// Since 1 January 1970 is day 1, the instant of a date is the end of that day (the
    /// start of the next one). An election opens once the current instant is past the
    /// instant of its opening date, that is, after its whole opening day has passed; it
    /// closes once the current instant is past the instant of its closing date, after its
    /// whole closing day.
    pub open spec fn instante(&self) -> int {
        (self.dias() % 0x1_0000_0000) * MS_POR_DIA
    }

    /// Civil order: earlier year, then earlier month, then earlier day.
    pub open spec fn precede(&self, otra: Fecha) -> bool {
        ||| self.anio < otra.anio
        ||| self.anio == otra.anio && self.mes < otra.mes
        ||| self.anio == otra.anio && self.mes == otra.mes && self.dia < otra.dia
    }

    /// Whether the date is well formed.
    pub fn es_fecha_valida(&self) -> (r: bool)
        ensures
            r == self.valida(),
    {
        if (self.mes > 0) && (self.mes <= 12) && (self.dia > 0) && (self.dia <= 31) && (self.anio
            >= 1970) {
            if self.mes == 2 {
                if self.is_leap_year(self.anio) {
                    return self.dia <= 29;
                } else {
                    return self.dia <= 28;
                }
            } else {
                return self.dia <= self.days_in_month(self.mes);
            }
        }
        false
    }

    /// The instant at which the date stands, in milliseconds since the epoch: the end of
    /// the date's day (see `instante`).
    pub fn to_timestamp(&self) -> (r: Timestamp)
        requires
            self.valida(),
        ensures
            r == self.instante(),
    {
        let dias = self.days_since_epoch();
        (dias as u64) * MS_POR_DIA
    }

    fn days_since_epoch(&self) -> (r: u32)
        requires
            self.valida(),
        ensures
            r == self.dias() % 0x1_0000_0000,
    {
        let mut dias: u64 = 0;
        let mut anio: i32 = 1970;
        while anio < self.anio
            invariant
                1970 <= anio <= self.anio,
                dias == dias_antes_del_anio(anio as int),
                dias <= 366 * (anio - 1970),
            decreases self.anio - anio,
        {
            let largo: u64 = if self.is_leap_year(anio) {
                366
            } else {
                365
            };
            dias = dias + largo;
            anio = anio + 1;
        }
        let mut mes: u32 = 1;
        while mes < self.mes
            invariant
                1 <= mes <= self.mes <= 12,
                self.anio >= 1970,
                dias == dias_antes_del_anio(self.anio as int) + dias_antes_del_mes(
                    mes as int,
                    self.anio as int,
                ),
                dias <= 366 * (self.anio - 1970) + 31 * (mes - 1),
            decreases self.mes - mes,
        {
            dias = dias + self.days_in_month(mes) as u64;
            mes = mes + 1;
        }
        dias = dias + self.dia as u64;
        (dias % 0x1_0000_0000) as u32
    }

    /// Whether `year` is a leap year.
    fn is_leap_year(&self, year: i32) -> (r: bool)
        ensures
            r == es_bisiesto(year as int),
    {
        (year % 4 == 0 && year % 100 != 0) || (year % 400 == 0)
    }

    /// Days of month `month` in the date's year.
    fn days_in_month(&self, month: u32) -> (r: u32)
        requires
            1 <= month <= 12,
        ensures
            r == dias_del_mes(month as int, self.anio as int),
    {
        match month {
            1 | 3 | 5 | 7 | 8 | 10 | 12 => 31,
            4 | 6 | 9 | 11 => 30,
            _ => {
                if self.is_leap_year(self.anio) {
                    29
                } else {
                    28
                }
            },
        }
    }
}

} // verus!
