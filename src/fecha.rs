use vstd::prelude::*;

verus! {

/// A calendar date (day, month, year) on a simple calendar: every fourth year is a
/// leap year, and months have the lengths that `largo_de_mes` gives, December 30 days.
#[derive(Debug, Clone, Copy, PartialEq, Eq, Structural)]
pub struct Fecha {
    pub dia: i32,
    pub mes: i32,
    pub anio: i32,
}

/// Earliest year of a valid date.
pub const ANIO_MINIMO: i32 = 1000;

/// Every fourth year is a leap year.
pub open spec fn bisiesto(anio: int) -> bool {
    anio % 4 == 0
}

/// Length of month `mes` (1 to 12) in a common year.
pub open spec fn largo_de_mes(mes: int) -> int {
    if mes == 2 {
        28
    } else if mes == 4 || mes == 6 || mes == 8 || mes == 10 || mes == 12 {
        30
    } else {
        31
    }
}

/// Length of month `mes` in year `anio`: February gains a day in a leap year.
pub open spec fn largo_en(mes: int, anio: int) -> int {
    if mes == 2 && bisiesto(anio) {
        29
    } else {
        largo_de_mes(mes)
    }
}

/// Days of year `anio`.
pub open spec fn largo_de_anio(anio: int) -> int {
    if bisiesto(anio) {
        365
    } else {
        364
    }
}

/// Days of the years from the earliest year up to, not including, `anio`.
pub open spec fn dias_previos_al_anio(anio: int) -> int
    decreases anio - ANIO_MINIMO,
{
    if anio <= ANIO_MINIMO {
        0
    } else {
        dias_previos_al_anio(anio - 1) + largo_de_anio(anio - 1)
    }
}

/// Days of the months of `anio` before month `mes`.
pub open spec fn dias_previos_al_mes(mes: int, anio: int) -> int
    decreases mes,
{
    if mes <= 1 {
        0
    } else {
        dias_previos_al_mes(mes - 1, anio) + largo_en(mes - 1, anio)
    }
}

proof fn lemma_anio_completo(anio: int)
    ensures
        dias_previos_al_mes(12, anio) + largo_en(12, anio) == largo_de_anio(anio),
{
    reveal_with_fuel(dias_previos_al_mes, 12);
}

impl Fecha {
    /// Month in 1..=12, day from 1 to the month's length, year from the earliest year on.
    pub open spec fn valida(&self) -> bool {
        &&& 1 <= self.mes <= 12
        &&& 1 <= self.dia
        &&& self.anio >= ANIO_MINIMO
        &&& self.dia <= largo_en(self.mes as int, self.anio as int)
    }

    /// Position of the date among all days: the first day of the earliest year is 1.
    pub open spec fn ordinal(&self) -> int {
        dias_previos_al_anio(self.anio as int) + dias_previos_al_mes(
            self.mes as int,
            self.anio as int,
        )
            + self.dia
    }

    /// `self` comes strictly after `otra`: a later year, or month, or day.
    pub open spec fn posterior_a(&self, otra: Fecha) -> bool {
        ||| self.anio > otra.anio
        ||| self.anio == otra.anio && self.mes > otra.mes
        ||| self.anio == otra.anio && self.mes == otra.mes && self.dia > otra.dia
    }

    pub fn new(dia: i32, mes: i32, anio: i32) -> (r: Fecha)
        ensures
            r == (Fecha { dia, mes, anio }),
    {
        return Fecha { dia, mes, anio };
    }

    /// Whether both dates are the same day.
    pub fn eq(&self, f: &Fecha) -> (r: bool)
        ensures
            r == (*self == *f),
    {
        return self.dia == f.dia && self.mes == f.mes && self.anio == f.anio;
    }

    /// Length of month `mes` in a common year.
    fn dias_mes(mes: i32) -> (r: i32)
        requires
            1 <= mes <= 12,
        ensures
            r == largo_de_mes(mes as int),
    {
        match mes {
            2 => 28,
            4 | 6 | 8 | 10 | 12 => 30,
            _ => 31,
        }
    }

    fn es_fecha_valida(&self) -> (r: bool)
        ensures
            r == self.valida(),
    {
        if (self.mes > 0) && (self.mes <= 12) && (self.dia > 0) && (self.dia <= 31) && (self.anio
            >= ANIO_MINIMO) {
            if self.mes == 2 {
                if self.es_bisiesto() {
                    return self.dia <= 29;
                } else {
                    return self.dia <= 28;
                }
            } else {
                return self.dia <= Fecha::dias_mes(self.mes);
            }
        }
        return false;
    }

    /// Whether the date's year is a leap year.
    pub fn es_bisiesto(&self) -> (r: bool)
        ensures
            r == bisiesto(self.anio as int),
    {
        return self.anio % 4 == 0;
    }

    /// Moves the date `dias` days forward.
    pub fn sumar_dias(&mut self, dias: i32)
        requires
            old(self).valida(),
            1 <= old(self).dia + dias <= i32::MAX,
            old(self).ordinal() + dias <= dias_previos_al_anio(i32::MAX as int + 1),
        ensures
            final(self).valida(),
            final(self).ordinal() == old(self).ordinal() + dias,
    {
        let ghost destino = self.ordinal() + dias;
        self.dia += dias;
        while !self.es_fecha_valida()
            invariant
                1 <= self.mes <= 12,
                1 <= self.dia,
                self.anio >= ANIO_MINIMO,
                self.ordinal() == destino,
                destino <= dias_previos_al_anio(i32::MAX as int + 1),
            decreases self.dia,
        {
            proof {
                lemma_anio_completo(self.anio as int);
            }
            match self.mes {
                2 => {
                    if self.es_bisiesto() {
                        if self.dia > 29 {
                            self.mes += 1;
                            self.dia -= 29;
                        }
                    } else {
                        if self.dia > Fecha::dias_mes(self.mes) {
                            self.dia -= Fecha::dias_mes(self.mes);
                            self.mes += 1;
                        }
                    }
                },
                12 => {
                    if self.dia > 30 {
                        assert(dias_previos_al_anio(self.anio + 1) == dias_previos_al_anio(
                            self.anio as int,
                        ) + largo_de_anio(self.anio as int));
                        self.anio += 1;
                        self.mes = 1;
                        self.dia -= 30;
                    }
                },
                _ => {
                    if self.dia > Fecha::dias_mes(self.mes) {
                        self.dia -= Fecha::dias_mes(self.mes);
                        self.mes += 1;
                    }
                },
            }
        }
    }

    /// Moves the date `dias` days back.
    pub fn restar_dias(&mut self, dias: i32)
        requires
            old(self).valida(),
            i32::MIN <= old(self).dia - dias,
            old(self).dia - dias <= largo_en(old(self).mes as int, old(self).anio as int),
            old(self).ordinal() - dias >= 1,
        ensures
            final(self).valida(),
            final(self).ordinal() == old(self).ordinal() - dias,
    {
        let ghost destino = self.ordinal() - dias;
        self.dia -= dias;
        while !self.es_fecha_valida()
            invariant
                1 <= self.mes <= 12,
                self.dia <= largo_en(self.mes as int, self.anio as int),
                self.anio >= ANIO_MINIMO,
                self.ordinal() == destino,
                destino >= 1,
            decreases 32 - self.dia,
        {
            match self.mes {
                3 => {
                    if self.es_bisiesto() {
                        if self.dia <= 0 {
                            self.mes -= 1;
                            self.dia += 29;
                        }
                    } else {
                        if self.dia <= 0 {
                            self.dia += Fecha::dias_mes(self.mes - 1);
                            self.mes -= 1;
                        }
                    }
                },
                1 => {
                    if self.dia <= 0 {
                        proof {
                            lemma_anio_completo(self.anio - 1);
                        }
                        assert(dias_previos_al_anio(self.anio as int) == dias_previos_al_anio(
                            self.anio - 1,
                        ) + largo_de_anio(self.anio - 1));
                        self.anio -= 1;
                        self.mes = 12;
                        self.dia += 30;
                    }
                },
                _ => {
                    if self.dia <= 0 {
                        self.dia += Fecha::dias_mes(self.mes - 1);
                        self.mes -= 1;
                    }
                },
            }
        }
    }

    /// Whether `self` comes strictly after `f`.
    pub fn es_mayor(&self, f: &Fecha) -> (r: bool)
        ensures
            r == self.posterior_a(*f),
    {
        if self.anio > f.anio {
            return true;
        } else {
            if self.anio == f.anio && self.mes > f.mes {
                return true;
            } else {
                if (self.anio == f.anio) && (self.mes == f.mes) && (self.dia > f.dia) {
                    return true;
                } else {
                    return false;
                }
            }
        }
    }
}

} // verus!
