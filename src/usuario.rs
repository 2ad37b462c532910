use vstd::prelude::*;
use crate::fecha::Fecha;

verus! {

/// A person's role, with what that role records.
pub enum Rol {
    Votante(Votante),
    Candidato(Candidato),
    Administrador(Administrador),
}

pub struct Votante {
    nombre: String,
    id: u8,
    aprobado: bool,
}

pub struct Candidato {
    nombre: String,
    id: u8,
    partido: String,
}

/// The administrator, with the opening and closing dates it set.
pub struct Administrador {
    fecha_inicio: Fecha,
    fecha_cierre: Fecha,
}

impl Administrador {
    /// Checks a role; every role passes.
    pub fn verificar(&self, u: Rol) -> (r: bool)
        ensures
            r,
    {
        true
    }
}

} // verus!
