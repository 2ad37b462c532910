use vstd::prelude::*;
use crate::calendario::{Fecha, Timestamp};
use crate::cuenta::{contiene, AccountId};
use crate::votacion::{lemma_suma_con_cero, lemma_suma_un_voto, suma_votos, Votacion};

verus! {

/// Role that an approved participant asks for in an election.
#[derive(Clone, Copy, Debug, PartialEq, Eq, Structural)]
pub enum Rol {
    Votante,
    Candidato,
}

/// Why an operation was refused. A refused operation changes nothing.
#[derive(Clone, Copy, Debug, PartialEq, Eq, Structural)]
pub enum Error {
    /// The operation is reserved to the administrator.
    NotAdministrator,
    /// The administrator cannot register as a participant.
    AdministratorCannotRegister,
    /// Participants must be at least 18.
    Underage,
    /// The same person, with the same account, already waits for approval.
    AlreadyPending,
    /// The national id or the account is already used by another participant.
    DuplicateIdentity,
    /// A date of the election is not a valid date.
    InvalidDate,
    /// An election with that id already exists.
    DuplicateElectionId,
    /// The caller is not an approved participant.
    NotApproved,
    /// No election has that id (when applying for a role).
    NoSuchElection,
    /// The election has already opened.
    ElectionAlreadyOpen,
    /// The caller already holds, or already asked for, a role in that election.
    AlreadyApplied,
    /// No election has that id (when voting).
    UnknownElection,
    /// The election has not opened yet.
    NotYetOpen,
    /// The election has closed.
    AlreadyClosed,
    /// The caller has already voted in that election.
    AlreadyVoted,
    /// The chosen candidate's tally is at `u32::MAX` and cannot count one more vote.
    TallyFull,
}

/// What the administrator's decision on the oldest candidacy or voter request did.
#[derive(Clone, Copy, Debug, PartialEq, Eq)]
pub enum Admision {
    /// No request waited; nothing changed.
    SinSolicitudes,
    /// The account now holds the role in the election.
    Admitida(AccountId, i32),
    /// The administrator turned the request down.
    Rechazada(AccountId, i32),
    /// The election had already opened, or no longer exists: the request was dropped.
    Descartada(AccountId, i32),
}

/// A participant: pending until the administrator approves it.
#[derive(Clone, Debug)]
pub struct Usuario {
    pub nombre: String,
    pub apellido: String,
    pub edad: i32,
    pub dni: i128,
    pub verificado: bool,
    pub rol: Option<Rol>,
    pub acc_id: AccountId,
}

/// What a participant is, as a mathematical value.
pub ghost struct UsuarioV {
    pub nombre: Seq<char>,
    pub apellido: Seq<char>,
    pub edad: i32,
    pub dni: i128,
    pub verificado: bool,
    pub rol: Option<Rol>,
    pub acc_id: AccountId,
}

impl View for Usuario {
    type V = UsuarioV;

    open spec fn view(&self) -> UsuarioV {
        UsuarioV {
            nombre: self.nombre@,
            apellido: self.apellido@,
            edad: self.edad,
            dni: self.dni,
            verificado: self.verificado,
            rol: self.rol,
            acc_id: self.acc_id,
        }
    }
}

impl Usuario {
    pub fn new(
        nombre: String,
        apellido: String,
        dni: i128,
        edad: i32,
        verificado: bool,
        rol: Option<Rol>,
        acc_id: AccountId,
    ) -> (r: Usuario)
        ensures
            r@ == (UsuarioV {
                nombre: nombre@,
                apellido: apellido@,
                edad,
                dni,
                verificado,
                rol,
                acc_id,
            }),
    {
        Usuario { nombre, apellido, dni, edad, verificado, rol, acc_id }
    }

    /// A copy of the participant.
    pub fn copia(&self) -> (r: Usuario)
        ensures
            r@ == self@,
    {
        Usuario {
            nombre: self.nombre.clone(),
            apellido: self.apellido.clone(),
            edad: self.edad,
            dni: self.dni,
            verificado: self.verificado,
            rol: self.rol,
            acc_id: self.acc_id,
        }
    }
}

/// Two participants are the same when both their national id and their account agree.
impl PartialEq for Usuario {
    fn eq(&self, other: &Usuario) -> (r: bool) {
        self.dni == other.dni && self.acc_id == other.acc_id
    }
}

impl vstd::std_specs::cmp::PartialEqSpecImpl for Usuario {
    open spec fn obeys_eq_spec() -> bool {
        true
    }

    open spec fn eq_spec(&self, other: &Usuario) -> bool {
        self.dni == other.dni && self.acc_id == other.acc_id
    }
}

/// An election as a mathematical value.
pub ghost struct VotacionV {
    pub id: i32,
    pub puesto: Seq<char>,
    pub candidatos: Seq<AccountId>,
    pub votantes: Seq<AccountId>,
    pub votos: Seq<u32>,
    pub votaron: Seq<AccountId>,
    pub fecha_inicio: Timestamp,
    pub fecha_fin: Timestamp,
}

pub open spec fn vista_votacion(v: Votacion) -> VotacionV {
    VotacionV {
        id: v.id,
        puesto: v.puesto@,
        candidatos: v.candidatos@,
        votantes: v.votantes@,
        votos: v.votos@,
        votaron: v.votaron@,
        fecha_inicio: v.fecha_inicio,
        fecha_fin: v.fecha_fin,
    }
}

/// The whole state of the engine as a mathematical value.
pub ghost struct SistemaV {
    pub nombre_administrador: Seq<char>,
    pub admin: AccountId,
    pub espera_usuarios: Seq<UsuarioV>,
    pub usuarios_reg: Seq<UsuarioV>,
    pub espera_candidatos: Seq<(AccountId, i32)>,
    pub espera_votantes: Seq<(AccountId, i32)>,
    pub votaciones: Seq<VotacionV>,
}

/// A participant that has just asked to register.
pub open spec fn usuario_pendiente(
    nombre: Seq<char>,
    apellido: Seq<char>,
    edad: i32,
    dni: i128,
    acc_id: AccountId,
) -> UsuarioV {
    UsuarioV { nombre, apellido, edad, dni, verificado: false, rol: None, acc_id }
}

/// No two entries share a national id or an account.
pub open spec fn identidades_unicas(us: Seq<UsuarioV>) -> bool {
    forall|i: int, j: int|
        0 <= i < us.len() && 0 <= j < us.len() && i != j ==> us[i].dni != us[j].dni
            && us[i].acc_id != us[j].acc_id
}

/// No identity occurs twice.
pub open spec fn sin_repetidos<T>(s: Seq<T>) -> bool {
    forall|i: int, j: int| 0 <= i < s.len() && 0 <= j < s.len() && i != j ==> s[i] != s[j]
}

/// Election `v` once `acc` holds role `rol` in it; a new candidate starts with no votes.
pub open spec fn admitir(v: VotacionV, rol: Rol, acc: AccountId) -> VotacionV {
    match rol {
        Rol::Candidato => VotacionV {
            candidatos: v.candidatos.push(acc),
            votos: v.votos.push(0),
            ..v
        },
        Rol::Votante => VotacionV { votantes: v.votantes.push(acc), ..v },
    }
}

impl VotacionV {
    /// Each candidate has one tally; candidates and voters are distinct accounts, each
    /// listed once; whoever voted is a voter, listed once; the tallies add up to the
    /// number of voters who voted.
    pub open spec fn bien_formada(&self) -> bool {
        &&& self.votos.len() == self.candidatos.len()
        &&& suma_votos(self.votos) == self.votaron.len()
        &&& sin_repetidos(self.candidatos)
        &&& sin_repetidos(self.votantes)
        &&& forall|k: int| 0 <= k < self.candidatos.len() ==> !self.votantes.contains(
            #[trigger] self.candidatos[k],
        )
        &&& sin_repetidos(self.votaron)
        &&& forall|k: int| 0 <= k < self.votaron.len() ==> self.votantes.contains(
            #[trigger] self.votaron[k],
        )
    }
}

impl SistemaV {
    /// Pending and approved participants, oldest pending first.
    pub open spec fn participantes(&self) -> Seq<UsuarioV> {
        self.espera_usuarios + self.usuarios_reg
    }

    /// Both admission queues, candidacies first.
    pub open spec fn solicitudes(&self) -> Seq<(AccountId, i32)> {
        self.espera_candidatos + self.espera_votantes
    }

    pub open spec fn existe_votacion(&self, id: i32) -> bool {
        exists|i: int| 0 <= i < self.votaciones.len() && self.votaciones[i].id == id
    }

    /// The position of the election with id `id`.
    pub open spec fn pos_votacion(&self, id: i32) -> int {
        choose|i: int| 0 <= i < self.votaciones.len() && self.votaciones[i].id == id
    }

    /// `acc` is an approved participant.
    pub open spec fn registrado(&self, acc: AccountId) -> bool {
        exists|i: int| 0 <= i < self.usuarios_reg.len() && self.usuarios_reg[i].acc_id == acc
    }

    /// Requests and roles belong to approved participants only.
    pub open spec fn roles_de_aprobados(&self) -> bool {
        &&& forall|k: int|
            0 <= k < self.solicitudes().len() ==> self.registrado(
                #[trigger] self.solicitudes()[k].0,
            )
        &&& forall|i: int, k: int|
            0 <= i < self.votaciones.len() && 0 <= k < self.votaciones[i].candidatos.len()
                ==> self.registrado(#[trigger] self.votaciones[i].candidatos[k])
        &&& forall|i: int, k: int|
            0 <= i < self.votaciones.len() && 0 <= k < self.votaciones[i].votantes.len()
                ==> self.registrado(#[trigger] self.votaciones[i].votantes[k])
    }

    /// The invariant of the engine: no two participants, pending or approved, share a
    /// national id or an account; election ids are unique; each election is well formed;
    /// a request waits at most once over both queues, never for an election in which its
    /// account already holds a role; every account that waits in a queue, or holds a role
    /// in an election, is an approved participant.
    pub open spec fn bien_formado(&self) -> bool {
        &&& self.roles_de_aprobados()
        &&& identidades_unicas(self.participantes())
        &&& forall|i: int, j: int|
            0 <= i < self.votaciones.len() && 0 <= j < self.votaciones.len() && i != j
                ==> self.votaciones[i].id != self.votaciones[j].id
        &&& forall|i: int|
            0 <= i < self.votaciones.len() ==> #[trigger] self.votaciones[i].bien_formada()
        &&& sin_repetidos(self.solicitudes())
        &&& forall|k: int, i: int|
            0 <= k < self.solicitudes().len() && 0 <= i < self.votaciones.len()
                && #[trigger] self.solicitudes()[k].1 == #[trigger] self.votaciones[i].id
                ==> !self.votaciones[i].candidatos.contains(self.solicitudes()[k].0)
                && !self.votaciones[i].votantes.contains(self.solicitudes()[k].0)
    }

    /// The refusal, if any, of the creation of an election by `caller`.
    pub open spec fn error_creacion(
        &self,
        caller: AccountId,
        id: i32,
        inicio: Fecha,
        fin: Fecha,
    ) -> Option<Error> {
        if caller != self.admin {
            Some(Error::NotAdministrator)
        } else if !inicio.valida() || !fin.valida() {
            Some(Error::InvalidDate)
        } else if self.existe_votacion(id) {
            Some(Error::DuplicateElectionId)
        } else {
            None
        }
    }

    /// `acc` holds a role in election `id`, or waits for one.
    pub open spec fn ya_postulado(&self, acc: AccountId, id: i32) -> bool {
        let v = self.votaciones[self.pos_votacion(id)];
        ||| v.candidatos.contains(acc)
        ||| v.votantes.contains(acc)
        ||| self.solicitudes().contains((acc, id))
    }

    /// The refusal, if any, of an application by `caller`, at instant `momento`, for a
    /// role in election `id`.
    pub open spec fn error_postulacion(
        &self,
        caller: AccountId,
        momento: Timestamp,
        id: i32,
    ) -> Option<Error> {
        if !self.registrado(caller) {
            Some(Error::NotApproved)
        } else if !self.existe_votacion(id) {
            Some(Error::NoSuchElection)
        } else if momento > self.votaciones[self.pos_votacion(id)].fecha_inicio {
            Some(Error::ElectionAlreadyOpen)
        } else if self.ya_postulado(caller, id) {
            Some(Error::AlreadyApplied)
        } else {
            None
        }
    }

    /// The state after `acc` asks for role `rol` in election `id`.
    pub open spec fn con_solicitud(&self, rol: Rol, acc: AccountId, id: i32) -> SistemaV {
        match rol {
            Rol::Candidato => SistemaV {
                espera_candidatos: self.espera_candidatos.push((acc, id)),
                ..*self
            },
            Rol::Votante => SistemaV {
                espera_votantes: self.espera_votantes.push((acc, id)),
                ..*self
            },
        }
    }

    /// The queue of requests for role `rol`.
    pub open spec fn cola(&self, rol: Rol) -> Seq<(AccountId, i32)> {
        match rol {
            Rol::Candidato => self.espera_candidatos,
            Rol::Votante => self.espera_votantes,
        }
    }

    /// The state once the oldest request for role `rol` has left its queue.
    pub open spec fn sin_primera(&self, rol: Rol) -> SistemaV {
        match rol {
            Rol::Candidato => SistemaV {
                espera_candidatos: self.espera_candidatos.drop_first(),
                ..*self
            },
            Rol::Votante => SistemaV {
                espera_votantes: self.espera_votantes.drop_first(),
                ..*self
            },
        }
    }

    /// The decision of the administrator on the oldest request for role `rol`, taken at
    /// instant `momento`, and the state that follows. The request leaves its queue; it is
    /// dropped when its election has opened; otherwise the account gets the role when
    /// `aceptar` holds.
    pub open spec fn resolucion(&self, rol: Rol, momento: Timestamp, aceptar: bool) -> (
        Admision,
        SistemaV,
    ) {
        let (acc, id) = self.cola(rol)[0];
        let sin = self.sin_primera(rol);
        if !self.existe_votacion(id) || momento > self.votaciones[self.pos_votacion(
            id,
        )].fecha_inicio {
            (Admision::Descartada(acc, id), sin)
        } else if aceptar {
            let p = self.pos_votacion(id);
            (Admision::Admitida(acc, id), SistemaV {
                votaciones: sin.votaciones.update(p, admitir(sin.votaciones[p], rol, acc)),
                ..sin
            })
        } else {
            (Admision::Rechazada(acc, id), sin)
        }
    }

    /// The outcome of a vote by `caller`, at instant `momento`, in election `id`, for the
    /// candidate at 1-based position `opcion`, and the state that follows. `Ok(false)`:
    /// the vote was ignored, because the caller is not a voter of the election (every
    /// voter is an approved participant) or the position names no candidate. `Ok(true)`:
    /// the candidate's tally went up by one and the caller is marked as having voted.
    pub open spec fn resultado_voto(
        &self,
        caller: AccountId,
        momento: Timestamp,
        id: i32,
        opcion: i32,
    ) -> (Result<bool, Error>, SistemaV) {
        let p = self.pos_votacion(id);
        let v = self.votaciones[p];
        if !self.existe_votacion(id) {
            (Err(Error::UnknownElection), *self)
        } else if !(momento > v.fecha_inicio) {
            (Err(Error::NotYetOpen), *self)
        } else if momento > v.fecha_fin {
            (Err(Error::AlreadyClosed), *self)
        } else if caller == self.admin || !v.votantes.contains(caller) {
            (Ok(false), *self)
        } else if opcion < 1 || opcion > v.candidatos.len() {
            (Ok(false), *self)
        } else if v.votaron.contains(caller) {
            (Err(Error::AlreadyVoted), *self)
        } else if v.votos[opcion - 1] == u32::MAX {
            (Err(Error::TallyFull), *self)
        } else {
            let k = opcion - 1;
            (Ok(true), SistemaV {
                votaciones: self.votaciones.update(p, VotacionV {
                    votos: v.votos.update(k, (v.votos[k] + 1) as u32),
                    votaron: v.votaron.push(caller),
                    ..v
                }),
                ..*self
            })
        }
    }

    /// The refusal, if any, of a registration by `caller`.
    pub open spec fn error_registro(&self, caller: AccountId, edad: i32, dni: i128) -> Option<
        Error,
    > {
        if caller == self.admin {
            Some(Error::AdministratorCannotRegister)
        } else if edad < 18 {
            Some(Error::Underage)
        } else if exists|i: int|
            0 <= i < self.espera_usuarios.len() && self.espera_usuarios[i].dni == dni
                && self.espera_usuarios[i].acc_id == caller {
            Some(Error::AlreadyPending)
        } else if exists|i: int|
            0 <= i < self.participantes().len() && (self.participantes()[i].dni == dni
                || self.participantes()[i].acc_id == caller) {
            Some(Error::DuplicateIdentity)
        } else {
            None
        }
    }
}

/// The engine: one administrator, the participants, the admission queues and the
/// elections.
pub struct Sistema {
    nombre_administrador: String,
    espera_usuarios: Vec<Usuario>,
    usuarios_reg: Vec<Usuario>,
    espera_candidatos: Vec<(AccountId, i32)>,
    espera_votantes: Vec<(AccountId, i32)>,
    votaciones: Vec<Votacion>,
    admin: AccountId,
}

impl View for Sistema {
    type V = SistemaV;

    closed spec fn view(&self) -> SistemaV {
        SistemaV {
            nombre_administrador: self.nombre_administrador@,
            admin: self.admin,
            espera_usuarios: self.espera_usuarios@.map_values(|u: Usuario| u@),
            usuarios_reg: self.usuarios_reg@.map_values(|u: Usuario| u@),
            espera_candidatos: self.espera_candidatos@,
            espera_votantes: self.espera_votantes@,
            votaciones: self.votaciones@.map_values(|v: Votacion| vista_votacion(v)),
        }
    }
}

/// Adding an entry whose national id and account are new keeps the entries unique.
proof fn lemma_unicas_al_agregar(a: Seq<UsuarioV>, b: Seq<UsuarioV>, u: UsuarioV)
    requires
        identidades_unicas(a + b),
        forall|k: int| 0 <= k < (a + b).len() ==> (#[trigger] (a + b)[k]).dni != u.dni && (a
            + b)[k].acc_id != u.acc_id,
    ensures
        identidades_unicas(a.push(u) + b),
{
    let viejo = a + b;
    let nuevo = a.push(u) + b;
    assert forall|i: int, j: int|
        0 <= i < nuevo.len() && 0 <= j < nuevo.len() && i != j implies nuevo[i].dni
        != nuevo[j].dni && nuevo[i].acc_id != nuevo[j].acc_id by {
        let vi = if i < a.len() { i } else { i - 1 };
        let vj = if j < a.len() { j } else { j - 1 };
        if i != a.len() {
            assert(nuevo[i] == viejo[vi]);
        }
        if j != a.len() {
            assert(nuevo[j] == viejo[vj]);
        }
    }
}

/// Approving one more participant keeps every approved participant approved.
proof fn lemma_aprobados_se_mantienen(s: SistemaV, t: SistemaV)
    requires
        s.usuarios_reg.len() <= t.usuarios_reg.len(),
        forall|i: int| 0 <= i < s.usuarios_reg.len() ==> t.usuarios_reg[i] == s.usuarios_reg[i],
    ensures
        forall|acc: AccountId| s.registrado(acc) ==> #[trigger] t.registrado(acc),
{
    assert forall|acc: AccountId| s.registrado(acc) implies #[trigger] t.registrado(acc) by {
        let i = choose|i: int| 0 <= i < s.usuarios_reg.len() && s.usuarios_reg[i].acc_id == acc;
        assert(t.usuarios_reg[i].acc_id == acc);
    }
}

/// Dropping the oldest pending entry, and approving it or not, keeps the entries unique.
proof fn lemma_unicas_al_resolver(a: Seq<UsuarioV>, b: Seq<UsuarioV>, u: UsuarioV, acepta: bool)
    requires
        a.len() > 0,
        identidades_unicas(a + b),
        u.dni == a[0].dni,
        u.acc_id == a[0].acc_id,
    ensures
        identidades_unicas(a.drop_first() + (if acepta { b.push(u) } else { b })),
{
    let viejo = a + b;
    let nuevo = a.drop_first() + (if acepta { b.push(u) } else { b });
    assert forall|i: int, j: int|
        0 <= i < nuevo.len() && 0 <= j < nuevo.len() && i != j implies nuevo[i].dni
        != nuevo[j].dni && nuevo[i].acc_id != nuevo[j].acc_id by {
        assert(viejo[0] == a[0]);
        let vi = if i < viejo.len() - 1 { i + 1 } else { 0 };
        let vj = if j < viejo.len() - 1 { j + 1 } else { 0 };
        if i < viejo.len() - 1 {
            assert(nuevo[i] == viejo[i + 1]);
        } else {
            assert(nuevo[i] == u);
        }
        if j < viejo.len() - 1 {
            assert(nuevo[j] == viejo[j + 1]);
        } else {
            assert(nuevo[j] == u);
        }
        assert(vi != vj);
        assert(viejo[vi].dni != viejo[vj].dni && viejo[vi].acc_id != viejo[vj].acc_id);
    }
}

/// Election ids are unique, so the election found with an id is the one `pos_votacion`
/// names.
proof fn lemma_pos_votacion(s: SistemaV, id: i32, i: int)
    requires
        s.bien_formado(),
        0 <= i < s.votaciones.len(),
        s.votaciones[i].id == id,
    ensures
        s.existe_votacion(id),
        s.pos_votacion(id) == i,
{
    let p = s.pos_votacion(id);
    assert(0 <= p < s.votaciones.len() && s.votaciones[p].id == id);
}

/// A new request for an election in which its account holds no role keeps the engine
/// well formed.
proof fn lemma_encolar(s: SistemaV, rol: Rol, acc: AccountId, id: i32)
    requires
        s.bien_formado(),
        s.registrado(acc),
        !s.solicitudes().contains((acc, id)),
        forall|i: int|
            0 <= i < s.votaciones.len() && #[trigger] s.votaciones[i].id == id
                ==> !s.votaciones[i].candidatos.contains(acc)
                && !s.votaciones[i].votantes.contains(acc),
    ensures
        s.con_solicitud(rol, acc, id).bien_formado(),
{
    let t = s.con_solicitud(rol, acc, id);
    let viejo = s.solicitudes();
    let nuevo = t.solicitudes();
    let n = s.espera_candidatos.len();
    let x = (acc, id);
    // Where each new request stood before; the added one stood nowhere.
    let ubic = |k: int|
        if rol == Rol::Candidato {
            if k < n {
                k
            } else if k == n {
                -1
            } else {
                k - 1
            }
        } else if k < viejo.len() {
            k
        } else {
            -1
        };
    assert forall|k: int| 0 <= k < nuevo.len() implies (if ubic(k) == -1 {
        nuevo[k] == x
    } else {
        0 <= ubic(k) < viejo.len() && nuevo[k] == viejo[ubic(k)]
    }) by {}
    assert forall|k: int| 0 <= k < nuevo.len() implies t.registrado(#[trigger] nuevo[k].0) by {
        if ubic(k) != -1 {
            assert(s.registrado(viejo[ubic(k)].0));
        }
    }
    assert forall|i: int, j: int|
        0 <= i < nuevo.len() && 0 <= j < nuevo.len() && i != j implies nuevo[i] != nuevo[j] by {
        if ubic(i) == -1 {
            assert(viejo[ubic(j)] != x);
        } else if ubic(j) == -1 {
            assert(viejo[ubic(i)] != x);
        }
    }
    assert forall|k: int, i: int|
        0 <= k < nuevo.len() && 0 <= i < t.votaciones.len() && #[trigger] nuevo[k].1
            == #[trigger] t.votaciones[i].id implies !t.votaciones[i].candidatos.contains(
        nuevo[k].0,
    ) && !t.votaciones[i].votantes.contains(nuevo[k].0) by {
        if ubic(k) != -1 {
            assert(viejo[ubic(k)].1 == s.votaciones[i].id);
        }
    }
}

/// Deciding on the oldest request keeps the engine well formed.
proof fn lemma_resolver(s: SistemaV, rol: Rol, momento: Timestamp, aceptar: bool)
    requires
        s.bien_formado(),
        s.cola(rol).len() > 0,
    ensures
        s.resolucion(rol, momento, aceptar).1.bien_formado(),
{
    let t = s.resolucion(rol, momento, aceptar).1;
    let viejo = s.solicitudes();
    let nuevo = t.solicitudes();
    let n = s.espera_candidatos.len();
    let quitado: int = if rol == Rol::Candidato { 0 } else { n as int };
    let x = s.cola(rol)[0];
    assert(viejo[quitado] == x);
    let ubic = |k: int| if k < quitado { k } else { k + 1 };
    assert(nuevo.len() == viejo.len() - 1);
    assert forall|k: int| 0 <= k < nuevo.len() implies nuevo[k] == viejo[ubic(k)] by {}
    assert forall|i: int, j: int|
        0 <= i < nuevo.len() && 0 <= j < nuevo.len() && i != j implies nuevo[i] != nuevo[j] by {
        assert(viejo[ubic(i)] != viejo[ubic(j)]);
    }
    let admitido = s.existe_votacion(x.1) && !(momento > s.votaciones[s.pos_votacion(
        x.1,
    )].fecha_inicio) && aceptar;
    if admitido {
        let p = s.pos_votacion(x.1);
        assert(0 <= p < s.votaciones.len() && s.votaciones[p].id == x.1);
        assert(!s.votaciones[p].candidatos.contains(viejo[quitado].0));
        assert(!s.votaciones[p].votantes.contains(viejo[quitado].0));
        let v = s.votaciones[p];
        let w = admitir(v, rol, x.0);
        assert(v.bien_formada());
        assert(w.bien_formada()) by {
            if rol == Rol::Candidato {
                lemma_suma_con_cero(v.votos);
                assert forall|k: int| 0 <= k < w.candidatos.len() implies !w.votantes.contains(
                    #[trigger] w.candidatos[k]) by {
                    if k < v.candidatos.len() {
                        assert(w.candidatos[k] == v.candidatos[k]);
                    }
                }
            } else {
                assert forall|k: int| 0 <= k < w.candidatos.len() implies !w.votantes.contains(
                    #[trigger] w.candidatos[k]) by {
                    assert(!v.votantes.contains(w.candidatos[k]));
                    if w.votantes.contains(w.candidatos[k]) {
                        let j = choose|j: int|
                            0 <= j < w.votantes.len() && w.votantes[j] == w.candidatos[k];
                        if j < v.votantes.len() {
                            assert(v.votantes[j] == w.votantes[j]);
                        }
                    }
                }
                assert forall|k: int| 0 <= k < w.votaron.len() implies w.votantes.contains(
                    #[trigger] w.votaron[k]) by {
                    let j = choose|j: int|
                        0 <= j < v.votantes.len() && v.votantes[j] == v.votaron[k];
                    assert(w.votantes[j] == v.votantes[j]);
                }
            }
        }
        assert forall|i: int| 0 <= i < t.votaciones.len() implies #[trigger] t.votaciones[
            i
        ].bien_formada() by {
            if i != p {
                assert(t.votaciones[i] == s.votaciones[i]);
            }
        }
        assert forall|k: int, i: int|
            0 <= k < nuevo.len() && 0 <= i < t.votaciones.len() && #[trigger] nuevo[k].1
                == #[trigger] t.votaciones[i].id implies !t.votaciones[i].candidatos.contains(
            nuevo[k].0,
        ) && !t.votaciones[i].votantes.contains(nuevo[k].0) by {
            let e = viejo[ubic(k)];
            assert(e.1 == s.votaciones[i].id);
            if i == p {
                assert(e != x);
                assert(e.0 != x.0);
                if t.votaciones[i].candidatos.contains(e.0) {
                    let j = choose|j: int|
                        0 <= j < t.votaciones[i].candidatos.len()
                            && t.votaciones[i].candidatos[j] == e.0;
                    if j < v.candidatos.len() {
                        assert(v.candidatos[j] == e.0);
                    }
                }
                if t.votaciones[i].votantes.contains(e.0) {
                    let j = choose|j: int|
                        0 <= j < t.votaciones[i].votantes.len()
                            && t.votaciones[i].votantes[j] == e.0;
                    if j < v.votantes.len() {
                        assert(v.votantes[j] == e.0);
                    }
                }
            } else {
                assert(t.votaciones[i] == s.votaciones[i]);
            }
        }
    } else {
        assert(t.votaciones == s.votaciones);
        assert forall|k: int, i: int|
            0 <= k < nuevo.len() && 0 <= i < t.votaciones.len() && #[trigger] nuevo[k].1
                == #[trigger] t.votaciones[i].id implies !t.votaciones[i].candidatos.contains(
            nuevo[k].0,
        ) && !t.votaciones[i].votantes.contains(nuevo[k].0) by {
            assert(viejo[ubic(k)].1 == s.votaciones[i].id);
        }
    }
}

impl Sistema {
    /// An engine administered by `admin`, with nothing registered.
    pub fn new(nombre_administrador: String, admin: AccountId) -> (r: Sistema)
        ensures
            r@ == (SistemaV {
                nombre_administrador: nombre_administrador@,
                admin,
                espera_usuarios: Seq::empty(),
                usuarios_reg: Seq::empty(),
                espera_candidatos: Seq::empty(),
                espera_votantes: Seq::empty(),
                votaciones: Seq::empty(),
            }),
            r@.bien_formado(),
    {
        let r = Sistema {
            nombre_administrador,
            espera_usuarios: Vec::new(),
            usuarios_reg: Vec::new(),
            espera_candidatos: Vec::new(),
            espera_votantes: Vec::new(),
            votaciones: Vec::new(),
            admin,
        };
        assert(r@.espera_usuarios =~= Seq::empty());
        assert(r@.usuarios_reg =~= Seq::empty());
        assert(r@.votaciones =~= Seq::empty());
        r
    }

    /// Whether the same person, with the same account, already waits for approval.
    fn pendiente_identico(&self, aux: &Usuario) -> (r: bool)
        ensures
            r == exists|i: int|
                0 <= i < self@.espera_usuarios.len() && self@.espera_usuarios[i].dni == aux.dni
                    && self@.espera_usuarios[i].acc_id == aux.acc_id,
    {
        let mut i: usize = 0;
        while i < self.espera_usuarios.len()
            invariant
                0 <= i <= self.espera_usuarios@.len(),
                forall|j: int|
                    0 <= j < i ==> !(self.espera_usuarios@[j].dni == aux.dni
                        && self.espera_usuarios@[j].acc_id == aux.acc_id),
            decreases self.espera_usuarios@.len() - i,
        {
            if self.espera_usuarios[i] == *aux {
                assert(self@.espera_usuarios[i as int] == self.espera_usuarios@[i as int]@);
                return true;
            }
            i = i + 1;
        }
        proof {
            assert forall|j: int| 0 <= j < self@.espera_usuarios.len() implies !(
            self@.espera_usuarios[j].dni == aux.dni && self@.espera_usuarios[j].acc_id
                == aux.acc_id) by {
                assert(self@.espera_usuarios[j] == self.espera_usuarios@[j]@);
            }
        }
        false
    }

    /// Whether a participant, pending or approved, has national id `dni` or account `acc`.
    fn identidad_en_uso(&self, dni: i128, acc: AccountId) -> (r: bool)
        ensures
            r == exists|i: int|
                0 <= i < self@.participantes().len() && (self@.participantes()[i].dni == dni
                    || self@.participantes()[i].acc_id == acc),
    {
        let ghost lista = self@.participantes();
        let ghost n = self.espera_usuarios@.len();
        let mut i: usize = 0;
        while i < self.espera_usuarios.len()
            invariant
                0 <= i <= n,
                n == self.espera_usuarios@.len(),
                lista == self@.participantes(),
                forall|j: int| 0 <= j < i ==> !(lista[j].dni == dni || lista[j].acc_id == acc),
            decreases n - i,
        {
            assert(lista[i as int] == self.espera_usuarios@[i as int]@);
            if self.espera_usuarios[i].dni == dni || self.espera_usuarios[i].acc_id == acc {
                return true;
            }
            i = i + 1;
        }
        let mut k: usize = 0;
        while k < self.usuarios_reg.len()
            invariant
                0 <= k <= self.usuarios_reg@.len(),
                n == self.espera_usuarios@.len(),
                lista == self@.participantes(),
                lista.len() == n + self.usuarios_reg@.len(),
                forall|j: int| 0 <= j < n + k ==> !(lista[j].dni == dni || lista[j].acc_id == acc),
            decreases self.usuarios_reg@.len() - k,
        {
            assert(lista[n + k] == self.usuarios_reg@[k as int]@);
            if self.usuarios_reg[k].dni == dni || self.usuarios_reg[k].acc_id == acc {
                return true;
            }
            k = k + 1;
        }
        false
    }

    /// Asks, as `caller`, to register as a participant. The request waits, in arrival
    /// order, for the administrator's decision.
    pub fn registrar_usuario(
        &mut self,
        caller: AccountId,
        nom: String,
        apellido: String,
        edad: i32,
        dni: i128,
    ) -> (r: Result<(), Error>)
        requires
            old(self)@.bien_formado(),
        ensures
            final(self)@.bien_formado(),
            match old(self)@.error_registro(caller, edad, dni) {
                Some(e) => r == Err::<(), Error>(e) && final(self)@ == old(self)@,
                None => r is Ok && final(self)@ == (SistemaV {
                    espera_usuarios: old(self)@.espera_usuarios.push(
                        usuario_pendiente(nom@, apellido@, edad, dni, caller),
                    ),
                    ..old(self)@
                }),
            },
    {
        if caller == self.admin {
            return Err(Error::AdministratorCannotRegister);
        }
        if edad < 18 {
            return Err(Error::Underage);
        }
        let aux: Usuario = Usuario::new(nom, apellido, dni, edad, false, None, caller);
        if self.pendiente_identico(&aux) {
            return Err(Error::AlreadyPending);
        }
        if self.identidad_en_uso(dni, caller) {
            return Err(Error::DuplicateIdentity);
        }
        let ghost antes = self@;
        self.espera_usuarios.push(aux);
        proof {
            assert(self@.espera_usuarios =~= antes.espera_usuarios.push(aux@));
            lemma_unicas_al_agregar(antes.espera_usuarios, antes.usuarios_reg, aux@);
        }
        Ok(())
    }

    /// The administrator decides on the oldest registration request: it is approved when
    /// `aceptar` holds, and leaves the queue either way. Returns the participant decided
    /// on, or `None` when no request waits.
    pub fn validar_usuario(&mut self, caller: AccountId, aceptar: bool) -> (r: Result<
        Option<Usuario>,
        Error,
    >)
        requires
            old(self)@.bien_formado(),
        ensures
            final(self)@.bien_formado(),
            caller != old(self)@.admin ==> r == Err::<Option<Usuario>, Error>(
                Error::NotAdministrator,
            ) && final(self)@ == old(self)@,
            caller == old(self)@.admin && old(self)@.espera_usuarios.len() == 0 ==> r is Ok
                && r->Ok_0 is None && final(self)@ == old(self)@,
            caller == old(self)@.admin && old(self)@.espera_usuarios.len() > 0 ==> {
                let u = UsuarioV { verificado: aceptar, ..old(self)@.espera_usuarios[0] };
                &&& r is Ok
                &&& r->Ok_0 is Some
                &&& r->Ok_0->Some_0@ == u
                &&& final(self)@ == (SistemaV {
                    espera_usuarios: old(self)@.espera_usuarios.drop_first(),
                    usuarios_reg: if aceptar {
                        old(self)@.usuarios_reg.push(u)
                    } else {
                        old(self)@.usuarios_reg
                    },
                    ..old(self)@
                })
            },
    {
        if caller != self.admin {
            return Err(Error::NotAdministrator);
        }
        if self.espera_usuarios.len() == 0 {
            return Ok(None);
        }
        let ghost antes = self@;
        let mut us = self.espera_usuarios.remove(0);
        us.verificado = aceptar;
        if aceptar {
            self.usuarios_reg.push(us.copia());
        }
        proof {
            assert(self@.espera_usuarios =~= antes.espera_usuarios.drop_first());
            if aceptar {
                assert(self@.usuarios_reg =~= antes.usuarios_reg.push(us@));
            } else {
                assert(self@.usuarios_reg =~= antes.usuarios_reg);
            }
            lemma_unicas_al_resolver(antes.espera_usuarios, antes.usuarios_reg, us@, aceptar);
            lemma_aprobados_se_mantienen(antes, self@);
            assert(self@.solicitudes() == antes.solicitudes());
        }
        Ok(Some(us))
    }

    /// The position of the election with id `id`, if there is one.
    fn buscar_votacion(&self, id: i32) -> (r: Option<usize>)
        ensures
            match r {
                Some(i) => i < self@.votaciones.len() && self@.votaciones[i as int].id == id,
                None => !self@.existe_votacion(id),
            },
    {
        let mut i: usize = 0;
        while i < self.votaciones.len()
            invariant
                0 <= i <= self.votaciones@.len(),
                forall|j: int| 0 <= j < i ==> self.votaciones@[j].id != id,
            decreases self.votaciones@.len() - i,
        {
            if self.votaciones[i].id == id {
                return Some(i);
            }
            i = i + 1;
        }
        proof {
            assert forall|j: int| 0 <= j < self@.votaciones.len() implies self@.votaciones[j].id
                != id by {
                assert(self@.votaciones[j] == vista_votacion(self.votaciones@[j]));
            }
        }
        None
    }

    /// The administrator creates election `id` for the post `puesto`, open from the
    /// instant of `inicio` to the instant of `fin`.
    pub fn crear_votacion(
        &mut self,
        caller: AccountId,
        id: i32,
        puesto: String,
        inicio: Fecha,
        fin: Fecha,
    ) -> (r: Result<(), Error>)
        requires
            old(self)@.bien_formado(),
        ensures
            final(self)@.bien_formado(),
            match old(self)@.error_creacion(caller, id, inicio, fin) {
                Some(e) => r == Err::<(), Error>(e) && final(self)@ == old(self)@,
                None => r is Ok && final(self)@ == (SistemaV {
                    votaciones: old(self)@.votaciones.push(
                        VotacionV {
                            id,
                            puesto: puesto@,
                            candidatos: Seq::empty(),
                            votantes: Seq::empty(),
                            votos: Seq::empty(),
                            votaron: Seq::empty(),
                            fecha_inicio: inicio.instante() as Timestamp,
                            fecha_fin: fin.instante() as Timestamp,
                        },
                    ),
                    ..old(self)@
                }),
            },
    {
        if caller != self.admin {
            return Err(Error::NotAdministrator);
        }
        if !inicio.es_fecha_valida() || !fin.es_fecha_valida() {
            return Err(Error::InvalidDate);
        }
        if self.buscar_votacion(id).is_some() {
            return Err(Error::DuplicateElectionId);
        }
        let ghost antes = self@;
        let v = Votacion::new(id, puesto, inicio.to_timestamp(), fin.to_timestamp());
        self.votaciones.push(v);
        proof {
            assert(v.candidatos@ =~= Seq::empty());
            assert(v.votantes@ =~= Seq::empty());
            assert(v.votos@ =~= Seq::empty());
            assert(v.votaron@ =~= Seq::empty());
            assert(self@.votaciones =~= antes.votaciones.push(vista_votacion(v)));
            assert(vista_votacion(v).bien_formada());
        }
        Ok(())
    }

    /// Whether `acc` is an approved participant.
    fn esta_registrado(&self, acc: AccountId) -> (r: bool)
        ensures
            r == self@.registrado(acc),
    {
        let mut i: usize = 0;
        while i < self.usuarios_reg.len()
            invariant
                0 <= i <= self.usuarios_reg@.len(),
                forall|j: int| 0 <= j < i ==> self.usuarios_reg@[j].acc_id != acc,
            decreases self.usuarios_reg@.len() - i,
        {
            if self.usuarios_reg[i].acc_id == acc {
                assert(self@.usuarios_reg[i as int] == self.usuarios_reg@[i as int]@);
                return true;
            }
            i = i + 1;
        }
        proof {
            assert forall|j: int| 0 <= j < self@.usuarios_reg.len() implies self@.usuarios_reg[
                j
            ].acc_id != acc by {
                assert(self@.usuarios_reg[j] == self.usuarios_reg@[j]@);
            }
        }
        false
    }

    /// Whether `acc` waits in `cola` for a role in election `id`.
    fn en_cola(cola: &Vec<(AccountId, i32)>, acc: AccountId, id: i32) -> (r: bool)
        ensures
            r == cola@.contains((acc, id)),
    {
        let mut i: usize = 0;
        while i < cola.len()
            invariant
                0 <= i <= cola@.len(),
                forall|j: int| 0 <= j < i ==> cola@[j] != (acc, id),
            decreases cola@.len() - i,
        {
            if cola[i].0 == acc && cola[i].1 == id {
                assert(cola@[i as int] == (acc, id));
                return true;
            }
            i = i + 1;
        }
        false
    }

    /// Asks, as `caller` at instant `momento`, for role `rol` in election `id`. The
    /// request waits, in arrival order, for the administrator's decision.
    pub fn postularse_a_votacion(
        &mut self,
        caller: AccountId,
        momento: Timestamp,
        rol: Rol,
        id_de_votacion: i32,
    ) -> (r: Result<(), Error>)
        requires
            old(self)@.bien_formado(),
        ensures
            final(self)@.bien_formado(),
            match old(self)@.error_postulacion(caller, momento, id_de_votacion) {
                Some(e) => r == Err::<(), Error>(e) && final(self)@ == old(self)@,
                None => r is Ok && final(self)@ == old(self)@.con_solicitud(
                    rol,
                    caller,
                    id_de_votacion,
                ),
            },
            old(self)@.existe_votacion(id_de_votacion) && momento
                > old(self)@.votaciones[old(self)@.pos_votacion(id_de_votacion)].fecha_inicio
                ==> r is Err && final(self)@ == old(self)@,
    {
        if !self.esta_registrado(caller) {
            return Err(Error::NotApproved);
        }
        let pos = match self.buscar_votacion(id_de_votacion) {
            Some(p) => p,
            None => {
                return Err(Error::NoSuchElection);
            },
        };
        proof {
            lemma_pos_votacion(self@, id_de_votacion, pos as int);
            assert(self@.votaciones[pos as int] == vista_votacion(self.votaciones@[pos as int]));
        }
        if self.votaciones[pos].inicio(momento) {
            return Err(Error::ElectionAlreadyOpen);
        }
        let en_candidatos = Sistema::en_cola(&self.espera_candidatos, caller, id_de_votacion);
        let en_votantes = Sistema::en_cola(&self.espera_votantes, caller, id_de_votacion);
        proof {
            let x = (caller, id_de_votacion);
            let sol = self@.solicitudes();
            let n = self@.espera_candidatos.len();
            if en_candidatos {
                let j = choose|j: int| 0 <= j < n && self@.espera_candidatos[j] == x;
                assert(sol[j] == x);
            }
            if en_votantes {
                let j = choose|j: int|
                    0 <= j < self@.espera_votantes.len() && self@.espera_votantes[j] == x;
                assert(sol[n + j] == x);
            }
            if sol.contains(x) {
                let j = choose|j: int| 0 <= j < sol.len() && sol[j] == x;
                if j < n {
                    assert(self@.espera_candidatos[j] == x);
                } else {
                    assert(self@.espera_votantes[j - n] == x);
                }
            }
        }
        if self.votaciones[pos].es_votante(caller) || self.votaciones[pos].es_candidato(caller)
            || en_candidatos || en_votantes {
            return Err(Error::AlreadyApplied);
        }
        let ghost antes = self@;
        proof {
            assert(!antes.solicitudes().contains((caller, id_de_votacion)));
            lemma_encolar(antes, rol, caller, id_de_votacion);
        }
        match rol {
            Rol::Candidato => {
                self.espera_candidatos.push((caller, id_de_votacion));
            },
            Rol::Votante => {
                self.espera_votantes.push((caller, id_de_votacion));
            },
        }
        Ok(())
    }

    /// The administrator decides, at instant `momento`, on the oldest request for role
    /// `rol`.
    fn resolver_solicitud(
        &mut self,
        caller: AccountId,
        momento: Timestamp,
        rol: Rol,
        aceptar: bool,
    ) -> (r: Result<Admision, Error>)
        requires
            old(self)@.bien_formado(),
        ensures
            final(self)@.bien_formado(),
            caller != old(self)@.admin ==> r == Err::<Admision, Error>(Error::NotAdministrator)
                && final(self)@ == old(self)@,
            caller == old(self)@.admin && old(self)@.cola(rol).len() == 0 ==> r == Ok::<
                Admision,
                Error,
            >(Admision::SinSolicitudes) && final(self)@ == old(self)@,
            caller == old(self)@.admin && old(self)@.cola(rol).len() > 0 ==> r == Ok::<
                Admision,
                Error,
            >(old(self)@.resolucion(rol, momento, aceptar).0) && final(self)@ == old(
                self,
            )@.resolucion(rol, momento, aceptar).1,
    {
        if caller != self.admin {
            return Err(Error::NotAdministrator);
        }
        let vacia = match rol {
            Rol::Candidato => self.espera_candidatos.len() == 0,
            Rol::Votante => self.espera_votantes.len() == 0,
        };
        if vacia {
            return Ok(Admision::SinSolicitudes);
        }
        let ghost antes = self@;
        proof {
            lemma_resolver(antes, rol, momento, aceptar);
        }
        let (acc, vid) = match rol {
            Rol::Candidato => self.espera_candidatos.remove(0),
            Rol::Votante => self.espera_votantes.remove(0),
        };
        assert(self@ == antes.sin_primera(rol));
        let pos = match self.buscar_votacion(vid) {
            Some(p) => p,
            None => {
                return Ok(Admision::Descartada(acc, vid));
            },
        };
        proof {
            lemma_pos_votacion(antes, vid, pos as int);
            assert(self@.votaciones[pos as int] == vista_votacion(self.votaciones@[pos as int]));
        }
        if self.votaciones[pos].inicio(momento) {
            return Ok(Admision::Descartada(acc, vid));
        }
        if !aceptar {
            return Ok(Admision::Rechazada(acc, vid));
        }
        let ghost medio = self@;
        match rol {
            Rol::Candidato => self.votaciones[pos].sumar_candidato(acc),
            Rol::Votante => self.votaciones[pos].sumar_votante(acc),
        }
        proof {
            assert(self@.votaciones[pos as int] == admitir(medio.votaciones[pos as int], rol, acc));
            assert(self@.votaciones =~= medio.votaciones.update(
                pos as int,
                admitir(medio.votaciones[pos as int], rol, acc),
            ));
        }
        Ok(Admision::Admitida(acc, vid))
    }

    /// The administrator decides, at instant `momento`, on the oldest candidacy request:
    /// the applicant becomes a candidate, with no votes, when `aceptar` holds and the
    /// election has not opened. The request leaves the queue in every case.
    pub fn validar_candidato(&mut self, caller: AccountId, momento: Timestamp, aceptar: bool) -> (r:
        Result<Admision, Error>)
        requires
            old(self)@.bien_formado(),
        ensures
            final(self)@.bien_formado(),
            caller != old(self)@.admin ==> r == Err::<Admision, Error>(Error::NotAdministrator)
                && final(self)@ == old(self)@,
            caller == old(self)@.admin && old(self)@.espera_candidatos.len() == 0 ==> r == Ok::<
                Admision,
                Error,
            >(Admision::SinSolicitudes) && final(self)@ == old(self)@,
            caller == old(self)@.admin && old(self)@.espera_candidatos.len() > 0 ==> r == Ok::<
                Admision,
                Error,
            >(old(self)@.resolucion(Rol::Candidato, momento, aceptar).0) && final(self)@ == old(
                self,
            )@.resolucion(Rol::Candidato, momento, aceptar).1,
            old(self)@.espera_candidatos.len() > 0 && old(self)@.existe_votacion(
                old(self)@.espera_candidatos[0].1,
            )
                && momento > old(self)@.votaciones[old(self)@.pos_votacion(
                old(self)@.espera_candidatos[0].1,
            )].fecha_inicio ==> final(self)@.votaciones == old(self)@.votaciones,
    {
        self.resolver_solicitud(caller, momento, Rol::Candidato, aceptar)
    }

    /// The administrator decides, at instant `momento`, on the oldest voter request: the
    /// applicant becomes a voter when `aceptar` holds and the election has not opened.
    /// The request leaves the queue in every case.
    pub fn validar_votante(&mut self, caller: AccountId, momento: Timestamp, aceptar: bool) -> (r:
        Result<Admision, Error>)
        requires
            old(self)@.bien_formado(),
        ensures
            final(self)@.bien_formado(),
            caller != old(self)@.admin ==> r == Err::<Admision, Error>(Error::NotAdministrator)
                && final(self)@ == old(self)@,
            caller == old(self)@.admin && old(self)@.espera_votantes.len() == 0 ==> r == Ok::<
                Admision,
                Error,
            >(Admision::SinSolicitudes) && final(self)@ == old(self)@,
            caller == old(self)@.admin && old(self)@.espera_votantes.len() > 0 ==> r == Ok::<
                Admision,
                Error,
            >(old(self)@.resolucion(Rol::Votante, momento, aceptar).0) && final(self)@ == old(
                self,
            )@.resolucion(Rol::Votante, momento, aceptar).1,
            old(self)@.espera_votantes.len() > 0 && old(self)@.existe_votacion(
                old(self)@.espera_votantes[0].1,
            )
                && momento > old(self)@.votaciones[old(self)@.pos_votacion(
                old(self)@.espera_votantes[0].1,
            )].fecha_inicio ==> final(self)@.votaciones == old(self)@.votaciones,
    {
        self.resolver_solicitud(caller, momento, Rol::Votante, aceptar)
    }

    /// Votes, as `caller` at instant `momento`, in election `id_de_votacion` for the
    /// candidate at 1-based position `opcion`. Returns whether the vote was counted.
    pub fn votar(
        &mut self,
        caller: AccountId,
        momento: Timestamp,
        id_de_votacion: i32,
        opcion: i32,
    ) -> (r: Result<bool, Error>)
        requires
            old(self)@.bien_formado(),
        ensures
            final(self)@.bien_formado(),
            r == old(self)@.resultado_voto(caller, momento, id_de_votacion, opcion).0,
            final(self)@ == old(self)@.resultado_voto(caller, momento, id_de_votacion, opcion).1,
            old(self)@.existe_votacion(id_de_votacion) && ({
                let v = old(self)@.votaciones[old(self)@.pos_votacion(id_de_votacion)];
                momento <= v.fecha_inicio || momento > v.fecha_fin
            }) ==> r is Err && final(self)@ == old(self)@,
    {
        let pos = match self.buscar_votacion(id_de_votacion) {
            Some(p) => p,
            None => {
                return Err(Error::UnknownElection);
            },
        };
        let ghost antes = self@;
        proof {
            lemma_pos_votacion(antes, id_de_votacion, pos as int);
            assert(antes.votaciones[pos as int] == vista_votacion(self.votaciones@[pos as int]));
            assert(antes.votaciones[pos as int].bien_formada());
        }
        if !self.votaciones[pos].inicio(momento) {
            return Err(Error::NotYetOpen);
        }
        if self.votaciones[pos].finalizo(momento) {
            return Err(Error::AlreadyClosed);
        }
        if caller == self.admin || !self.votaciones[pos].es_votante(caller) {
            return Ok(false);
        }
        if opcion < 1 || opcion as usize > self.votaciones[pos].candidatos.len() {
            return Ok(false);
        }
        if self.votaciones[pos].ya_voto(caller) {
            return Err(Error::AlreadyVoted);
        }
        let k = (opcion - 1) as usize;
        if self.votaciones[pos].votos[k] == u32::MAX {
            return Err(Error::TallyFull);
        }
        self.votaciones[pos].sumar_voto(k);
        self.votaciones[pos].marcar_voto(caller);
        proof {
            let v = antes.votaciones[pos as int];
            let w = VotacionV {
                votos: v.votos.update(k as int, (v.votos[k as int] + 1) as u32),
                votaron: v.votaron.push(caller),
                ..v
            };
            assert(self@.votaciones[pos as int] == w);
            assert(self@.votaciones =~= antes.votaciones.update(pos as int, w));
            assert(w.bien_formada()) by {
                lemma_suma_un_voto(v.votos, k as int);
                assert forall|a: int| 0 <= a < w.votaron.len() implies w.votantes.contains(
                    #[trigger] w.votaron[a]) by {
                    if a < v.votaron.len() {
                        assert(w.votaron[a] == v.votaron[a]);
                    }
                }
                assert forall|a: int, b: int|
                    0 <= a < w.votaron.len() && 0 <= b < w.votaron.len() && a != b implies w.votaron[a]
                    != w.votaron[b] by {
                    if a < v.votaron.len() && b < v.votaron.len() {
                        assert(v.votaron[a] != v.votaron[b]);
                    } else if a < v.votaron.len() {
                        assert(v.votaron[a] != caller);
                    } else if b < v.votaron.len() {
                        assert(v.votaron[b] != caller);
                    }
                }
            }
            assert forall|i: int| 0 <= i < self@.votaciones.len() implies #[trigger] self@.votaciones[
                i
            ].bien_formada() by {
                if i != pos {
                    assert(self@.votaciones[i] == antes.votaciones[i]);
                }
            }
        }
        Ok(true)
    }

    /// The tally of election `id`: each candidate, in order of acceptance, with its
    /// votes. `None` when no election has that id.
    pub fn ver_votos(&self, id: i32) -> (r: Option<Vec<(AccountId, u32)>>)
        requires
            self@.bien_formado(),
        ensures
            r is None <==> !self@.existe_votacion(id),
            r matches Some(t) ==> {
                let v = self@.votaciones[self@.pos_votacion(id)];
                &&& t@.len() == v.candidatos.len()
                &&& forall|k: int|
                    0 <= k < t@.len() ==> #[trigger] t@[k] == (v.candidatos[k], v.votos[k])
            },
    {
        let pos = match self.buscar_votacion(id) {
            Some(p) => p,
            None => {
                return None;
            },
        };
        proof {
            lemma_pos_votacion(self@, id, pos as int);
            assert(self@.votaciones[pos as int] == vista_votacion(self.votaciones@[pos as int]));
            assert(self@.votaciones[pos as int].bien_formada());
        }
        let v = &self.votaciones[pos];
        let mut t: Vec<(AccountId, u32)> = Vec::new();
        let mut k: usize = 0;
        while k < v.candidatos.len()
            invariant
                0 <= k <= v.candidatos@.len(),
                v.votos@.len() == v.candidatos@.len(),
                t@.len() == k,
                forall|j: int| 0 <= j < k ==> #[trigger] t@[j] == (v.candidatos@[j], v.votos@[j]),
            decreases v.candidatos@.len() - k,
        {
            t.push((v.candidatos[k], v.votos[k]));
            k = k + 1;
        }
        Some(t)
    }

    /// Number of approved participants.
    pub fn get_cant_usuarios(&self) -> (r: i32)
        ensures
            r == self@.usuarios_reg.len() as i32,
    {
        let x = self.usuarios_reg.len();
        x as i32
    }

    /// Number of candidacy requests waiting.
    pub fn get_cant_espera_candidatos(&self) -> (r: i32)
        ensures
            r == self@.espera_candidatos.len() as i32,
    {
        let x = self.espera_candidatos.len();
        x as i32
    }

    /// Number of voter requests waiting.
    pub fn get_cant_espera_votantes(&self) -> (r: i32)
        ensures
            r == self@.espera_votantes.len() as i32,
    {
        let x = self.espera_votantes.len();
        x as i32
    }

    /// Number of candidates of election `id`; 0 when no election has that id.
    pub fn get_cant_candidatos_vot(&self, id: i32) -> (r: i32)
        requires
            self@.bien_formado(),
        ensures
            r == if self@.existe_votacion(id) {
                self@.votaciones[self@.pos_votacion(id)].candidatos.len() as i32
            } else {
                0
            },
    {
        match self.buscar_votacion(id) {
            Some(pos) => {
                proof {
                    lemma_pos_votacion(self@, id, pos as int);
                }
                self.votaciones[pos].get_cant_candidatos_vot()
            },
            None => 0,
        }
    }

    /// Number of voters of election `id`; 0 when no election has that id.
    pub fn get_cant_votantes_vot(&self, id: i32) -> (r: i32)
        requires
            self@.bien_formado(),
        ensures
            r == if self@.existe_votacion(id) {
                self@.votaciones[self@.pos_votacion(id)].votantes.len() as i32
            } else {
                0
            },
    {
        match self.buscar_votacion(id) {
            Some(pos) => {
                proof {
                    lemma_pos_votacion(self@, id, pos as int);
                }
                self.votaciones[pos].get_cant_votantes_vot()
            },
            None => 0,
        }
    }

    /// Account of the approved participant at position `pos`, oldest first.
    pub fn get_id_posicion(&self, pos: i32) -> (r: AccountId)
        requires
            0 <= pos < self@.usuarios_reg.len(),
        ensures
            r == self@.usuarios_reg[pos as int].acc_id,
    {
        self.usuarios_reg[pos as usize].acc_id
    }

    /// Account of the administrator.
    pub fn get_owner_id(&self) -> (r: AccountId)
        ensures
            r == self@.admin,
    {
        self.admin
    }
}

} // verus!
