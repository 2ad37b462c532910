use vstd::prelude::*;
use crate::calendario::Timestamp;
use crate::cuenta::{contiene, AccountId};

verus! {

/// One election: its title, its time window, the accepted candidates and voters, the
/// tally of each candidate and the voters who already voted.
///
/// `votos[i]` is the tally of `candidatos[i]`.
pub struct Votacion {
    pub id: i32,
    pub puesto: String,
    pub candidatos: Vec<AccountId>,
    pub votantes: Vec<AccountId>,
    pub votos: Vec<u32>,
    pub votaron: Vec<AccountId>,
    pub fecha_inicio: Timestamp,
    pub fecha_fin: Timestamp,
}

/// Sum of the tallies.
pub open spec fn suma_votos(votos: Seq<u32>) -> int
    decreases votos.len(),
{
    if votos.len() == 0 {
        0
    } else {
        suma_votos(votos.drop_last()) + votos.last()
    }
}

/// A new tally of zero leaves the sum as it was.
pub proof fn lemma_suma_con_cero(votos: Seq<u32>)
    ensures
        suma_votos(votos.push(0)) == suma_votos(votos),
{
    assert(votos.push(0).drop_last() =~= votos);
}

/// One more vote on one tally adds one to the sum.
pub proof fn lemma_suma_un_voto(votos: Seq<u32>, k: int)
    requires
        0 <= k < votos.len(),
        votos[k] < u32::MAX,
    ensures
        suma_votos(votos.update(k, (votos[k] + 1) as u32)) == suma_votos(votos) + 1,
    decreases votos.len(),
{
    let nuevo = votos.update(k, (votos[k] + 1) as u32);
    if k == votos.len() - 1 {
        assert(nuevo.drop_last() =~= votos.drop_last());
    } else {
        assert(nuevo.drop_last() =~= votos.drop_last().update(k, (votos[k] + 1) as u32));
        lemma_suma_un_voto(votos.drop_last(), k);
    }
}

impl Votacion {
    /// Each candidate has exactly one tally.
    pub open spec fn un_tally_por_candidato(&self) -> bool {
        self.votos@.len() == self.candidatos@.len()
    }

    /// The election has opened at instant `momento`.
    pub open spec fn abierta_en(&self, momento: Timestamp) -> bool {
        momento > self.fecha_inicio
    }

    /// The election has closed at instant `momento`.
    pub open spec fn cerrada_en(&self, momento: Timestamp) -> bool {
        momento > self.fecha_fin
    }

    /// A new election with no candidates, voters or votes.
    pub fn new(id: i32, puesto: String, fecha_inicio: Timestamp, fecha_fin: Timestamp) -> (r:
        Votacion)
        ensures
            r.id == id,
            r.puesto == puesto,
            r.fecha_inicio == fecha_inicio,
            r.fecha_fin == fecha_fin,
            r.candidatos@.len() == 0,
            r.votantes@.len() == 0,
            r.votos@.len() == 0,
            r.votaron@.len() == 0,
            r.un_tally_por_candidato(),
    {
        Votacion {
            id,
            puesto,
            candidatos: Vec::new(),
            votantes: Vec::new(),
            votos: Vec::new(),
            votaron: Vec::new(),
            fecha_inicio,
            fecha_fin,
        }
    }

    /// Number of accepted candidates.
    pub fn get_cant_candidatos_vot(&self) -> (r: i32)
        ensures
            r == self.candidatos@.len() as i32,
    {
        let x = self.candidatos.len();
        x as i32
    }

    /// Number of accepted voters.
    pub fn get_cant_votantes_vot(&self) -> (r: i32)
        ensures
            r == self.votantes@.len() as i32,
    {
        let x = self.votantes.len();
        x as i32
    }

    /// Whether the election has opened at instant `momento`.
    pub fn inicio(&self, momento: Timestamp) -> (r: bool)
        ensures
            r == self.abierta_en(momento),
    {
        momento > self.fecha_inicio
    }

    /// Whether the election has closed at instant `momento`.
    pub fn finalizo(&self, momento: Timestamp) -> (r: bool)
        ensures
            r == self.cerrada_en(momento),
    {
        momento > self.fecha_fin
    }

    /// Whether `acc_id` is an accepted voter.
    pub fn es_votante(&self, acc_id: AccountId) -> (r: bool)
        ensures
            r == self.votantes@.contains(acc_id),
    {
        contiene(&self.votantes, &acc_id)
    }

    /// Whether `acc_id` is an accepted candidate.
    pub fn es_candidato(&self, acc_id: AccountId) -> (r: bool)
        ensures
            r == self.candidatos@.contains(acc_id),
    {
        contiene(&self.candidatos, &acc_id)
    }

    /// Whether `acc_id` has already voted.
    pub fn ya_voto(&self, acc_id: AccountId) -> (r: bool)
        ensures
            r == self.votaron@.contains(acc_id),
    {
        contiene(&self.votaron, &acc_id)
    }

    /// Accepts a candidate, with a tally of zero.
    pub fn sumar_candidato(&mut self, accid: AccountId)
        ensures
            final(self).candidatos@ == old(self).candidatos@.push(accid),
            final(self).votos@ == old(self).votos@.push(0),
            final(self).votantes@ == old(self).votantes@,
            final(self).votaron@ == old(self).votaron@,
            final(self).id == old(self).id,
            final(self).puesto == old(self).puesto,
            final(self).fecha_inicio == old(self).fecha_inicio,
            final(self).fecha_fin == old(self).fecha_fin,
    {
        self.candidatos.push(accid);
        self.votos.push(0);
    }

    /// Accepts a voter.
    pub fn sumar_votante(&mut self, accid: AccountId)
        ensures
            final(self).votantes@ == old(self).votantes@.push(accid),
            final(self).candidatos@ == old(self).candidatos@,
            final(self).votos@ == old(self).votos@,
            final(self).votaron@ == old(self).votaron@,
            final(self).id == old(self).id,
            final(self).puesto == old(self).puesto,
            final(self).fecha_inicio == old(self).fecha_inicio,
            final(self).fecha_fin == old(self).fecha_fin,
    {
        self.votantes.push(accid);
    }

    /// Adds one vote to the candidate at index `pos`.
    pub fn sumar_voto(&mut self, pos: usize)
        requires
            old(self).un_tally_por_candidato(),
            pos < old(self).candidatos@.len(),
            old(self).votos@[pos as int] < u32::MAX,
        ensures
            final(self).votos@ == old(self).votos@.update(
                pos as int,
                (old(self).votos@[pos as int] + 1) as u32,
            ),
            final(self).candidatos@ == old(self).candidatos@,
            final(self).votantes@ == old(self).votantes@,
            final(self).votaron@ == old(self).votaron@,
            final(self).id == old(self).id,
            final(self).puesto == old(self).puesto,
            final(self).fecha_inicio == old(self).fecha_inicio,
            final(self).fecha_fin == old(self).fecha_fin,
    {
        let actual = self.votos[pos];
        self.votos.set(pos, actual + 1);
    }

    /// Records that `accid` has voted.
    pub fn marcar_voto(&mut self, accid: AccountId)
        ensures
            final(self).votaron@ == old(self).votaron@.push(accid),
            final(self).candidatos@ == old(self).candidatos@,
            final(self).votantes@ == old(self).votantes@,
            final(self).votos@ == old(self).votos@,
            final(self).id == old(self).id,
            final(self).puesto == old(self).puesto,
            final(self).fecha_inicio == old(self).fecha_inicio,
            final(self).fecha_fin == old(self).fecha_fin,
    {
        self.votaron.push(accid);
    }

    /// Votes of the candidate at index `pos`.
    pub fn ver_votos(&self, pos: i32) -> (r: u32)
        requires
            self.un_tally_por_candidato(),
            0 <= pos < self.candidatos@.len(),
        ensures
            r == self.votos@[pos as int],
    {
        self.votos[pos as usize]
    }
}

} // verus!
