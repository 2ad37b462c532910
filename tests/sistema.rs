use sistema_votacion::calendario::Fecha;
use sistema_votacion::cuenta::AccountId;
use sistema_votacion::sistema::{Admision, Error, Rol, Sistema};

fn cuenta(n: u8) -> AccountId {
    AccountId::new([n; 32])
}

fn fecha(dia: u32, mes: u32, anio: i32) -> Fecha {
    Fecha { dia, mes, anio }
}

fn admin() -> AccountId {
    cuenta(1)
}

fn antes_de_2030() -> u64 {
    fecha(1, 1, 2024).to_timestamp()
}

/// An engine with participant `n` approved and election `id` opening 1/1/2030.
fn sistema_con(participantes: &[u8], id: i32) -> Sistema {
    let mut s = Sistema::new(String::from("Admin"), admin());
    for (i, n) in participantes.iter().enumerate() {
        assert_eq!(
            s.registrar_usuario(cuenta(*n), String::from("Ana"), String::from("Paz"), 20, 100 + i as i128),
            Ok(())
        );
        assert!(s.validar_usuario(admin(), true).unwrap().is_some());
    }
    assert_eq!(
        s.crear_votacion(admin(), id, String::from("Presidente"), fecha(1, 1, 2030), fecha(31, 12, 2030)),
        Ok(())
    );
    s
}

#[test]
fn crear_votacion_con_fechas_bisiestas() {
    let mut s = Sistema::new(String::from("Admin"), admin());
    assert_eq!(
        s.crear_votacion(admin(), 1, String::from("P"), fecha(1, 1, 2024), fecha(29, 2, 2024)),
        Ok(())
    );
    assert_eq!(
        s.crear_votacion(admin(), 2, String::from("P"), fecha(1, 1, 2023), fecha(29, 2, 2023)),
        Err(Error::InvalidDate)
    );
    assert_eq!(
        s.crear_votacion(admin(), 3, String::from("P"), fecha(31, 4, 2023), fecha(1, 5, 2023)),
        Err(Error::InvalidDate)
    );
}

#[test]
fn candidato_aceptado_y_segunda_postulacion() {
    let mut s = Sistema::new(String::from("Admin"), admin());
    let a = cuenta(2);
    assert_eq!(s.registrar_usuario(a, String::from("Ana"), String::from("Paz"), 20, 42), Ok(()));
    let aprobado = s.validar_usuario(admin(), true).unwrap().unwrap();
    assert_eq!(aprobado.nombre, "Ana");
    assert!(aprobado.verificado);
    assert_eq!(
        s.crear_votacion(admin(), 7, String::from("Presidente"), fecha(1, 1, 2030), fecha(31, 12, 2030)),
        Ok(())
    );
    let ahora = antes_de_2030();
    assert_eq!(s.postularse_a_votacion(a, ahora, Rol::Candidato, 7), Ok(()));
    assert_eq!(s.validar_candidato(admin(), ahora, true), Ok(Admision::Admitida(a, 7)));
    assert_eq!(s.get_cant_candidatos_vot(7), 1);
    assert_eq!(s.postularse_a_votacion(a, ahora, Rol::Candidato, 7), Err(Error::AlreadyApplied));
    assert_eq!(s.postularse_a_votacion(a, ahora, Rol::Votante, 7), Err(Error::AlreadyApplied));
}

#[test]
fn postulacion_a_votacion_ya_iniciada() {
    let mut s = sistema_con(&[2], 7);
    assert_eq!(
        s.crear_votacion(admin(), 8, String::from("P"), fecha(1, 1, 2020), fecha(31, 12, 2030)),
        Ok(())
    );
    let ahora = fecha(1, 1, 2024).to_timestamp();
    assert_eq!(
        s.postularse_a_votacion(cuenta(2), ahora, Rol::Candidato, 8),
        Err(Error::ElectionAlreadyOpen)
    );
    assert_eq!(s.get_cant_espera_candidatos(), 0);
}

#[test]
fn registro_rechaza_identidades_repetidas() {
    let mut s = Sistema::new(String::from("Admin"), admin());
    assert_eq!(s.registrar_usuario(cuenta(2), String::from("A"), String::from("B"), 30, 10), Ok(()));
    assert_eq!(
        s.registrar_usuario(cuenta(2), String::from("A"), String::from("B"), 30, 10),
        Err(Error::AlreadyPending)
    );
    assert_eq!(
        s.registrar_usuario(cuenta(3), String::from("C"), String::from("D"), 30, 10),
        Err(Error::DuplicateIdentity)
    );
    assert_eq!(
        s.registrar_usuario(cuenta(2), String::from("C"), String::from("D"), 30, 11),
        Err(Error::DuplicateIdentity)
    );
    assert!(s.validar_usuario(admin(), true).unwrap().is_some());
    assert_eq!(
        s.registrar_usuario(cuenta(2), String::from("A"), String::from("B"), 30, 10),
        Err(Error::DuplicateIdentity)
    );
    assert_eq!(
        s.registrar_usuario(cuenta(4), String::from("E"), String::from("F"), 30, 10),
        Err(Error::DuplicateIdentity)
    );
    assert_eq!(s.registrar_usuario(cuenta(4), String::from("E"), String::from("F"), 30, 12), Ok(()));
    assert_eq!(s.get_cant_usuarios(), 1);
}

#[test]
fn registro_rechaza_administrador_y_menores() {
    let mut s = Sistema::new(String::from("Admin"), admin());
    assert_eq!(
        s.registrar_usuario(admin(), String::from("A"), String::from("B"), 30, 10),
        Err(Error::AdministratorCannotRegister)
    );
    assert_eq!(
        s.registrar_usuario(cuenta(2), String::from("A"), String::from("B"), 17, 10),
        Err(Error::Underage)
    );
    assert_eq!(s.registrar_usuario(cuenta(2), String::from("A"), String::from("B"), 18, 10), Ok(()));
}

#[test]
fn validar_usuario_rechazado_sale_de_la_cola() {
    let mut s = Sistema::new(String::from("Admin"), admin());
    assert_eq!(s.registrar_usuario(cuenta(2), String::from("A"), String::from("B"), 30, 10), Ok(()));
    assert_eq!(s.registrar_usuario(cuenta(3), String::from("C"), String::from("D"), 40, 11), Ok(()));
    assert_eq!(s.validar_usuario(cuenta(2), true).unwrap_err(), Error::NotAdministrator);
    let primero = s.validar_usuario(admin(), false).unwrap().unwrap();
    assert_eq!(primero.dni, 10);
    assert!(!primero.verificado);
    assert_eq!(s.get_cant_usuarios(), 0);
    let segundo = s.validar_usuario(admin(), true).unwrap().unwrap();
    assert_eq!(segundo.dni, 11);
    assert_eq!(s.get_cant_usuarios(), 1);
    assert_eq!(s.get_id_posicion(0), cuenta(3));
    assert!(s.validar_usuario(admin(), true).unwrap().is_none());
}

#[test]
fn colas_vacias_no_cambian_nada() {
    let mut s = sistema_con(&[2], 7);
    let ahora = antes_de_2030();
    for _ in 0..2 {
        assert_eq!(s.validar_candidato(admin(), ahora, true), Ok(Admision::SinSolicitudes));
        assert_eq!(s.validar_votante(admin(), ahora, true), Ok(Admision::SinSolicitudes));
        assert!(s.validar_usuario(admin(), true).unwrap().is_none());
    }
    assert_eq!(s.get_cant_usuarios(), 1);
    assert_eq!(s.get_cant_candidatos_vot(7), 0);
    assert_eq!(s.get_cant_votantes_vot(7), 0);
}

#[test]
fn admision_despues_de_la_apertura_se_descarta() {
    let mut s = sistema_con(&[2, 3], 7);
    let ahora = antes_de_2030();
    assert_eq!(s.postularse_a_votacion(cuenta(2), ahora, Rol::Candidato, 7), Ok(()));
    assert_eq!(s.postularse_a_votacion(cuenta(3), ahora, Rol::Votante, 7), Ok(()));
    let abierta = fecha(2, 1, 2030).to_timestamp();
    assert_eq!(s.validar_candidato(admin(), abierta, true), Ok(Admision::Descartada(cuenta(2), 7)));
    assert_eq!(s.validar_votante(admin(), abierta, true), Ok(Admision::Descartada(cuenta(3), 7)));
    assert_eq!(s.get_cant_candidatos_vot(7), 0);
    assert_eq!(s.get_cant_votantes_vot(7), 0);
    assert_eq!(s.get_cant_espera_candidatos(), 0);
    assert_eq!(s.get_cant_espera_votantes(), 0);
}

#[test]
fn solicitud_rechazada_no_admite() {
    let mut s = sistema_con(&[2], 7);
    let ahora = antes_de_2030();
    assert_eq!(s.postularse_a_votacion(cuenta(2), ahora, Rol::Votante, 7), Ok(()));
    assert_eq!(s.get_cant_espera_votantes(), 1);
    assert_eq!(s.validar_votante(cuenta(2), ahora, true), Err(Error::NotAdministrator));
    assert_eq!(s.validar_votante(admin(), ahora, false), Ok(Admision::Rechazada(cuenta(2), 7)));
    assert_eq!(s.get_cant_votantes_vot(7), 0);
    assert_eq!(s.postularse_a_votacion(cuenta(2), ahora, Rol::Votante, 7), Ok(()));
}

#[test]
fn postulacion_errores() {
    let mut s = sistema_con(&[2], 7);
    let ahora = antes_de_2030();
    assert_eq!(s.postularse_a_votacion(cuenta(9), ahora, Rol::Votante, 7), Err(Error::NotApproved));
    assert_eq!(s.postularse_a_votacion(admin(), ahora, Rol::Votante, 7), Err(Error::NotApproved));
    assert_eq!(s.postularse_a_votacion(cuenta(2), ahora, Rol::Votante, 99), Err(Error::NoSuchElection));
}

#[test]
fn crear_votacion_errores() {
    let mut s = sistema_con(&[], 7);
    assert_eq!(
        s.crear_votacion(cuenta(2), 8, String::from("P"), fecha(1, 1, 2030), fecha(2, 1, 2030)),
        Err(Error::NotAdministrator)
    );
    assert_eq!(
        s.crear_votacion(admin(), 7, String::from("P"), fecha(1, 1, 2030), fecha(2, 1, 2030)),
        Err(Error::DuplicateElectionId)
    );
    assert_eq!(s.get_cant_candidatos_vot(8), 0);
    assert_eq!(s.get_owner_id(), admin());
}

/// Election 7 with candidates 2 and 3 and voters 4 and 5.
fn votacion_lista() -> Sistema {
    let mut s = sistema_con(&[2, 3, 4, 5], 7);
    let ahora = antes_de_2030();
    for n in [2u8, 3] {
        assert_eq!(s.postularse_a_votacion(cuenta(n), ahora, Rol::Candidato, 7), Ok(()));
        assert_eq!(s.validar_candidato(admin(), ahora, true), Ok(Admision::Admitida(cuenta(n), 7)));
    }
    for n in [4u8, 5] {
        assert_eq!(s.postularse_a_votacion(cuenta(n), ahora, Rol::Votante, 7), Ok(()));
        assert_eq!(s.validar_votante(admin(), ahora, true), Ok(Admision::Admitida(cuenta(n), 7)));
    }
    assert_eq!(s.get_cant_candidatos_vot(7), 2);
    assert_eq!(s.get_cant_votantes_vot(7), 2);
    s
}

#[test]
fn votar_cuenta_un_voto_por_votante() {
    let mut s = votacion_lista();
    let abierta = fecha(15, 6, 2030).to_timestamp();
    assert_eq!(s.votar(cuenta(4), abierta, 7, 2), Ok(true));
    assert_eq!(s.votar(cuenta(4), abierta, 7, 1), Err(Error::AlreadyVoted));
    assert_eq!(s.votar(cuenta(5), abierta, 7, 2), Ok(true));
    assert_eq!(s.ver_votos(7), Some(vec![(cuenta(2), 0), (cuenta(3), 2)]));
}

#[test]
fn votar_ignora_posiciones_y_no_votantes() {
    let mut s = votacion_lista();
    let abierta = fecha(15, 6, 2030).to_timestamp();
    assert_eq!(s.votar(cuenta(4), abierta, 7, 0), Ok(false));
    assert_eq!(s.votar(cuenta(4), abierta, 7, 3), Ok(false));
    assert_eq!(s.votar(cuenta(4), abierta, 7, -1), Ok(false));
    assert_eq!(s.votar(cuenta(2), abierta, 7, 1), Ok(false));
    assert_eq!(s.votar(admin(), abierta, 7, 1), Ok(false));
    assert_eq!(s.ver_votos(7), Some(vec![(cuenta(2), 0), (cuenta(3), 0)]));
    assert_eq!(s.votar(cuenta(4), abierta, 7, 1), Ok(true));
    assert_eq!(s.ver_votos(7), Some(vec![(cuenta(2), 1), (cuenta(3), 0)]));
    assert_eq!(s.votar(cuenta(4), abierta, 7, 0), Ok(false));
    assert_eq!(s.votar(cuenta(4), abierta, 7, 3), Ok(false));
    assert_eq!(s.votar(cuenta(4), abierta, 7, 2), Err(Error::AlreadyVoted));
    assert_eq!(s.ver_votos(7), Some(vec![(cuenta(2), 1), (cuenta(3), 0)]));
}

#[test]
fn la_votacion_abre_al_terminar_su_primer_dia() {
    let mut s = votacion_lista();
    let fin_del_primer_dia = fecha(1, 1, 2030).to_timestamp();
    assert_eq!(s.votar(cuenta(4), fin_del_primer_dia, 7, 1), Err(Error::NotYetOpen));
    assert_eq!(s.votar(cuenta(4), fin_del_primer_dia + 1, 7, 1), Ok(true));
}

#[test]
fn votar_fuera_de_horario_no_cambia_nada() {
    let mut s = votacion_lista();
    let antes = fecha(1, 1, 2030).to_timestamp();
    let despues = fecha(1, 1, 2031).to_timestamp();
    assert_eq!(s.votar(cuenta(4), antes, 7, 1), Err(Error::NotYetOpen));
    assert_eq!(s.votar(cuenta(4), despues, 7, 1), Err(Error::AlreadyClosed));
    assert_eq!(s.votar(cuenta(4), antes, 99, 1), Err(Error::UnknownElection));
    assert_eq!(s.ver_votos(7), Some(vec![(cuenta(2), 0), (cuenta(3), 0)]));
    let ultimo = fecha(31, 12, 2030).to_timestamp();
    assert_eq!(s.votar(cuenta(4), ultimo, 7, 1), Ok(true));
}

#[test]
fn ver_votos_de_votacion_inexistente() {
    let s = votacion_lista();
    assert_eq!(s.ver_votos(8), None);
}

#[test]
fn secuencia_de_registros_sin_identidades_repetidas() {
    let mut s = Sistema::new(String::from("Admin"), admin());
    let mut aprobados: Vec<(AccountId, i128)> = Vec::new();
    let mut semilla: u32 = 12345;
    for _ in 0..200 {
        semilla = semilla.wrapping_mul(1_103_515_245).wrapping_add(12_345);
        let acc = cuenta(1 + (semilla >> 16) as u8 % 8);
        let dni = ((semilla >> 8) % 6) as i128;
        let _ = s.registrar_usuario(acc, String::from("N"), String::from("A"), 30, dni);
        if semilla % 3 == 0 {
            let aceptar = semilla % 2 == 0;
            if let Ok(Some(u)) = s.validar_usuario(admin(), aceptar) {
                if aceptar {
                    aprobados.push((u.acc_id, u.dni));
                }
            }
        }
    }
    assert!(!aprobados.is_empty());
    assert_eq!(s.get_cant_usuarios() as usize, aprobados.len());
    for i in 0..aprobados.len() {
        assert_eq!(s.get_id_posicion(i as i32), aprobados[i].0);
        for j in 0..aprobados.len() {
            if i != j {
                assert_ne!(aprobados[i].0, aprobados[j].0);
                assert_ne!(aprobados[i].1, aprobados[j].1);
            }
        }
    }
}
