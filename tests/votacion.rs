use sistema_votacion::cuenta::AccountId;
use sistema_votacion::votacion::Votacion;

#[test]
fn sumar_voto_sube_en_uno_sin_dar_la_vuelta() {
    let mut v = Votacion::new(1, String::from("P"), 10, 20);
    v.sumar_candidato(AccountId::new([2; 32]));
    v.sumar_candidato(AccountId::new([3; 32]));
    assert_eq!(v.ver_votos(0), 0);
    v.sumar_voto(1);
    assert_eq!(v.ver_votos(1), 1);
    assert_eq!(v.ver_votos(0), 0);
    v.votos[0] = u32::MAX - 1;
    v.sumar_voto(0);
    assert_eq!(v.ver_votos(0), u32::MAX);
}

#[test]
fn ventana_de_la_votacion() {
    let v = Votacion::new(1, String::from("P"), 10, 20);
    assert!(!v.inicio(10));
    assert!(v.inicio(11));
    assert!(!v.finalizo(20));
    assert!(v.finalizo(21));
}
