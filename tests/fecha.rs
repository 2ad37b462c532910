use sistema_votacion::fecha::Fecha;

#[test]
fn test_ej3_1() {
    let mut f: Fecha = Fecha::new(1, 1, 2024);
    f.sumar_dias(59);
    let aux: Fecha = Fecha::new(29, 2, 2024);
    assert!(f.eq(&aux));
}

#[test]
fn test_ej3_2() {
    let mut f: Fecha = Fecha::new(1, 3, 2024);
    f.restar_dias(61);
    let aux: Fecha = Fecha::new(30, 12, 2023);
    assert!(f.eq(&aux));
}

#[test]
fn test_ej3_3() {
    let f: Fecha = Fecha::new(1, 1, 2024);
    assert!(f.es_bisiesto())
}

#[test]
fn test_ej3_4() {
    let f: Fecha = Fecha::new(1, 1, 2023);
    assert!(!f.es_bisiesto())
}

#[test]
fn test_ej3_5() {
    let y: Fecha = Fecha::new(31, 12, 2023);
    let f: Fecha = Fecha::new(1, 1, 2024);
    assert!(f.es_mayor(&y))
}

#[test]
fn sumar_dias_cruza_el_fin_de_anio() {
    let mut f = Fecha::new(25, 12, 2023);
    f.sumar_dias(10);
    assert_eq!(f, Fecha::new(5, 1, 2024));
}

#[test]
fn sumar_dias_en_febrero_comun() {
    let mut f = Fecha::new(20, 2, 2023);
    f.sumar_dias(10);
    assert_eq!(f, Fecha::new(2, 3, 2023));
}

#[test]
fn sumar_cero_dias_no_cambia() {
    let mut f = Fecha::new(15, 6, 2020);
    f.sumar_dias(0);
    assert_eq!(f, Fecha::new(15, 6, 2020));
}

#[test]
fn restar_dias_cruza_el_comienzo_de_anio() {
    let mut f = Fecha::new(3, 1, 2024);
    f.restar_dias(5);
    assert_eq!(f, Fecha::new(28, 12, 2023));
}

#[test]
fn sumar_y_restar_se_deshacen() {
    let mut f = Fecha::new(17, 8, 2021);
    f.sumar_dias(500);
    f.restar_dias(500);
    assert_eq!(f, Fecha::new(17, 8, 2021));
}

#[test]
fn es_mayor_no_es_reflexivo() {
    let f = Fecha::new(10, 10, 2010);
    assert!(!f.es_mayor(&f));
    assert!(Fecha::new(11, 10, 2010).es_mayor(&f));
    assert!(!Fecha::new(9, 11, 2009).es_mayor(&f));
}

#[test]
fn eq_compara_los_tres_campos() {
    assert!(Fecha::new(1, 2, 2000).eq(&Fecha::new(1, 2, 2000)));
    assert!(!Fecha::new(1, 2, 2000).eq(&Fecha::new(1, 2, 2001)));
}
